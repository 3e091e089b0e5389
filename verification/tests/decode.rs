use checkpr::checks::{Check, RustJob};
use checkpr::decode::{parse_check, parse_check_list};
use checkpr::json::{parse_json, Json};

#[test]
fn decode_rust() {
    let _ck: Check = parse_check(
        "
            {
                \"type\": \"rust\",
                \"features\": [\"rand\", \"use-serde\", \"base64\"],
                \"version\": [\"stable\", \"nightly\"]
            }
       ",
    )
    .expect("decoding");

    let _ck: Check = parse_check(
        "
            {
                \"type\": \"rust\",
                \"only-tip\": true,
                \"version\": \"nightly\",
                \"working-dir\": \"fuzz\",
                \"jobs\": [ \"test\", { \"fuzz\": { \"iters\": 1000000 } } ]
            }
       ",
    )
    .expect("decoding");

    let _ck: Check = parse_check(
        "
            {
                \"type\": \"rust\",
                \"only-tip\": true,
                \"version\": \"nightly\",
                \"working-dir\": \"fuzz\",
                \"jobs\": [ \"test\", { \"fuzz\": {} } ]
            }
       ",
    )
    .expect("decoding");
}

#[test]
fn decode_fields_and_defaults() {
    let Check::Rust(ck) = parse_check("{\"type\": \"rust\"}").expect("decoding");
    assert!(ck.features.is_empty());
    assert!(ck.version.is_empty());
    assert_eq!(
        ck.jobs,
        vec![RustJob::Build, RustJob::Test, RustJob::Examples]
    );
    assert!(!ck.only_tip);
    assert!(ck.working_dir.is_none());

    let Check::Rust(ck) = parse_check(
        "{\"type\": \"rust\", \"features\": [\"a\", \"b\"], \"version\": \"1.41.0\",
          \"jobs\": \"build\", \"only-tip\": true, \"working-dir\": \"sub\"}",
    )
    .expect("decoding");
    assert_eq!(ck.features, vec!["a".to_string(), "b".to_string()]);
    assert_eq!(ck.version, vec!["1.41.0".to_string()]);
    assert_eq!(ck.jobs, vec![RustJob::Build]);
    assert!(ck.only_tip);
    assert_eq!(ck.working_dir, Some("sub".to_string()));
}

#[test]
fn decode_escaped_feature_names() {
    let Check::Rust(ck) =
        parse_check("{\"type\": \"rust\", \"features\": [\"a\\\"b\", \"c\\\\d\"]}")
            .expect("decoding");
    assert_eq!(ck.features, vec!["a\"b".to_string(), "c\\d".to_string()]);
}

#[test]
fn decode_fuzz_iters() {
    let Check::Rust(ck) =
        parse_check("{\"type\": \"rust\", \"jobs\": [{\"fuzz\": {\"iters\": 1000000}}]}")
            .expect("decoding");
    assert_eq!(ck.jobs, vec![RustJob::Fuzz { iters: 1000000 }]);

    let Check::Rust(ck) = parse_check("{\"type\": \"rust\", \"jobs\": [{\"fuzz\": {}}]}")
        .expect("decoding");
    assert_eq!(ck.jobs, vec![RustJob::Fuzz { iters: 100000 }]);
}

#[test]
fn decode_rejects_bad_descriptors() {
    // no tag
    assert!(parse_check("{}").is_err());
    // wrong tag
    assert!(parse_check("{\"type\": \"python\"}").is_err());
    // unknown field
    assert!(parse_check("{\"type\": \"rust\", \"color\": \"red\"}").is_err());
    // repeated field
    assert!(parse_check("{\"type\": \"rust\", \"version\": \"a\", \"version\": \"b\"}").is_err());
    // wrong shape
    assert!(parse_check("{\"type\": \"rust\", \"features\": \"a\"}").is_err());
    assert!(parse_check("{\"type\": \"rust\", \"only-tip\": 1}").is_err());
    // a lone fuzz record is not a valid single-form job
    assert!(parse_check("{\"type\": \"rust\", \"jobs\": {\"fuzz\": {}}}").is_err());
    // malformed input
    assert!(parse_check("{\"type\": ").is_err());
    assert!(parse_check("").is_err());
}

#[test]
fn decode_check_list() {
    let cks = parse_check_list(
        "[{\"type\": \"rust\"}, {\"type\": \"rust\", \"jobs\": [\"test\"]}]",
    )
    .expect("decoding list");
    assert_eq!(cks.len(), 2);
    let Check::Rust(second) = &cks[1];
    assert_eq!(second.jobs, vec![RustJob::Test]);

    let e = parse_check_list("{\"type\": \"rust\"}").unwrap_err();
    assert_eq!(e, "parsing check list JSON");
    assert!(parse_check_list("[{\"type\": \"rust\"}, 7]").is_err());
}

#[test]
fn wire_format_values() {
    match parse_json(" [true, false, null, 42, \"x\"] ").expect("parses") {
        Json::Arr(items) => {
            assert_eq!(items.len(), 5);
            assert!(matches!(items[0], Json::Bool(true)));
            assert!(matches!(items[1], Json::Bool(false)));
            assert!(matches!(items[2], Json::Null));
            assert!(matches!(items[3], Json::UInt(42)));
            match &items[4] {
                Json::Str(s) => assert_eq!(s, "x"),
                _ => panic!("expected a string"),
            }
        },
        _ => panic!("expected a list"),
    }
    // trailing garbage is rejected
    assert!(parse_json("1 2").is_none());
    // the standard single-character escapes are understood
    match parse_json("\"a\\n\\t\\\"x\\\\y\\/\"").expect("parses") {
        Json::Str(s) => assert_eq!(s, "a\n\t\"x\\y/"),
        _ => panic!("expected a string"),
    }
    // an unrecognized escape (code-point escapes included) is rejected
    assert!(parse_json("\"a\\q\"").is_none());
    assert!(parse_json("\"a\\u0041\"").is_none());
    assert!(parse_json("\"open\\").is_none());
    // numbers beyond the 64-bit range are rejected
    assert!(parse_json("18446744073709551616").is_none());
    assert!(parse_json("18446744073709551615").is_some());
}
