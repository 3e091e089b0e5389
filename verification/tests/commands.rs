use checkpr::cargo::{
    build_command, deps_to_pin, example_command, first_line, fuzz_command, lockfile_command,
    pin_command, rustc_version_command, str_lex_lt, test_command, update_command, version_command,
};

fn strings(v: &[&str]) -> Vec<String> {
    v.iter().map(|s| s.to_string()).collect()
}

#[test]
fn command_arguments() {
    let c = build_command(&"stable".to_string(), &strings(&["a", "b"]), &None);
    assert_eq!(c.program, "cargo");
    assert_eq!(c.args, strings(&["+stable", "build", "--features=a b"]));
    assert!(c.env.is_empty());
    assert!(c.cwd_suffix.is_none());

    let c = test_command(&"nightly".to_string(), &strings(&[]), &Some("sub".to_string()));
    assert_eq!(c.args, strings(&["+nightly", "test", "--features="]));
    assert_eq!(c.cwd_suffix.as_deref(), Some("sub"));

    let c = example_command(&"stable".to_string(), &"demo".to_string(), &None);
    assert_eq!(c.args, strings(&["+stable", "run", "--example", "demo"]));

    let c = version_command(&"stable".to_string());
    assert_eq!(c.args, strings(&["+stable", "-V"]));
    let c = rustc_version_command(&"stable".to_string());
    assert_eq!(c.program, "rustc");
    assert_eq!(c.args, strings(&["+stable", "-V"]));

    let c = lockfile_command(&"stable".to_string());
    assert_eq!(c.args, strings(&["+stable", "generate-lockfile"]));
    let c = update_command(&"stable".to_string());
    assert_eq!(c.args, strings(&["+stable", "update"]));

    let c = pin_command(&"1.29.0".to_string(), &"cc".to_string(), &"1.0.41".to_string());
    assert_eq!(
        c.args,
        strings(&["+1.29.0", "update", "-p", "cc", "--precise", "1.0.41"])
    );
}

#[test]
fn fuzz_command_environment() {
    let c = fuzz_command(&"nightly".to_string(), &"fz".to_string(), 100000, &None);
    assert_eq!(c.args, strings(&["+nightly", "hfuzz", "run", "fz"]));
    assert_eq!(c.env.len(), 2);
    assert_eq!(c.env[0].0, "HFUZZ_BUILD_ARGS");
    assert_eq!(c.env[0].1, "--features honggfuzz_fuzz");
    assert_eq!(c.env[1].0, "HFUZZ_RUN_ARGS");
    assert_eq!(c.env[1].1, "--exit_upon_crash -v -N100000");
}

#[test]
fn old_toolchains_pin_dependencies() {
    let pins = deps_to_pin(&"1.29.0".to_string());
    assert_eq!(pins.len(), 5);
    assert_eq!(pins[0], ("byteorder".to_string(), "1.3.4".to_string()));
    assert_eq!(pins[4], ("serde_derive".to_string(), "1.0.98".to_string()));
    assert!(deps_to_pin(&"1.31.0".to_string()).is_empty());
    assert!(deps_to_pin(&"stable".to_string()).is_empty());
    assert!(!deps_to_pin(&"1.30.9".to_string()).is_empty());
}

#[test]
fn lexicographic_version_order() {
    assert!(str_lex_lt("1.29.0", "1.31.0"));
    assert!(!str_lex_lt("1.31.0", "1.31.0"));
    assert!(!str_lex_lt("stable", "1.31.0"));
    assert!(str_lex_lt("1.3", "1.31.0"));
}

#[test]
fn first_line_of_output() {
    assert_eq!(
        first_line("cargo 1.41.0 (626f0f40e 2019-12-03)\n"),
        Some("cargo 1.41.0 (626f0f40e 2019-12-03)".to_string())
    );
    assert_eq!(first_line("one\ntwo\n"), Some("one".to_string()));
    assert_eq!(first_line("bare"), Some("bare".to_string()));
    assert_eq!(first_line("crlf\r\nrest"), Some("crlf".to_string()));
    assert_eq!(first_line(""), None);
    assert_eq!(first_line("\nx"), Some("".to_string()));
}
