use checkpr::cargo::{CargoToml, Example};
use checkpr::checks::{feature_matrix, Check, ConcreteJob, RustCheck, RustJob};

fn strings(v: &[&str]) -> Vec<String> {
    v.iter().map(|s| s.to_string()).collect()
}

fn manifest(bins: &[&str], examples: &[&str]) -> CargoToml {
    CargoToml {
        bin: bins.iter().map(|n| Example { name: n.to_string() }).collect(),
        example: examples.iter().map(|n| Example { name: n.to_string() }).collect(),
    }
}

fn exts(jobs: &[ConcreteJob]) -> Vec<Vec<String>> {
    jobs.iter().map(|j| j.ext.clone()).collect()
}

#[test]
fn feature_matrix_is_linear() {
    let m = feature_matrix(&strings(&[]));
    assert_eq!(m, vec![Vec::<String>::new()]);

    // two declared features give four combinations: none, both, each alone
    let m = feature_matrix(&strings(&["a", "b"]));
    assert_eq!(
        m,
        vec![
            strings(&[]),
            strings(&["a", "b"]),
            strings(&["a"]),
            strings(&["b"]),
        ]
    );

    let m = feature_matrix(&strings(&["a", "b", "c"]));
    assert_eq!(m.len(), 5);
}

#[test]
fn expand_build_over_features() {
    // features ["a","b"], jobs: build — four build jobs per version
    let ck = RustCheck {
        features: strings(&["a", "b"]),
        version: vec![],
        jobs: vec![RustJob::Build],
        only_tip: false,
        working_dir: None,
    };
    let jobs = ck.expand(&manifest(&[], &[]));
    assert_eq!(jobs.len(), 4);
    for j in &jobs {
        assert_eq!(j.version, "stable");
        assert_eq!(j.job, RustJob::Build);
    }
    assert_eq!(
        exts(&jobs),
        vec![
            strings(&[]),
            strings(&["a", "b"]),
            strings(&["a"]),
            strings(&["b"]),
        ]
    );
}

#[test]
fn expand_versions_targets_and_fuzz() {
    let ck = RustCheck {
        features: vec![],
        version: strings(&["stable", "nightly"]),
        jobs: vec![RustJob::Test, RustJob::Examples, RustJob::Fuzz { iters: 5 }],
        only_tip: false,
        working_dir: None,
    };
    let jobs = ck.expand(&manifest(&["fz1"], &["ex1", "ex2"]));
    // per version: 1 test (empty feature set) + 2 examples + 1 fuzz
    assert_eq!(jobs.len(), 8);
    assert_eq!(jobs[0].version, "stable");
    assert_eq!(jobs[0].job, RustJob::Test);
    assert_eq!(jobs[1].ext, strings(&["ex1"]));
    assert_eq!(jobs[2].ext, strings(&["ex2"]));
    assert_eq!(jobs[3].job, RustJob::Fuzz { iters: 5 });
    assert_eq!(jobs[3].ext, strings(&["fz1"]));
    assert_eq!(jobs[4].version, "nightly");
}

#[test]
fn descriptors_are_canonical() {
    let j = ConcreteJob {
        version: "stable".to_string(),
        job: RustJob::Build,
        ext: strings(&["a", "b"]),
    };
    assert_eq!(j.descriptor(), "stable cargo build '--features=a b'");

    let j = ConcreteJob {
        version: "1.41.0".to_string(),
        job: RustJob::Test,
        ext: strings(&[]),
    };
    assert_eq!(j.descriptor(), "1.41.0 cargo test '--features='");

    let j = ConcreteJob {
        version: "stable".to_string(),
        job: RustJob::Examples,
        ext: strings(&["demo"]),
    };
    assert_eq!(j.descriptor(), "stable cargo run '--example demo'");

    let j = ConcreteJob {
        version: "nightly".to_string(),
        job: RustJob::Fuzz { iters: 100000 },
        ext: strings(&["fz"]),
    };
    assert_eq!(j.descriptor(), "nightly cargo hfuzz run fz # iters 100000");
}

#[test]
fn check_describe_and_accessors() {
    let ck = Check::Rust(RustCheck {
        features: strings(&["a"]),
        version: vec![],
        jobs: vec![RustJob::Build, RustJob::Test],
        only_tip: true,
        working_dir: Some("sub".to_string()),
    });
    assert_eq!(ck.describe(), "{ rust features=[a] jobs=[build test] }");
    assert!(ck.only_tip());
    assert_eq!(ck.working_dir().as_deref(), Some("sub"));
}
