use checkpr::cache::{merge_markers, parse_markers, serialize_markers, should_skip};
use checkpr::checks::{ConcreteJob, RustCheck, RustJob};
use checkpr::jobs::{
    aggregate_outcomes, collect_results, exit_failure_message, JobHandle, JobOutcome, TaskState,
};
use checkpr::plan::plan_jobs;

fn strings(v: &[&str]) -> Vec<String> {
    v.iter().map(|s| s.to_string()).collect()
}

#[test]
fn markers_round_trip() {
    let markers = strings(&["stable cargo build '--features='", "stable cargo test '--features='"]);
    let text = serialize_markers(&markers);
    assert_eq!(
        text,
        "stable cargo build '--features='\nstable cargo test '--features='"
    );
    assert_eq!(parse_markers(&text), markers);
    assert_eq!(parse_markers(""), strings(&[""]));
    assert_eq!(parse_markers("a\n"), strings(&["a", ""]));
}

#[test]
fn skip_is_exact_membership() {
    let loaded = strings(&["stable cargo build '--features='"]);
    assert!(should_skip(&"stable cargo build '--features='".to_string(), &loaded));
    assert!(!should_skip(&"stable cargo build '--features=a'".to_string(), &loaded));
    assert!(!should_skip(&"nightly cargo build '--features='".to_string(), &loaded));
}

#[test]
fn cache_idempotence() {
    // run the same check twice against the same unchanged commit: the
    // second run performs zero jobs and leaves the marker set unchanged
    let ck = RustCheck {
        features: strings(&["a"]),
        version: vec![],
        jobs: vec![RustJob::Build, RustJob::Test],
        only_tip: false,
        working_dir: None,
    };
    let manifest = checkpr::cargo::CargoToml { bin: vec![], example: vec![] };

    let no_markers: Vec<String> = vec![];
    let (first_run, first_skipped) = plan_jobs(ck.expand(&manifest), &no_markers);
    assert_eq!(first_run.len(), 6);
    assert!(first_skipped.is_empty());

    // every job succeeded: its descriptor becomes a marker
    let new_markers: Vec<String> = first_run.iter().map(|j| j.descriptor()).collect();
    let markers = merge_markers(&no_markers, &new_markers);
    assert_eq!(markers.len(), 6);

    let (second_run, second_skipped) = plan_jobs(ck.expand(&manifest), &markers);
    assert!(second_run.is_empty());
    assert_eq!(second_skipped.len(), 6);

    // nothing ran, so nothing is appended and the marker set is unchanged
    let unchanged = merge_markers(&markers, &vec![]);
    assert_eq!(unchanged, markers);
}

#[test]
fn partial_failure_is_isolated() {
    // three concrete jobs, one fails: the other two still report their
    // own outcomes, and the aggregate failure does not erase them
    let outcomes = vec![
        JobOutcome::Success { marker: "m1".to_string() },
        JobOutcome::Failure { diagnostic: "build exited with 1".to_string() },
        JobOutcome::Success { marker: "m3".to_string() },
    ];
    let agg = aggregate_outcomes(&outcomes);
    assert_eq!(agg, Err("build exited with 1".to_string()));
    assert_eq!(outcomes.len(), 3);
    assert!(matches!(&outcomes[0], JobOutcome::Success { marker } if marker == "m1"));
    assert!(matches!(&outcomes[2], JobOutcome::Success { marker } if marker == "m3"));

    let all_ok = vec![
        JobOutcome::Success { marker: "m1".to_string() },
        JobOutcome::Success { marker: "m2".to_string() },
    ];
    assert_eq!(
        aggregate_outcomes(&all_ok),
        Ok(strings(&["m1", "m2"]))
    );
    assert_eq!(aggregate_outcomes(&vec![]), Ok(vec![]));
}

#[test]
fn handles_report_each_task() {
    let mut a: JobHandle<u32> = JobHandle::spawn(1);
    let mut b: JobHandle<u32> = JobHandle::spawn(2);
    let mut c: JobHandle<u32> = JobHandle::spawn(3);
    a.start();
    b.start();
    c.start();
    a.complete_ok();
    b.complete_err("test exited with 101".to_string());
    c.complete_panicked();
    let results = collect_results(vec![a, b, c]);
    assert_eq!(results.len(), 3);
    assert_eq!(results[0], (1, Ok(())));
    assert_eq!(results[1], (2, Err("test exited with 101".to_string())));
    assert_eq!(results[2].0, 3);
    assert_eq!(results[2].1, Err("a build job panicked".to_string()));
}

#[test]
fn join_converts_panic_to_failure() {
    let mut h: JobHandle<&str> = JobHandle::spawn("task");
    h.start();
    h.complete_panicked();
    let (data, outcome) = h.join();
    assert_eq!(data, "task");
    assert_eq!(outcome, Err("a build job panicked".to_string()));
}

#[test]
fn task_states_are_reachable() {
    let mut h: JobHandle<()> = JobHandle::spawn(());
    h.start();
    h.complete_err("boom".to_string());
    let (_, outcome) = h.join();
    assert_eq!(outcome, Err("boom".to_string()));
    // the state enum names every stage of the task lifecycle
    let _ = TaskState::Pending;
    let _ = TaskState::Running;
    let _ = TaskState::Succeeded;
    let _ = TaskState::Panicked;
}

#[test]
fn exit_classification() {
    assert_eq!(exit_failure_message(Some(0)), None);
    assert_eq!(exit_failure_message(Some(101)), Some("exited with 101".to_string()));
    assert_eq!(
        exit_failure_message(None),
        Some("did not exit on its own".to_string())
    );
}
