use checkpr::cargo::CargoToml;
use checkpr::checks::{RustCheck, RustJob};
use checkpr::graph::{ancestor_set, pending_commits, CommitGraph, PullRequest};
use checkpr::jobs::{aggregate_outcomes, JobOutcome};
use checkpr::plan::{commits_for_check, final_commit_set, plan_jobs};
use checkpr::rebase::{cherry_pick_message, rebase_engaged, RebaseState};

#[test]
fn rebase_skips_noop_replays() {
    // three pending commits discovered child-to-parent: 23, 22, 21
    let pending = vec![23u64, 22, 21];
    let mut st = RebaseState::new(&pending, 3);
    // replay oldest first
    assert_eq!(st.next_commit(), Some(21));
    st.record_replay(41); // new commit
    assert_eq!(st.next_commit(), Some(22));
    st.record_replay(41); // head unchanged: the change was already present
    assert_eq!(st.next_commit(), Some(23));
    st.record_replay(43);
    assert!(st.done());
    assert_eq!(st.next_commit(), None);
    // at most as many new commits as were pending; the no-op is not added
    assert_eq!(st.into_produced(), vec![41, 43]);
}

#[test]
fn cherry_pick_messages_carry_provenance() {
    assert_eq!(
        cherry_pick_message("fix the bug", "d670460b"),
        "fix the bug\nCherry-picked from d670460b\n"
    );
}

#[test]
fn end_to_end_three_linear_commits() {
    // repository: base tip 3 (history 1 <- 2 <- 3), PR tip 23 three
    // linear commits ahead of 2; no merges
    let mut g = CommitGraph::new();
    g.add_commit(1, vec![]);
    g.add_commit(2, vec![1]);
    g.add_commit(3, vec![2]);
    g.add_commit(21, vec![2]);
    g.add_commit(22, vec![21]);
    g.add_commit(23, vec![22]);

    let anc = ancestor_set(&g, 3);
    let (pending, has_merges, needs_rebase) = pending_commits(&g, 23, &anc, 3);
    assert_eq!(pending, vec![23, 22, 21]);
    assert!(!has_merges);
    assert!(needs_rebase);
    assert!(rebase_engaged(&pending, has_merges));

    // the replay produces three new commits (none is a no-op here)
    let mut st = RebaseState::new(&pending, 3);
    let mut next_id = 41u64;
    while let Some(_orig) = st.next_commit() {
        st.record_replay(next_id);
        next_id += 1;
    }
    let rebased = st.into_produced();
    assert_eq!(rebased, vec![41, 42, 43]);

    // the original commits of the PR
    let pr = PullRequest { number: 0, id: 23 };
    let originals = pr.for_each_commit(&g, &anc);
    assert_eq!(originals.len(), 3);

    // final commit set: three originals plus three rebased
    let commits = final_commit_set(&originals, &rebased);
    assert_eq!(commits.len(), 6);

    // check {type: rust, jobs: [build, test]}: one build and one test job
    // (empty feature set) per commit — twelve concrete jobs in all
    let ck = RustCheck {
        features: vec![],
        version: vec![],
        jobs: vec![RustJob::Build, RustJob::Test],
        only_tip: false,
        working_dir: None,
    };
    let manifest = CargoToml { bin: vec![], example: vec![] };
    let mut total = 0;
    let mut outcomes: Vec<JobOutcome> = vec![];
    for commit in commits_for_check(&commits, 23, ck.only_tip) {
        let jobs = ck.expand(&manifest);
        assert_eq!(jobs.len(), 2);
        let (to_run, skipped) = plan_jobs(jobs, &vec![]);
        assert!(skipped.is_empty());
        for job in &to_run {
            // one rebased commit fails to build; everything else passes
            if commit == 42 && job.job == RustJob::Build {
                outcomes.push(JobOutcome::Failure {
                    diagnostic: "cargo build: exited with 101".to_string(),
                });
            } else {
                outcomes.push(JobOutcome::Success { marker: job.descriptor() });
            }
        }
        total += to_run.len();
    }
    assert_eq!(total, 12);

    // the overall result is a failure, but every other job still reports
    let agg = aggregate_outcomes(&outcomes);
    assert_eq!(agg, Err("cargo build: exited with 101".to_string()));
    let successes = outcomes
        .iter()
        .filter(|o| matches!(o, JobOutcome::Success { .. }))
        .count();
    assert_eq!(successes, 11);
}

#[test]
fn only_tip_restricts_to_the_tip() {
    let commits = vec![5u64, 6, 7];
    assert_eq!(commits_for_check(&commits, 7, true), vec![7]);
    assert_eq!(commits_for_check(&commits, 7, false), commits);
}

#[test]
fn final_set_deduplicates() {
    let set = final_commit_set(&vec![1, 2, 3], &vec![3, 4]);
    assert_eq!(set, vec![1, 2, 3, 4]);
}
