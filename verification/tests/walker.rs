use checkpr::graph::{ancestor_set, pending_commits, CommitGraph, PullRequest};
use checkpr::rebase::rebase_engaged;

/// base history: 1 <- 2 <- 3 (tip 3); a merge 4 on base with side parent 10
/// does not pull 10 in, because only first parents are followed.
fn base_graph() -> CommitGraph {
    let mut g = CommitGraph::new();
    g.add_commit(1, vec![]);
    g.add_commit(2, vec![1]);
    g.add_commit(3, vec![2]);
    g.add_commit(10, vec![1]);
    g.add_commit(4, vec![3, 10]);
    g
}

#[test]
fn first_parent_ancestors() {
    let g = base_graph();
    let anc = ancestor_set(&g, 4);
    // the first-parent spine from 4: 4, 3, 2, 1 — and 10 is not in it
    assert!(anc.contains(&4));
    assert!(anc.contains(&3));
    assert!(anc.contains(&2));
    assert!(anc.contains(&1));
    assert!(!anc.contains(&10));
    assert_eq!(anc.len(), 4);
}

#[test]
fn pending_of_diverged_pr() {
    // PR: 20 <- 21 (tip 21), forked from 2
    let mut g = base_graph();
    g.add_commit(20, vec![2]);
    g.add_commit(21, vec![20]);
    let anc = ancestor_set(&g, 3);
    let (pending, has_merges, needs_rebase) = pending_commits(&g, 21, &anc, 3);
    assert_eq!(pending, vec![21, 20]);
    assert!(!has_merges);
    assert!(needs_rebase);
    assert!(rebase_engaged(&pending, has_merges));
}

#[test]
fn pending_of_ancestral_tip_is_empty() {
    // a PR tip that is already an ancestor of base: nothing pending,
    // rebase reconstruction is skipped
    let g = base_graph();
    let anc = ancestor_set(&g, 3);
    let (pending, has_merges, needs_rebase) = pending_commits(&g, 2, &anc, 3);
    assert!(pending.is_empty());
    assert!(!has_merges);
    assert!(needs_rebase); // stopped on an ancestor that is not the base tip
    assert!(!rebase_engaged(&pending, has_merges));

    let (pending, _, needs_rebase) = pending_commits(&g, 3, &anc, 3);
    assert!(pending.is_empty());
    assert!(!needs_rebase); // the tip is the base tip itself
}

#[test]
fn merge_in_pr_is_flagged() {
    // PR with a merge commit on its spine: 30 merges 20 and 10
    let mut g = base_graph();
    g.add_commit(20, vec![2]);
    g.add_commit(30, vec![20, 10]);
    let anc = ancestor_set(&g, 3);
    let (pending, has_merges, _) = pending_commits(&g, 30, &anc, 3);
    assert_eq!(pending, vec![30, 20]);
    assert!(has_merges);
    assert!(!rebase_engaged(&pending, has_merges));
}

#[test]
fn for_each_commit_walks_all_parents() {
    // PR tip 31 with a merge below it: both sides are discovered, the
    // ancestral parents are not
    let mut g = base_graph();
    g.add_commit(20, vec![2]);
    g.add_commit(22, vec![2]);
    g.add_commit(30, vec![20, 22]);
    g.add_commit(31, vec![30]);
    let anc = ancestor_set(&g, 3);
    let pr = PullRequest { number: 7, id: 31 };
    let commits = pr.for_each_commit(&g, &anc);
    assert_eq!(commits[0], 31);
    assert_eq!(commits.len(), 4);
    assert!(commits.contains(&30));
    assert!(commits.contains(&20));
    assert!(commits.contains(&22));
    assert!(!commits.contains(&2));
}

#[test]
fn for_each_commit_includes_ancestral_tip() {
    // the tip itself is always listed, even when it is ancestral
    let g = base_graph();
    let anc = ancestor_set(&g, 3);
    let pr = PullRequest { number: 1, id: 2 };
    let commits = pr.for_each_commit(&g, &anc);
    assert_eq!(commits, vec![2]);
}
