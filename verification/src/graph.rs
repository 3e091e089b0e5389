//! Commit graph walker.
//!
//! Commits are identified by opaque fixed-width content hashes; the engine
//! only ever compares them, so they appear here as plain 64-bit
//! identifiers chosen by the caller (one per distinct hash). The walker
//! sees the repository's ancestry as a finite map from commit to ordered
//! parent list and computes: the first-parent ancestor set of a base
//! branch (merges on the base side do not pull in side-branch commits);
//! the linear spine of a pull request down to the fork point; and the full
//! set of a pull request's own commits, walking all parents and stopping
//! at anything already ancestral.

use vstd::prelude::*;

use std::collections::HashMap;
use std::collections::HashSet;

verus! {

broadcast use vstd::std_specs::hash::group_hash_axioms;

/// A commit's parent list, keyed by commit identifier. The engine never
/// mutates existing commits; the graph is built once from the repository
/// and read afterwards.
pub struct CommitGraph {
    parents: HashMap<u64, Vec<u64>>,
}

impl CommitGraph {
    /// The ancestry this graph holds: each known commit's ordered parents.
    pub closed spec fn graph(self) -> Map<u64, Seq<u64>> {
        self.parents@.map_values(|v: Vec<u64>| v@)
    }

    /// The set of commits the graph knows is finite.
    pub proof fn lemma_dom_finite(self)
        ensures
            self.graph().dom().finite(),
    {
        assert(self.graph().dom() =~= self.parents@.dom());
    }

    /// An empty graph.
    pub fn new() -> (g: Self)
        ensures
            g.graph() == Map::<u64, Seq<u64>>::empty(),
    {
        let g = CommitGraph { parents: HashMap::new() };
        proof {
            assert(g.graph() =~= Map::<u64, Seq<u64>>::empty());
        }
        g
    }

    /// Record one commit's parent list (replacing any earlier record).
    pub fn add_commit(&mut self, id: u64, parents: Vec<u64>)
        ensures
            final(self).graph() == old(self).graph().insert(id, parents@),
    {
        self.parents.insert(id, parents);
        proof {
            assert(self.graph() =~= old(self).graph().insert(id, parents@));
        }
    }

    /// Whether the graph knows this commit.
    pub fn contains(&self, id: u64) -> (r: bool)
        ensures
            r == self.graph().dom().contains(id),
    {
        let r = self.parents.contains_key(&id);
        proof {
            assert(self.graph().dom() =~= self.parents@.dom());
        }
        r
    }

    /// The ordered parents of a commit, or `None` if the graph does not
    /// know it.
    pub fn parents_of(&self, id: u64) -> (r: Option<&Vec<u64>>)
        ensures
            match r {
                Some(ps) => self.graph().dom().contains(id) && ps@ == self.graph()[id],
                None => !self.graph().dom().contains(id),
            },
    {
        let r = self.parents.get(&id);
        proof {
            assert(self.graph().dom() =~= self.parents@.dom());
        }
        r
    }

    /// How many commits the graph knows.
    pub fn len(&self) -> (n: usize)
        ensures
            n == self.graph().dom().len(),
    {
        let n = self.parents.len();
        proof {
            assert(self.graph().dom() =~= self.parents@.dom());
        }
        n
    }
}

/// One step along the first parent: the first parent of `c`, or `None`
/// for a root commit or one the graph does not know.
pub open spec fn fp_step(g: Map<u64, Seq<u64>>, c: u64) -> Option<u64> {
    if g.dom().contains(c) && g[c].len() > 0 {
        Some(g[c][0])
    } else {
        None
    }
}

/// The commit `n` first-parent steps below `tip`, if the chain reaches
/// that far.
pub open spec fn fp_chain(g: Map<u64, Seq<u64>>, tip: u64, n: nat) -> Option<u64>
    decreases n,
{
    if n == 0 {
        Some(tip)
    } else {
        match fp_chain(g, tip, (n - 1) as nat) {
            Some(c) => fp_step(g, c),
            None => None,
        }
    }
}

/// Whether `c` lies on the first-parent spine below `tip`.
pub open spec fn fp_reachable(g: Map<u64, Seq<u64>>, tip: u64, c: u64) -> bool {
    exists|n: nat| fp_chain(g, tip, n) == Some(c)
}

/// Taking one first-parent step from a commit on the spine stays on the
/// spine.
pub proof fn lemma_reachable_step(g: Map<u64, Seq<u64>>, tip: u64, c: u64, d: u64)
    requires
        fp_reachable(g, tip, c),
        fp_step(g, c) == Some(d),
    ensures
        fp_reachable(g, tip, d),
{
    let n = choose|n: nat| fp_chain(g, tip, n) == Some(c);
    assert(fp_chain(g, tip, n + 1) == Some(d));
}

/// A set that holds the tip and is closed under first-parent steps holds
/// the whole spine.
pub proof fn lemma_closed_contains_chain(g: Map<u64, Seq<u64>>, s: Set<u64>, tip: u64, n: nat)
    requires
        s.contains(tip),
        forall|c: u64|
            s.contains(c) && (#[trigger] fp_step(g, c)) is Some ==> s.contains(
                fp_step(g, c).unwrap(),
            ),
        fp_chain(g, tip, n) is Some,
    ensures
        s.contains(fp_chain(g, tip, n).unwrap()),
    decreases n,
{
    if n > 0 {
        lemma_closed_contains_chain(g, s, tip, (n - 1) as nat);
    }
}

/// The first-parent ancestor set of a branch: every commit on the
/// first-parent spine from `tip` down to a root, and nothing else. This
/// is what "already part of base" means; following only first parents
/// keeps merges on the base side from pulling in side-branch history.
pub fn ancestor_set(graph: &CommitGraph, tip: u64) -> (s: HashSet<u64>)
    ensures
        forall|c: u64| #[trigger] s@.contains(c) <==> fp_reachable(graph.graph(), tip, c),
{
    let ghost g = graph.graph();
    proof {
        graph.lemma_dom_finite();
        assert(fp_chain(g, tip, 0) == Some(tip));
    }
    let mut s: HashSet<u64> = HashSet::new();
    let mut cur: u64 = tip;
    loop
        invariant_except_break
            s@.finite(),
            s@.subset_of(g.dom().insert(tip)),
        invariant
            graph.graph() == g,
            g.dom().finite(),
            fp_reachable(g, tip, cur),
            forall|c: u64| #[trigger] s@.contains(c) ==> fp_reachable(g, tip, c),
            forall|c: u64|
                s@.contains(c) && (#[trigger] fp_step(g, c)) is Some ==> s@.contains(
                    fp_step(g, c).unwrap(),
                ) || fp_step(g, c).unwrap() == cur,
            s@.contains(tip) || (s@.len() == 0 && cur == tip),
        ensures
            forall|c: u64| #[trigger] s@.contains(c) ==> fp_reachable(g, tip, c),
            s@.contains(tip),
            forall|c: u64|
                s@.contains(c) && (#[trigger] fp_step(g, c)) is Some ==> s@.contains(
                    fp_step(g, c).unwrap(),
                ),
        decreases g.dom().len() + 1 - s@.len(),
    {
        if s.contains(&cur) {
            break ;
        }
        let ghost s_old = s@;
        s.insert(cur);
        match graph.parents_of(cur) {
            Some(ps) => {
                if ps.len() > 0 {
                    let next = ps[0];
                    proof {
                        broadcast use vstd::set::axiom_set_insert_len;

                        assert(g.dom().contains(cur));
                        assert(s@ =~= s_old.insert(cur));
                        assert(s@.len() == s_old.len() + 1);
                        vstd::set_lib::lemma_len_subset(s@, g.dom().insert(tip));
                        assert(g.dom().insert(tip).len() <= g.dom().len() + 1) by {
                            if g.dom().contains(tip) {
                                assert(g.dom().insert(tip) =~= g.dom());
                            }
                        }
                        assert(fp_step(g, cur) == Some(next));
                        lemma_reachable_step(g, tip, cur, next);
                    }
                    cur = next;
                } else {
                    proof {
                        assert(fp_step(g, cur) is None);
                    }
                    break ;
                }
            },
            None => {
                proof {
                    assert(fp_step(g, cur) is None);
                }
                break ;
            },
        }
    }
    proof {
        assert forall|c: u64| fp_reachable(g, tip, c) implies s@.contains(c) by {
            let n = choose|n: nat| fp_chain(g, tip, n) == Some(c);
            lemma_closed_contains_chain(g, s@, tip, n);
        }
    }
    s
}

/// Whether a commit is recorded as a merge: the graph knows it and gives
/// it more than one parent.
pub open spec fn is_merge(g: Map<u64, Seq<u64>>, c: u64) -> bool {
    g.dom().contains(c) && g[c].len() > 1
}

/// Walk the pull request's linear spine: follow first parents from the
/// pull-request tip and collect, in child-to-parent discovery order, every
/// commit met before the walk reaches one that is already ancestral (or a
/// root, or a commit the graph does not know, or — on a malformed cyclic
/// ancestry — one already collected). Returns the collected spine,
/// whether any commit on it is a merge, and whether the pull request
/// needs a rebase — it does not exactly when the walk stopped on the base
/// tip itself. The walk is complete: where the chain goes on past the
/// collected spine, it is because the next commit is ancestral or
/// already collected.
pub fn pending_commits(
    graph: &CommitGraph,
    pr_tip: u64,
    ancestors: &HashSet<u64>,
    base_tip: u64,
) -> (r: (Vec<u64>, bool, bool))
    ensures
        forall|i: int|
            0 <= i < r.0@.len() ==> fp_chain(graph.graph(), pr_tip, i as nat) == Some(r.0@[i])
                && !ancestors@.contains(r.0@[i]),
        r.1 <==> exists|i: int| 0 <= i < r.0@.len() && is_merge(graph.graph(), #[trigger] r.0@[i]),
        r.2 == !(fp_chain(graph.graph(), pr_tip, r.0@.len() as nat) == Some(base_tip)
            && ancestors@.contains(base_tip)),
        (fp_chain(graph.graph(), pr_tip, r.0@.len() as nat) matches Some(c) ==> ancestors@.contains(
            c,
        ) || r.0@.contains(c)),
        ancestors@.contains(pr_tip) ==> r.0@.len() == 0,
{
    let ghost g = graph.graph();
    proof {
        graph.lemma_dom_finite();
        assert(fp_chain(g, pr_tip, 0) == Some(pr_tip));
    }
    let mut pending: Vec<u64> = Vec::new();
    let mut seen: HashSet<u64> = HashSet::new();
    let mut has_merges: bool = false;
    let mut needs_rebase: bool = true;
    let mut cur: u64 = pr_tip;
    loop
        invariant_except_break
            seen@.finite(),
            seen@.subset_of(g.dom().insert(pr_tip)),
            fp_chain(g, pr_tip, pending@.len() as nat) == Some(cur),
            needs_rebase,
        invariant
            graph.graph() == g,
            g.dom().finite(),
            forall|i: int|
                0 <= i < pending@.len() ==> fp_chain(g, pr_tip, i as nat) == Some(pending@[i])
                    && !ancestors@.contains(pending@[i]),
            forall|c: u64| #[trigger] seen@.contains(c) <==> pending@.contains(c),
            has_merges <==> exists|i: int|
                0 <= i < pending@.len() && is_merge(g, #[trigger] pending@[i]),
        ensures
            forall|i: int|
                0 <= i < pending@.len() ==> fp_chain(g, pr_tip, i as nat) == Some(pending@[i])
                    && !ancestors@.contains(pending@[i]),
            has_merges <==> exists|i: int|
                0 <= i < pending@.len() && is_merge(g, #[trigger] pending@[i]),
            needs_rebase == !(fp_chain(g, pr_tip, pending@.len() as nat) == Some(base_tip)
                && ancestors@.contains(base_tip)),
            (fp_chain(g, pr_tip, pending@.len() as nat) matches Some(c) ==> ancestors@.contains(c)
                || pending@.contains(c)),
        decreases g.dom().len() + 1 - seen@.len(),
    {
        if ancestors.contains(&cur) {
            if cur == base_tip {
                needs_rebase = false;
            }
            break ;
        }
        if seen.contains(&cur) {
            // ancestry is a finite graph handed in by the caller; a
            // repeated commit would loop forever, so the walk ends there
            break ;
        }
        let ghost seen_old = seen@;
        let ghost pending_old = pending@;
        seen.insert(cur);
        pending.push(cur);
        proof {
            broadcast use vstd::set::axiom_set_insert_len;

            assert(seen@ =~= seen_old.insert(cur));
            assert forall|c: u64| #[trigger] seen@.contains(c) implies pending@.contains(c) by {
                if c == cur {
                    assert(pending@[pending@.len() - 1] == cur);
                } else {
                    assert(pending_old.contains(c));
                    let j = choose|j: int| 0 <= j < pending_old.len() && pending_old[j] == c;
                    assert(pending@[j] == c);
                }
            }
            assert forall|c: u64| pending@.contains(c) implies seen@.contains(c) by {
                let j = choose|j: int| 0 <= j < pending@.len() && pending@[j] == c;
                if j < pending_old.len() {
                    assert(pending_old[j] == c);
                    assert(pending_old.contains(c));
                }
            }
        }
        proof {
            assert forall|i: int|
                0 <= i < pending@.len() implies fp_chain(g, pr_tip, i as nat) == Some(
                pending@[i],
            ) && !ancestors@.contains(pending@[i]) by {
                if i < pending_old.len() {
                    assert(pending@[i] == pending_old[i]);
                } else {
                    assert(pending@[i] == cur);
                }
            }
        }
        let merge_here: bool = match graph.parents_of(cur) {
            Some(ps) => ps.len() > 1,
            None => false,
        };
        proof {
            assert(merge_here == is_merge(g, cur));
            if merge_here {
                assert(is_merge(g, pending@[pending@.len() - 1]));
            }
            if has_merges {
                let i = choose|i: int|
                    0 <= i < pending_old.len() && is_merge(g, #[trigger] pending_old[i]);
                assert(is_merge(g, pending@[i]));
            }
        }
        has_merges = has_merges || merge_here;
        proof {
            if !has_merges {
                assert forall|i: int|
                    0 <= i < pending@.len() implies !is_merge(g, #[trigger] pending@[i]) by {
                    if i < pending_old.len() {
                        assert(pending_old[i] == pending@[i]);
                    } else {
                        assert(pending@[i] == cur);
                    }
                }
            }
        }
        match graph.parents_of(cur) {
            Some(ps) => {
                if ps.len() > 0 {
                    let next = ps[0];
                    proof {
                        assert(g.dom().contains(cur));
                        assert(seen@.len() == seen_old.len() + 1);
                        vstd::set_lib::lemma_len_subset(seen@, g.dom().insert(pr_tip));
                        assert(g.dom().insert(pr_tip).len() <= g.dom().len() + 1) by {
                            if g.dom().contains(pr_tip) {
                                assert(g.dom().insert(pr_tip) =~= g.dom());
                            }
                        }
                        assert(fp_step(g, cur) == Some(next));
                        assert(fp_chain(g, pr_tip, pending@.len() as nat) == Some(next));
                    }
                    cur = next;
                } else {
                    proof {
                        assert(fp_step(g, cur) is None);
                        assert(fp_chain(g, pr_tip, pending@.len() as nat) is None);
                    }
                    break ;
                }
            },
            None => {
                proof {
                    assert(fp_step(g, cur) is None);
                    assert(fp_chain(g, pr_tip, pending@.len() as nat) is None);
                }
                break ;
            },
        }
    }
    proof {
        if ancestors@.contains(pr_tip) && pending@.len() > 0 {
            assert(fp_chain(g, pr_tip, 0) == Some(pending@[0]));
            assert(!ancestors@.contains(pending@[0]));
        }
    }
    (pending, has_merges, needs_rebase)
}

/// Whether every non-ancestral parent edge of the graph stays inside the
/// graph: the caller builds the graph by walking the repository, so every
/// parent it reports that is not already ancestral is itself recorded.
pub open spec fn parent_closed(g: Map<u64, Seq<u64>>, master: Set<u64>) -> bool {
    forall|d: u64, k: int|
        g.dom().contains(d) && 0 <= k < g[d].len() && !master.contains(#[trigger] g[d][k])
            ==> g.dom().contains(g[d][k])
}

/// Whether every entry of `order` past the first avoids `master` and is a
/// parent of an earlier entry: each commit was discovered from one
/// already listed.
pub open spec fn discovery_sound(g: Map<u64, Seq<u64>>, master: Set<u64>, order: Seq<u64>) -> bool {
    forall|i: int|
        0 < i < order.len() ==> !master.contains(#[trigger] order[i]) && exists|j: int, k: int|
            0 <= j < i && g.dom().contains(order[j]) && 0 <= k < g[order[j]].len()
                && g[order[j]][k] == order[i]
}

/// Whether a sequence holds no entry twice.
pub open spec fn distinct_seq(order: Seq<u64>) -> bool {
    forall|i: int, j: int| 0 <= i < j < order.len() ==> order[i] != order[j]
}

proof fn lemma_push_keeps_discovery(
    g: Map<u64, Seq<u64>>,
    master: Set<u64>,
    order_old: Seq<u64>,
    order_new: Seq<u64>,
    p: u64,
    qi: int,
    k: int,
)
    requires
        order_new == order_old.push(p),
        0 <= qi < order_old.len(),
        g.dom().contains(order_old[qi]),
        0 <= k < g[order_old[qi]].len(),
        g[order_old[qi]][k] == p,
        !master.contains(p),
        discovery_sound(g, master, order_old),
    ensures
        discovery_sound(g, master, order_new),
{
    assert forall|i: int|
        0 < i < order_new.len() implies !master.contains(#[trigger] order_new[i]) && exists|
        j: int,
        k2: int,
    |
        0 <= j < i && g.dom().contains(order_new[j]) && 0 <= k2 < g[order_new[j]].len()
            && g[order_new[j]][k2] == order_new[i] by {
        if i < order_old.len() {
            assert(order_new[i] == order_old[i]);
            let (j, k2) = choose|j: int, k2: int|
                0 <= j < i && g.dom().contains(order_old[j]) && 0 <= k2 < g[order_old[j]].len()
                    && g[order_old[j]][k2] == order_old[i];
            assert(order_new[j] == order_old[j]);
            assert(g[order_new[j]][k2] == order_new[i]);
        } else {
            assert(order_new[i] == p);
            assert(order_new[qi] == order_old[qi]);
            assert(g[order_new[qi]][k] == order_new[i]);
        }
    }
}

proof fn lemma_push_keeps_membership(
    seen_old: Set<u64>,
    seen_new: Set<u64>,
    order_old: Seq<u64>,
    order_new: Seq<u64>,
    p: u64,
)
    requires
        seen_new == seen_old.insert(p),
        order_new == order_old.push(p),
        !seen_old.contains(p),
        forall|c: u64| #[trigger] seen_old.contains(c) <==> order_old.contains(c),
        distinct_seq(order_old),
    ensures
        forall|c: u64| #[trigger] seen_new.contains(c) <==> order_new.contains(c),
        distinct_seq(order_new),
{
    assert forall|c: u64| #[trigger] seen_new.contains(c) implies order_new.contains(c) by {
        if c == p {
            assert(order_new[order_new.len() - 1] == p);
        } else {
            let j = choose|j: int| 0 <= j < order_old.len() && order_old[j] == c;
            assert(order_new[j] == c);
        }
    }
    assert forall|c: u64| order_new.contains(c) implies seen_new.contains(c) by {
        let j = choose|j: int| 0 <= j < order_new.len() && order_new[j] == c;
        if j < order_old.len() {
            assert(order_old.contains(order_old[j]));
        }
    }
    assert forall|i: int, j: int| 0 <= i < j < order_new.len() implies order_new[i]
        != order_new[j] by {
        if j == order_new.len() - 1 {
            assert(order_new[j] == p);
            assert(order_old.contains(order_old[i]));
        }
    }
}

/// The walker's running state while collecting a pull request's commits:
/// `order` is the discovery order (the tip first, no duplicates), `seen`
/// mirrors it as a set, everything after the tip was discovered as a
/// non-ancestral parent of an earlier entry, and every entry before
/// position `qi` has had all its non-ancestral parents recorded.
pub open spec fn bfs_inv(
    g: Map<u64, Seq<u64>>,
    master: Set<u64>,
    order: Seq<u64>,
    seen: Set<u64>,
    qi: int,
) -> bool {
    &&& order.len() >= 1
    &&& seen.finite()
    &&& seen.len() == order.len()
    &&& seen.subset_of(g.dom().insert(order[0]))
    &&& forall|c: u64| #[trigger] seen.contains(c) <==> order.contains(c)
    &&& distinct_seq(order)
    &&& discovery_sound(g, master, order)
    &&& forall|i: int, k: int|
        0 <= i < qi && g.dom().contains(order[i]) && 0 <= k < g[order[i]].len()
            && !master.contains(#[trigger] g[order[i]][k]) ==> seen.contains(g[order[i]][k])
}

fn bfs_process(
    graph: &CommitGraph,
    master_commits: &HashSet<u64>,
    order: &mut Vec<u64>,
    seen: &mut HashSet<u64>,
    qi: usize,
)
    requires
        parent_closed(graph.graph(), master_commits@),
        bfs_inv(graph.graph(), master_commits@, old(order)@, old(seen)@, qi as int),
        qi < old(order)@.len(),
    ensures
        final(order)@.len() >= old(order)@.len(),
        final(order)@.subrange(0, old(order)@.len() as int) == old(order)@,
        bfs_inv(graph.graph(), master_commits@, final(order)@, final(seen)@, qi as int + 1),
{
    let ghost g = graph.graph();
    let c = order[qi];
    match graph.parents_of(c) {
        Some(ps) => {
            let ghost order0 = order@;
            let mut k: usize = 0;
            while k < ps.len()
                invariant
                    graph.graph() == g,
                    parent_closed(g, master_commits@),
                    bfs_inv(g, master_commits@, order@, seen@, qi as int),
                    0 <= qi < order@.len(),
                    order@.len() >= order0.len(),
                    order@.subrange(0, order0.len() as int) == order0,
                    qi < order0.len(),
                    c == order@[qi as int],
                    g.dom().contains(c),
                    ps@ == g[c],
                    0 <= k <= ps@.len(),
                    forall|k2: int|
                        0 <= k2 < k && !master_commits@.contains(#[trigger] ps@[k2])
                            ==> seen@.contains(ps@[k2]),
                decreases ps@.len() - k,
            {
                let p = ps[k];
                let ghost order_old = order@;
                let ghost seen_old = seen@;
                if !master_commits.contains(&p) && !seen.contains(&p) {
                    seen.insert(p);
                    order.push(p);
                    proof {
                        broadcast use vstd::set::axiom_set_insert_len;

                        assert(seen@ =~= seen_old.insert(p));
                        lemma_push_keeps_membership(seen_old, seen@, order_old, order@, p);
                        lemma_push_keeps_discovery(
                            g,
                            master_commits@,
                            order_old,
                            order@,
                            p,
                            qi as int,
                            k as int,
                        );
                        assert(g.dom().contains(p));
                        assert(order@[0] == order_old[0]);
                        assert(seen@.subset_of(g.dom().insert(order@[0])));
                        assert(order@.subrange(0, order0.len() as int) =~= order0);
                        assert forall|i: int, k2: int|
                            0 <= i < qi && g.dom().contains(order@[i]) && 0 <= k2
                                < g[order@[i]].len() && !master_commits@.contains(
                                #[trigger] g[order@[i]][k2],
                            ) implies seen@.contains(g[order@[i]][k2]) by {
                            assert(order@[i] == order_old[i]);
                            assert(seen_old.contains(g[order_old[i]][k2]));
                        }
                    }
                }
                k = k + 1;
            }
            proof {
                assert forall|i: int, k2: int|
                    0 <= i < qi as int + 1 && g.dom().contains(order@[i]) && 0 <= k2
                        < g[order@[i]].len() && !master_commits@.contains(
                        #[trigger] g[order@[i]][k2],
                    ) implies seen@.contains(g[order@[i]][k2]) by {
                    if i == qi as int {
                        assert(g[order@[i]] == ps@);
                    }
                }
            }
        },
        None => {},
    }
}

/// A pull-request branch: its number on the hosting service and the
/// commit identifier of its tip.
pub struct PullRequest {
    /// Number of the pull request on the hosting service.
    pub number: usize,
    /// Commit identifier of the tip of the branch.
    pub id: u64,
}

impl PullRequest {
    /// The commits of this pull request: the tip, then everything
    /// reachable from it through any parent, stopping at commits already
    /// in the base history. Returned in discovery order; a commit's
    /// position is its per-commit index and the length is the total
    /// count, used to report "commit i of n". The result holds no
    /// duplicates, starts at the tip, and is exactly closed: every
    /// non-ancestral parent of a listed commit is listed, and everything
    /// listed after the tip is a non-ancestral parent of an earlier
    /// entry.
    pub fn for_each_commit(&self, graph: &CommitGraph, master_commits: &HashSet<u64>) -> (r: Vec<
        u64,
    >)
        requires
            parent_closed(graph.graph(), master_commits@),
        ensures
            r@.len() >= 1,
            r@[0] == self.id,
            distinct_seq(r@),
            discovery_sound(graph.graph(), master_commits@, r@),
            forall|i: int, k: int|
                0 <= i < r@.len() && graph.graph().dom().contains(r@[i]) && 0 <= k
                    < graph.graph()[r@[i]].len() && !master_commits@.contains(
                    #[trigger] graph.graph()[r@[i]][k],
                ) ==> r@.contains(graph.graph()[r@[i]][k]),
    {
        let ghost g = graph.graph();
        proof {
            graph.lemma_dom_finite();
        }
        let mut order: Vec<u64> = Vec::new();
        let mut seen: HashSet<u64> = HashSet::new();
        order.push(self.id);
        seen.insert(self.id);
        let mut qi: usize = 0;
        proof {
            broadcast use vstd::set::axiom_set_insert_len;

            assert(seen@ =~= Set::<u64>::empty().insert(self.id));
            assert(order@[0] == self.id);
            assert(bfs_inv(g, master_commits@, order@, seen@, 0));
        }
        while qi < order.len()
            invariant
                graph.graph() == g,
                g.dom().finite(),
                parent_closed(g, master_commits@),
                0 <= qi <= order@.len(),
                order@[0] == self.id,
                bfs_inv(g, master_commits@, order@, seen@, qi as int),
            decreases g.dom().len() + 1 - qi,
        {
            proof {
                vstd::set_lib::lemma_len_subset(seen@, g.dom().insert(self.id));
                assert(g.dom().insert(self.id).len() <= g.dom().len() + 1) by {
                    if g.dom().contains(self.id) {
                        assert(g.dom().insert(self.id) =~= g.dom());
                    }
                }
            }
            let ghost order_before = order@;
            bfs_process(graph, master_commits, &mut order, &mut seen, qi);
            proof {
                assert(order@[0] == order_before[0]) by {
                    assert(order@.subrange(0, order_before.len() as int) == order_before);
                    assert(order@.subrange(0, order_before.len() as int)[0] == order@[0]);
                }
            }
            qi = qi + 1;
        }
        proof {
            assert forall|i: int, k: int|
                0 <= i < order@.len() && g.dom().contains(order@[i]) && 0 <= k
                    < g[order@[i]].len() && !master_commits@.contains(
                    #[trigger] g[order@[i]][k],
                ) implies order@.contains(g[order@[i]][k]) by {
                assert(seen@.contains(g[order@[i]][k]));
            }
        }
        order
    }
}

} // verus!
