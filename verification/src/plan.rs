//! Task planning: which commits each check runs on, which concrete jobs
//! may be skipped because a cache marker already proves them, and the
//! final set of commits to verify.

use vstd::prelude::*;

use std::collections::HashSet;

use crate::cache::{marker_present, views_of};
use crate::checks::{job_model, models_of, spec_descriptor, ConcreteJob, RustJob};
use crate::graph::distinct_seq;

verus! {

broadcast use vstd::std_specs::hash::group_hash_axioms;

/// The canonical descriptor of one concrete job, at the level of its
/// mathematical content.
pub open spec fn descriptor_of(j: ConcreteJob) -> Seq<char> {
    spec_descriptor(j.version@, j.job, views_of(j.ext@))
}

/// A job's extension is populated as its kind needs: example and fuzz
/// jobs carry their one target name.
pub open spec fn job_ext_ok(j: ConcreteJob) -> bool {
    (j.job is Examples || j.job is Fuzz) ==> j.ext@.len() >= 1
}

/// The jobs from position `i` on whose descriptors are not yet in the
/// marker list: the work that still has to run.
pub open spec fn run_models_from(jobs: Seq<ConcreteJob>, markers: Seq<String>, i: int) -> Seq<
    (Seq<char>, RustJob, Seq<Seq<char>>),
>
    decreases jobs.len() - i,
{
    if i < 0 || i >= jobs.len() {
        Seq::empty()
    } else if marker_present(descriptor_of(jobs[i]), markers) {
        run_models_from(jobs, markers, i + 1)
    } else {
        seq![job_model(jobs[i])] + run_models_from(jobs, markers, i + 1)
    }
}

/// The jobs from position `i` on whose descriptors are already proven by
/// a marker: the work that may be skipped.
pub open spec fn skip_models_from(jobs: Seq<ConcreteJob>, markers: Seq<String>, i: int) -> Seq<
    (Seq<char>, RustJob, Seq<Seq<char>>),
>
    decreases jobs.len() - i,
{
    if i < 0 || i >= jobs.len() {
        Seq::empty()
    } else if marker_present(descriptor_of(jobs[i]), markers) {
        seq![job_model(jobs[i])] + skip_models_from(jobs, markers, i + 1)
    } else {
        skip_models_from(jobs, markers, i + 1)
    }
}

/// Partition a commit's concrete jobs against its loaded cache markers:
/// a job whose canonical descriptor already stands in the marker list is
/// skipped (its success is already proven); every other job is run. Order
/// is kept on both sides.
pub fn plan_jobs(jobs: Vec<ConcreteJob>, markers: &Vec<String>) -> (r: (
    Vec<ConcreteJob>,
    Vec<ConcreteJob>,
))
    requires
        forall|i: int| 0 <= i < jobs@.len() ==> job_ext_ok(#[trigger] jobs@[i]),
    ensures
        models_of(r.0@) == run_models_from(jobs@, markers@, 0),
        models_of(r.1@) == skip_models_from(jobs@, markers@, 0),
{
    let ghost all = jobs@;
    let n0: usize = jobs.len();
    let mut jobs = jobs;
    let mut to_run: Vec<ConcreteJob> = Vec::new();
    let mut skipped: Vec<ConcreteJob> = Vec::new();
    let mut i: usize = 0;
    proof {
        assert(models_of(to_run@) + run_models_from(all, markers@, 0) =~~= run_models_from(
            all,
            markers@,
            0,
        ));
        assert(models_of(skipped@) + skip_models_from(all, markers@, 0) =~~= skip_models_from(
            all,
            markers@,
            0,
        ));
    }
    while jobs.len() > 0
        invariant
            all.len() == n0,
            0 <= i <= all.len(),
            i + jobs@.len() == all.len(),
            jobs@ == all.subrange(i as int, all.len() as int),
            forall|k: int| 0 <= k < all.len() ==> job_ext_ok(#[trigger] all[k]),
            models_of(to_run@) + run_models_from(all, markers@, i as int) == run_models_from(
                all,
                markers@,
                0,
            ),
            models_of(skipped@) + skip_models_from(all, markers@, i as int) == skip_models_from(
                all,
                markers@,
                0,
            ),
        decreases jobs@.len(),
    {
        let j = jobs.remove(0);
        proof {
            assert(j == all[i as int]);
            assert(jobs@ =~= all.subrange(i as int + 1, all.len() as int));
            assert(i < all.len());
        }
        let d = j.descriptor();
        let ghost run_before = models_of(to_run@);
        let ghost skip_before = models_of(skipped@);
        if crate::cache::should_skip(&d, markers) {
            skipped.push(j);
            proof {
                assert(models_of(skipped@) =~~= skip_before.push(job_model(all[i as int])));
                assert(skip_before + (seq![job_model(all[i as int])] + skip_models_from(
                    all,
                    markers@,
                    i as int + 1,
                )) =~~= models_of(skipped@) + skip_models_from(all, markers@, i as int + 1));
            }
        } else {
            to_run.push(j);
            proof {
                assert(models_of(to_run@) =~~= run_before.push(job_model(all[i as int])));
                assert(run_before + (seq![job_model(all[i as int])] + run_models_from(
                    all,
                    markers@,
                    i as int + 1,
                )) =~~= models_of(to_run@) + run_models_from(all, markers@, i as int + 1));
            }
        }
        i = i + 1;
    }
    proof {
        assert(run_models_from(all, markers@, all.len() as int) =~~= Seq::<
            (Seq<char>, RustJob, Seq<Seq<char>>),
        >::empty());
        assert(models_of(to_run@) + Seq::<(Seq<char>, RustJob, Seq<Seq<char>>)>::empty()
            =~~= models_of(to_run@));
        assert(skip_models_from(all, markers@, all.len() as int) =~~= Seq::<
            (Seq<char>, RustJob, Seq<Seq<char>>),
        >::empty());
        assert(models_of(skipped@) + Seq::<(Seq<char>, RustJob, Seq<Seq<char>>)>::empty()
            =~~= models_of(skipped@));
    }
    (to_run, skipped)
}

/// Cache idempotence: when every job's descriptor already stands in the
/// marker list — as after a run of the same check against the same
/// unchanged commit — nothing is left to run, so the second run performs
/// zero jobs and adds no new marker.
pub proof fn lemma_cache_idempotent(jobs: Seq<ConcreteJob>, markers: Seq<String>)
    requires
        forall|i: int|
            0 <= i < jobs.len() ==> marker_present(descriptor_of(#[trigger] jobs[i]), markers),
    ensures
        run_models_from(jobs, markers, 0) == Seq::<(Seq<char>, RustJob, Seq<Seq<char>>)>::empty(),
{
    lemma_all_present_runs_nothing(jobs, markers, 0);
}

proof fn lemma_all_present_runs_nothing(jobs: Seq<ConcreteJob>, markers: Seq<String>, i: int)
    requires
        forall|k: int|
            0 <= k < jobs.len() ==> marker_present(descriptor_of(#[trigger] jobs[k]), markers),
        i >= 0,
    ensures
        run_models_from(jobs, markers, i) == Seq::<(Seq<char>, RustJob, Seq<Seq<char>>)>::empty(),
    decreases jobs.len() - i,
{
    if i < jobs.len() {
        lemma_all_present_runs_nothing(jobs, markers, i + 1);
    }
}

/// The commits one check verifies: every commit of the final set, or only
/// the pull request's tip when the check is restricted to it.
pub fn commits_for_check(commits: &Vec<u64>, tip: u64, only_tip: bool) -> (r: Vec<u64>)
    ensures
        only_tip ==> r@ == seq![tip],
        !only_tip ==> r@ == commits@,
{
    if only_tip {
        let mut r: Vec<u64> = Vec::new();
        r.push(tip);
        proof {
            assert(r@ =~= seq![tip]);
        }
        r
    } else {
        let mut r: Vec<u64> = Vec::new();
        let mut i: usize = 0;
        while i < commits.len()
            invariant
                0 <= i <= commits@.len(),
                r@ == commits@.subrange(0, i as int),
            decreases commits@.len() - i,
        {
            r.push(commits[i]);
            proof {
                assert(r@ =~= commits@.subrange(0, i as int + 1));
            }
            i = i + 1;
        }
        proof {
            assert(commits@.subrange(0, commits@.len() as int) =~= commits@);
        }
        r
    }
}

/// The final commit set to verify: the pull request's own commits
/// together with the reconstructed rebased commits, each kept once.
pub fn final_commit_set(original: &Vec<u64>, rebased: &Vec<u64>) -> (r: Vec<u64>)
    ensures
        distinct_seq(r@),
        forall|c: u64|
            #[trigger] r@.contains(c) <==> original@.contains(c) || rebased@.contains(c),
{
    let mut seen: HashSet<u64> = HashSet::new();
    let mut r: Vec<u64> = Vec::new();
    let mut i: usize = 0;
    while i < original.len()
        invariant
            0 <= i <= original@.len(),
            distinct_seq(r@),
            forall|c: u64| #[trigger] seen@.contains(c) <==> r@.contains(c),
            forall|c: u64|
                #[trigger] r@.contains(c) <==> original@.subrange(0, i as int).contains(c),
        decreases original@.len() - i,
    {
        let c = original[i];
        let ghost r_old = r@;
        let ghost seen_old = seen@;
        if !seen.contains(&c) {
            seen.insert(c);
            r.push(c);
            proof {
                lemma_dedup_push(seen_old, seen@, r_old, r@, c);
            }
        }
        proof {
            broadcast use vstd::seq_lib::lemma_seq_contains_after_push;

            let pre = original@.subrange(0, i as int);
            let pre1 = original@.subrange(0, i as int + 1);
            assert(pre1 =~= pre.push(c));
            assert(seen@ =~= seen_old.insert(c));
            assert forall|d: u64| #[trigger] r@.contains(d) implies pre1.contains(d) by {
                assert(seen@.contains(d));
                if d != c {
                    assert(seen_old.contains(d));
                    assert(pre.contains(d));
                }
            }
            assert forall|d: u64| pre1.contains(d) implies r@.contains(d) by {
                if d == c || pre.contains(d) {
                    assert(seen@.contains(d));
                }
            }
        }
        i = i + 1;
    }
    proof {
        assert(original@.subrange(0, original@.len() as int) =~= original@);
    }
    let mut j: usize = 0;
    while j < rebased.len()
        invariant
            0 <= j <= rebased@.len(),
            distinct_seq(r@),
            forall|c: u64| #[trigger] seen@.contains(c) <==> r@.contains(c),
            forall|c: u64|
                #[trigger] r@.contains(c) <==> original@.contains(c) || rebased@.subrange(
                    0,
                    j as int,
                ).contains(c),
        decreases rebased@.len() - j,
    {
        let c = rebased[j];
        let ghost r_old = r@;
        let ghost seen_old = seen@;
        if !seen.contains(&c) {
            seen.insert(c);
            r.push(c);
            proof {
                lemma_dedup_push(seen_old, seen@, r_old, r@, c);
            }
        }
        proof {
            broadcast use vstd::seq_lib::lemma_seq_contains_after_push;

            let pre = rebased@.subrange(0, j as int);
            let pre1 = rebased@.subrange(0, j as int + 1);
            assert(pre1 =~= pre.push(c));
            assert(seen@ =~= seen_old.insert(c));
            assert forall|d: u64| #[trigger] r@.contains(d) implies original@.contains(d)
                || pre1.contains(d) by {
                assert(seen@.contains(d));
                if d != c {
                    assert(seen_old.contains(d));
                }
            }
            assert forall|d: u64| original@.contains(d) || pre1.contains(d) implies r@.contains(
                d,
            ) by {
                if d == c || original@.contains(d) || pre.contains(d) {
                    assert(seen@.contains(d));
                }
            }
        }
        j = j + 1;
    }
    proof {
        assert(rebased@.subrange(0, rebased@.len() as int) =~= rebased@);
    }
    r
}

proof fn lemma_dedup_push(
    seen_old: Set<u64>,
    seen_new: Set<u64>,
    r_old: Seq<u64>,
    r_new: Seq<u64>,
    c: u64,
)
    requires
        seen_new == seen_old.insert(c),
        r_new == r_old.push(c),
        !seen_old.contains(c),
        forall|d: u64| #[trigger] seen_old.contains(d) <==> r_old.contains(d),
        distinct_seq(r_old),
    ensures
        forall|d: u64| #[trigger] seen_new.contains(d) <==> r_new.contains(d),
        distinct_seq(r_new),
{
    assert forall|d: u64| #[trigger] seen_new.contains(d) implies r_new.contains(d) by {
        if d == c {
            assert(r_new[r_new.len() - 1] == c);
        } else {
            let k = choose|k: int| 0 <= k < r_old.len() && r_old[k] == d;
            assert(r_new[k] == d);
        }
    }
    assert forall|d: u64| r_new.contains(d) implies seen_new.contains(d) by {
        let k = choose|k: int| 0 <= k < r_new.len() && r_new[k] == d;
        if k < r_old.len() {
            assert(r_old.contains(r_old[k]));
        }
    }
    assert forall|i: int, j: int| 0 <= i < j < r_new.len() implies r_new[i] != r_new[j] by {
        if j == r_new.len() - 1 {
            assert(r_new[j] == c);
            assert(r_old.contains(r_old[i]));
        }
    }
}

} // verus!
