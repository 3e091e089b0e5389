//! Rebase reconstructor.
//!
//! When a pull request has diverged from base and its history is linear
//! (no merges), each of its commits is replayed as a cherry-pick on top of
//! base's current tip inside an isolated worktree. The surrounding process
//! performs the cherry-picks (a conflict is fatal, never auto-resolved)
//! and reports each resulting head back; the state machine here decides
//! the order of replay, skips recording a replay that changed nothing,
//! and collects the new commit identifiers. If the history contains
//! merges, reconstruction is skipped entirely.

use vstd::prelude::*;

verus! {

/// Whether rebase reconstruction is engaged at all: only for a pull
/// request that diverged from base (some pending commits) with a linear
/// history (no merges).
pub open spec fn spec_rebase_engaged(pending_len: nat, has_merges: bool) -> bool {
    pending_len > 0 && !has_merges
}

/// Decide whether to reconstruct a rebase.
pub fn rebase_engaged(pending: &Vec<u64>, has_merges: bool) -> (r: bool)
    ensures
        r == spec_rebase_engaged(pending@.len(), has_merges),
{
    pending.len() > 0 && !has_merges
}

/// With nothing pending, rebase reconstruction is skipped whatever the
/// merge flag says.
pub proof fn lemma_empty_pending_skips_rebase(has_merges: bool)
    ensures
        !spec_rebase_engaged(0, has_merges),
{
}

/// The replay state: which original commits remain to replay (in
/// parent-to-child order), the worktree's current head, and the new
/// commit identifiers produced so far. No-op replays (the change was
/// already present) are not recorded.
pub struct RebaseState {
    queue: Vec<u64>,
    cursor: usize,
    head: u64,
    produced: Vec<u64>,
}

impl RebaseState {
    /// The commits to replay, oldest first.
    pub closed spec fn queue_seq(self) -> Seq<u64> {
        self.queue@
    }

    /// How many commits have been replayed.
    pub closed spec fn cursor_at(self) -> nat {
        self.cursor as nat
    }

    /// The worktree's current head.
    pub closed spec fn head_id(self) -> u64 {
        self.head
    }

    /// The new commit identifiers registered so far.
    pub closed spec fn produced_seq(self) -> Seq<u64> {
        self.produced@
    }

    /// The state is well formed: the cursor is inside the queue and no
    /// more commits were produced than replayed.
    pub open spec fn wf(self) -> bool {
        self.cursor_at() <= self.queue_seq().len() && self.produced_seq().len()
            <= self.cursor_at()
    }

    /// Begin a reconstruction: the pending commits arrive in
    /// child-to-parent discovery order and are replayed oldest first, on
    /// top of the base tip.
    pub fn new(pending_child_to_parent: &Vec<u64>, base_tip: u64) -> (st: Self)
        ensures
            st.queue_seq() == pending_child_to_parent@.reverse(),
            st.cursor_at() == 0,
            st.head_id() == base_tip,
            st.produced_seq() == Seq::<u64>::empty(),
            st.wf(),
    {
        let mut queue: Vec<u64> = Vec::new();
        let n = pending_child_to_parent.len();
        let mut i: usize = 0;
        while i < n
            invariant
                0 <= i <= n == pending_child_to_parent@.len(),
                queue@.len() == i,
                forall|k: int|
                    0 <= k < i ==> queue@[k] == pending_child_to_parent@[n - 1 - k],
            decreases n - i,
        {
            queue.push(pending_child_to_parent[n - 1 - i]);
            i = i + 1;
        }
        proof {
            assert(queue@ =~= pending_child_to_parent@.reverse());
        }
        RebaseState { queue, cursor: 0, head: base_tip, produced: Vec::new() }
    }

    /// Whether every pending commit has been replayed.
    pub fn done(&self) -> (r: bool)
        ensures
            r == (self.cursor_at() >= self.queue_seq().len()),
    {
        self.cursor >= self.queue.len()
    }

    /// The original commit to cherry-pick next onto the current head.
    pub fn next_commit(&self) -> (r: Option<u64>)
        ensures
            self.cursor_at() < self.queue_seq().len() ==> r == Some(
                self.queue_seq()[self.cursor_at() as int],
            ),
            self.cursor_at() >= self.queue_seq().len() ==> r is None,
    {
        if self.cursor < self.queue.len() {
            Some(self.queue[self.cursor])
        } else {
            None
        }
    }

    /// Record the head the worktree reached after cherry-picking and
    /// committing the next pending commit. A head equal to the previous
    /// one means the replay was a no-op — the change was already present —
    /// and no new commit is registered; any other head is registered as a
    /// reconstructed commit.
    pub fn record_replay(&mut self, new_head: u64)
        requires
            old(self).wf(),
            old(self).cursor_at() < old(self).queue_seq().len(),
        ensures
            final(self).wf(),
            final(self).queue_seq() == old(self).queue_seq(),
            final(self).cursor_at() == old(self).cursor_at() + 1,
            final(self).head_id() == new_head,
            new_head == old(self).head_id() ==> final(self).produced_seq() == old(
                self,
            ).produced_seq(),
            new_head != old(self).head_id() ==> final(self).produced_seq() == old(
                self,
            ).produced_seq().push(new_head),
    {
        if new_head != self.head {
            self.produced.push(new_head);
        }
        self.head = new_head;
        if self.cursor < self.queue.len() {
            self.cursor = self.cursor + 1;
        }
    }

    /// The reconstructed commit identifiers, oldest first.
    pub fn produced(&self) -> (r: &Vec<u64>)
        ensures
            r@ == self.produced_seq(),
    {
        &self.produced
    }

    /// Take the reconstructed commit identifiers out of a finished
    /// reconstruction.
    pub fn into_produced(self) -> (r: Vec<u64>)
        ensures
            r@ == self.produced_seq(),
    {
        self.produced
    }
}

/// A reconstruction never produces more commits than were pending: the
/// produced list stays bounded by the replay cursor, which stays inside
/// the queue.
pub proof fn lemma_rebase_bounded(st: RebaseState)
    requires
        st.wf(),
    ensures
        st.produced_seq().len() <= st.queue_seq().len(),
{
}

/// The provenance annotation added to a replayed commit's message: the
/// original message, then a line naming the original commit.
pub open spec fn spec_cherry_pick_message(orig: Seq<char>, id_hex: Seq<char>) -> Seq<char> {
    orig + "\nCherry-picked from "@ + id_hex + "\n"@
}

/// Build the message for a replayed commit, preserving the original
/// message and recording which commit it was cherry-picked from.
pub fn cherry_pick_message(orig: &str, id_hex: &str) -> (r: String)
    ensures
        r@ == spec_cherry_pick_message(orig@, id_hex@),
{
    let mut r = orig.to_owned();
    r.append("\nCherry-picked from ");
    r.append(id_hex);
    r.append("\n");
    r
}

} // verus!
