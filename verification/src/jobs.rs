//! Task bookkeeping: the per-task state machine, single-consume job
//! handles, and result aggregation that tolerates partial failure.
//!
//! One task is one (commit, check) pair. A task moves from `Pending` to
//! `Running` to exactly one terminal state: `Succeeded`, `Failed` (with a
//! diagnostic), or `Panicked` (an abort caught at the task boundary and
//! converted into a failure with a generic diagnostic). The surrounding
//! process owns the worker pool and reports each task's fate back through
//! these transitions; retrieving a result consumes the handle, so every
//! submitted task is joined exactly once.

use vstd::prelude::*;

verus! {

/// The state of one verification task.
pub enum TaskState {
    Pending,
    Running,
    Succeeded,
    Failed { diagnostic: String },
    Panicked,
}

impl TaskState {
    /// Whether the task has reached a terminal state.
    pub open spec fn is_terminal(self) -> bool {
        match self {
            TaskState::Pending => false,
            TaskState::Running => false,
            _ => true,
        }
    }
}

/// Handle to one submitted task, carrying caller-chosen data alongside
/// the task's state. The handle is the single point of result retrieval:
/// `join` takes it by value, so a result can neither be read twice nor
/// silently dropped while a borrow of it is still owed.
pub struct JobHandle<T> {
    /// Caller-chosen bookkeeping data describing the task.
    pub data: T,
    state: TaskState,
}

impl<T> JobHandle<T> {
    /// The task's current state.
    pub closed spec fn state(self) -> TaskState {
        self.state
    }

    /// The caller-chosen data carried by the handle.
    pub closed spec fn data_of(self) -> T {
        self.data
    }

    /// Submit a new task: it starts out `Pending`.
    pub fn spawn(data: T) -> (h: Self)
        ensures
            h.state() is Pending,
            h.data_of() == data,
    {
        JobHandle { data, state: TaskState::Pending }
    }

    /// A worker picked the task up.
    pub fn start(&mut self)
        requires
            old(self).state() is Pending,
        ensures
            final(self).state() is Running,
            final(self).data_of() == old(self).data_of(),
    {
        self.state = TaskState::Running;
    }

    /// The task ran to completion without error.
    pub fn complete_ok(&mut self)
        requires
            old(self).state() is Running,
        ensures
            final(self).state() is Succeeded,
            final(self).data_of() == old(self).data_of(),
    {
        self.state = TaskState::Succeeded;
    }

    /// The task ran to completion and reported a failure.
    pub fn complete_err(&mut self, diagnostic: String)
        requires
            old(self).state() is Running,
        ensures
            final(self).state() == (TaskState::Failed { diagnostic }),
            final(self).data_of() == old(self).data_of(),
    {
        self.state = TaskState::Failed { diagnostic };
    }

    /// The task aborted; the abort was caught at the task boundary and
    /// must not take the scheduler or any sibling task down with it.
    pub fn complete_panicked(&mut self)
        requires
            old(self).state() is Running,
        ensures
            final(self).state() is Panicked,
            final(self).data_of() == old(self).data_of(),
    {
        self.state = TaskState::Panicked;
    }

    /// Retrieve the task's result, consuming the handle. A panicked task
    /// is reported as a failure with a generic diagnostic, never as a
    /// crash of the caller.
    pub fn join(self) -> (r: (T, Result<(), String>))
        requires
            self.state().is_terminal(),
        ensures
            r.0 == self.data_of(),
            self.state() is Succeeded ==> r.1 is Ok,
            (self.state() matches TaskState::Failed { diagnostic } ==> r.1 == Result::<(), String>::Err(diagnostic)),
            self.state() is Panicked ==> (r.1 matches Err(d) && d@ == "a build job panicked"@),
            !(self.state() is Succeeded) ==> r.1 is Err,
    {
        let outcome: Result<(), String> = match self.state {
            TaskState::Succeeded => Ok(()),
            TaskState::Failed { diagnostic } => Err(diagnostic),
            _ => Err(String::from_str("a build job panicked")),
        };
        (self.data, outcome)
    }
}

/// The outcome of one concrete job: success carries the cache marker to
/// persist, failure carries a human-readable diagnostic. Failures of
/// distinct jobs never abort or discard sibling outcomes.
pub enum JobOutcome {
    Success { marker: String },
    Failure { diagnostic: String },
}

/// Whether every outcome in the sequence is a success.
pub open spec fn all_success(outcomes: Seq<JobOutcome>) -> bool {
    forall|i: int| 0 <= i < outcomes.len() ==> outcomes[i] is Success
}

/// The markers of the successful outcomes, in order.
pub open spec fn success_markers(outcomes: Seq<JobOutcome>) -> Seq<Seq<char>>
    decreases outcomes.len(),
{
    if outcomes.len() == 0 {
        Seq::empty()
    } else {
        let rest = success_markers(outcomes.drop_last());
        match outcomes.last() {
            JobOutcome::Success { marker } => rest.push(marker@),
            JobOutcome::Failure { .. } => rest,
        }
    }
}

/// The diagnostic of the last failure in the sequence.
pub open spec fn last_failure_diagnostic(outcomes: Seq<JobOutcome>) -> Seq<char>
    recommends
        !all_success(outcomes),
    decreases outcomes.len(),
{
    if outcomes.len() == 0 {
        Seq::empty()
    } else {
        match outcomes.last() {
            JobOutcome::Failure { diagnostic } => diagnostic@,
            JobOutcome::Success { .. } => last_failure_diagnostic(outcomes.drop_last()),
        }
    }
}

/// Merge per-job outcomes into an overall result, after every job has
/// reported. The overall result is a failure exactly when any job failed;
/// on overall success it carries every success marker, in order; on
/// failure it carries the diagnostic of the last failure seen. The
/// outcomes themselves are left untouched, so every individual result
/// stays visible regardless of the overall verdict.
pub fn aggregate_outcomes(outcomes: &Vec<JobOutcome>) -> (r: Result<Vec<String>, String>)
    ensures
        (r is Ok) <==> all_success(outcomes@),
        r matches Ok(ms) ==> crate::cache::views_of(ms@) == success_markers(outcomes@),
        r matches Err(d) ==> d@ == last_failure_diagnostic(outcomes@),
{
    let mut markers: Vec<String> = Vec::new();
    let mut failure: Option<String> = None;
    let mut i: usize = 0;
    while i < outcomes.len()
        invariant
            0 <= i <= outcomes@.len(),
            failure is None <==> all_success(outcomes@.subrange(0, i as int)),
            failure is None ==> crate::cache::views_of(markers@) == success_markers(
                outcomes@.subrange(0, i as int),
            ),
            failure matches Some(d) ==> d@ == last_failure_diagnostic(
                outcomes@.subrange(0, i as int),
            ),
        decreases outcomes@.len() - i,
    {
        let ghost prefix = outcomes@.subrange(0, i as int);
        let ghost prefix1 = outcomes@.subrange(0, i as int + 1);
        proof {
            assert(prefix1.drop_last() =~= prefix);
            assert(prefix1.last() == outcomes@[i as int]);
        }
        match &outcomes[i] {
            JobOutcome::Success { marker } => {
                if failure.is_none() {
                    let m = marker.clone();
                    proof {
                        assert(crate::cache::views_of(markers@.push(m))
                            =~= crate::cache::views_of(markers@).push(m@));
                    }
                    markers.push(m);
                }
            },
            JobOutcome::Failure { diagnostic } => {
                failure = Some(diagnostic.clone());
            },
        }
        i = i + 1;
        proof {
            assert(outcomes@.subrange(0, i as int) =~= prefix1);
        }
    }
    proof {
        assert(outcomes@.subrange(0, outcomes@.len() as int) =~= outcomes@);
    }
    match failure {
        None => Ok(markers),
        Some(d) => Err(d),
    }
}

/// Join every submitted task, in submission order, and report each task's
/// own result. One task's failure is isolated: the entry reported for a
/// task is a function of that task's terminal state alone, so a failure
/// (or a caught panic) in one task never erases or alters what a sibling
/// reports.
pub fn collect_results<T>(handles: Vec<JobHandle<T>>) -> (r: Vec<(T, Result<(), String>)>)
    requires
        forall|i: int| 0 <= i < handles@.len() ==> (#[trigger] handles@[i].state()).is_terminal(),
    ensures
        r@.len() == handles@.len(),
        forall|i: int|
            0 <= i < handles@.len() ==> (#[trigger] r@[i]).0 == handles@[i].data_of(),
        forall|i: int|
            0 <= i < handles@.len() ==> ((#[trigger] r@[i]).1 is Ok <==> handles@[i].state()
                is Succeeded),
        forall|i: int|
            0 <= i < handles@.len() ==> (handles@[i].state() matches TaskState::Failed {
                diagnostic,
            } ==> (#[trigger] r@[i]).1 == Result::<(), String>::Err(diagnostic)),
        forall|i: int|
            0 <= i < handles@.len() ==> (handles@[i].state() is Panicked ==> ((#[trigger] r@[i]).1
                matches Err(d) && d@ == "a build job panicked"@)),
{
    let ghost all = handles@;
    let n0: usize = handles.len();
    let mut handles = handles;
    let mut r: Vec<(T, Result<(), String>)> = Vec::new();
    let mut i: usize = 0;
    while handles.len() > 0
        invariant
            all.len() == n0,
            0 <= i <= all.len(),
            i + handles@.len() == all.len(),
            handles@ == all.subrange(i as int, all.len() as int),
            r@.len() == i,
            forall|k: int| 0 <= k < all.len() ==> (#[trigger] all[k].state()).is_terminal(),
            forall|k: int| 0 <= k < i ==> (#[trigger] r@[k]).0 == all[k].data_of(),
            forall|k: int|
                0 <= k < i ==> ((#[trigger] r@[k]).1 is Ok <==> all[k].state() is Succeeded),
            forall|k: int|
                0 <= k < i ==> (all[k].state() matches TaskState::Failed { diagnostic } ==> (
                #[trigger] r@[k]).1 == Result::<(), String>::Err(diagnostic)),
            forall|k: int|
                0 <= k < i ==> (all[k].state() is Panicked ==> ((#[trigger] r@[k]).1 matches Err(
                d,
                ) && d@ == "a build job panicked"@)),
        decreases handles@.len(),
    {
        let ghost handles_old = handles@;
        let h = handles.remove(0);
        proof {
            assert(h == all[i as int]);
            assert(handles@ =~= all.subrange(i as int + 1, all.len() as int));
            assert(i < all.len());
        }
        r.push(h.join());
        i = i + 1;
    }
    r
}

/// The diagnostic fragment for a finished subprocess: nothing for a plain
/// zero exit, the exit code for any other plain exit, and a fixed text
/// when the process did not exit on its own. The caller appends the
/// captured error stream.
pub fn exit_failure_message(exit_code: Option<u32>) -> (r: Option<String>)
    ensures
        exit_code == Some(0u32) ==> r is None,
        (exit_code matches Some(x) && x != 0) ==> (r matches Some(m) && m@ == "exited with "@
            + crate::text::dec_digits(exit_code.unwrap() as nat)),
        exit_code is None ==> (r matches Some(m) && m@
            == "did not exit on its own"@),
{
    match exit_code {
        Some(0) => None,
        Some(x) => {
            let mut m = String::from_str("exited with ");
            let d = crate::text::u64_to_dec(x as u64);
            m.append(d.as_str());
            Some(m)
        },
        None => Some(String::from_str("did not exit on its own")),
    }
}

} // verus!
