//! First-failure-wins supervision of the driver tasks.
//!
//! The drivers run as independent tasks. The caller waits for the next task
//! to end and reports how it ended; the supervisor decides whether to keep
//! waiting or to shut everything down. The first failure of any driver is the
//! outcome of the whole process: the other tasks are abandoned, not awaited.

use vstd::prelude::*;
use crate::dispatch::DriverError;

verus! {

/// The three driver loops.
#[derive(Clone, Copy, Debug, PartialEq, Eq, Structural)]
pub enum DriverKind {
    TxDispatch,
    OutputAttestation,
    Dispute,
}

/// How a driver task ended.
#[derive(Clone, Copy, Debug, PartialEq, Eq, Structural)]
pub enum DriverExit {
    /// The loop returned without error.
    Finished(DriverKind),
    /// The loop returned this error.
    Failed(DriverKind, DriverError),
    /// The task panicked or was cancelled.
    Panicked(DriverKind),
}

/// What to do next.
#[derive(Clone, Copy, Debug, PartialEq, Eq, Structural)]
pub enum Verdict {
    /// Wait for the next task to end.
    KeepWaiting,
    /// Every task has finished without error: end the process successfully.
    AllFinished,
    /// Abort the remaining tasks and end the process with this failure.
    Shutdown(DriverExit),
}

/// Supervision state: how many tasks still run, and the failure that ended
/// supervision, if any.
#[derive(Clone, Copy, Debug)]
pub struct Supervisor {
    pub running: u32,
    pub outcome: Option<DriverExit>,
}

impl Supervisor {
    /// Whether supervision is over.
    pub open spec fn done(&self) -> bool {
        self.outcome.is_some() || self.running == 0
    }

    /// The state and verdict after task exit `x`.
    pub open spec fn after(self, x: DriverExit) -> (Supervisor, Verdict) {
        match x {
            DriverExit::Finished(_) => if self.running <= 1 {
                (Supervisor { running: 0, ..self }, Verdict::AllFinished)
            } else {
                (Supervisor { running: (self.running - 1) as u32, ..self }, Verdict::KeepWaiting)
            },
            _ => (Supervisor { running: (self.running - 1) as u32, outcome: Some(x) }, Verdict::Shutdown(x)),
        }
    }

    /// Supervision of `tasks` running tasks.
    pub fn new(tasks: u32) -> (r: Self)
        ensures
            r.running == tasks,
            r.outcome.is_none(),
    {
        Supervisor { running: tasks, outcome: None }
    }

    /// Whether supervision is over.
    pub fn is_done(&self) -> (r: bool)
        ensures
            r == self.done(),
    {
        self.outcome.is_some() || self.running == 0
    }

    /// Records that one task ended and decides what follows.
    pub fn on_exit(&mut self, x: DriverExit) -> (v: Verdict)
        requires
            !old(self).done(),
        ensures
            (*final(self), v) == old(self).after(x),
    {
        self.running = self.running - 1;
        match x {
            DriverExit::Finished(_) => if self.running == 0 {
                Verdict::AllFinished
            } else {
                Verdict::KeepWaiting
            },
            _ => {
                self.outcome = Some(x);
                Verdict::Shutdown(x)
            },
        }
    }
}

/// Whether `x` is a failure.
pub open spec fn is_failure(x: DriverExit) -> bool {
    !(x is Finished)
}

/// The state after the task exits of `xs`; exits reported once supervision
/// is over change nothing.
pub open spec fn supervise(s: Supervisor, xs: Seq<DriverExit>) -> Supervisor
    decreases xs.len(),
{
    if xs.len() == 0 || s.done() {
        s
    } else {
        supervise(s.after(xs[0]).0, xs.drop_first())
    }
}

proof fn lemma_supervise_done(s: Supervisor, xs: Seq<DriverExit>)
    requires
        s.done(),
    ensures
        supervise(s, xs) == s,
{
}

/// The first failure ends everything: with `i` driver tasks finishing
/// cleanly before a failure, and more tasks running than that, the verdict on
/// that failure is to shut down with it, supervision ends with it as the
/// outcome, and no later exit changes that.
pub proof fn lemma_fail_fast(s: Supervisor, xs: Seq<DriverExit>, i: int)
    requires
        s.outcome.is_none(),
        0 <= i < xs.len(),
        i < s.running,
        is_failure(xs[i]),
        forall|j: int| 0 <= j < i ==> !is_failure(#[trigger] xs[j]),
    ensures
        supervise(s, xs).outcome == Some(xs[i]),
        supervise(s, xs) == supervise(s, xs.take(i + 1)),
        !supervise(s, xs.take(i)).done(),
        supervise(s, xs.take(i)).after(xs[i]).1 == Verdict::Shutdown(xs[i]),
    decreases i,
{
    let s1 = s.after(xs[0]).0;
    assert(xs.take(i + 1)[0] == xs[0]);
    if i == 0 {
        assert(xs.take(0) =~= Seq::<DriverExit>::empty());
        lemma_supervise_done(s1, xs.drop_first());
        lemma_supervise_done(s1, xs.take(1).drop_first());
    } else {
        assert(!is_failure(xs[0]));
        let rest = xs.drop_first();
        assert forall|j: int| 0 <= j < i - 1 implies !is_failure(#[trigger] rest[j]) by {
            assert(rest[j] == xs[j + 1]);
        }
        assert(rest[i - 1] == xs[i]);
        lemma_fail_fast(s1, rest, i - 1);
        assert(xs.take(i + 1).drop_first() =~= rest.take(i));
        assert(xs.take(i)[0] == xs[0]);
        assert(xs.take(i).drop_first() =~= rest.take(i - 1));
    }
}

} // verus!
