use vstd::prelude::*;

verus! {

/// The write of one assignment failed: the issue at position `failed_issue`
/// was not assigned, and the `applied` assignments before it were.
#[derive(Clone, Copy, Debug, PartialEq, Eq, Structural)]
pub struct AssignmentError {
    pub failed_issue: usize,
    pub applied: usize,
}

/// What to do next while applying an assignment.
#[derive(Clone, Copy, Debug, PartialEq, Eq, Structural)]
pub enum ExecStep {
    /// Write the assignment of the issue at this position.
    Apply(usize),
    /// Every assignment was written.
    Finished,
    /// A write failed; nothing more is written.
    Stopped(AssignmentError),
}

/// Progress through the writes of an assignment of `total` issues, applied
/// in order and stopped at the first failure, with nothing undone.
#[derive(Clone, Copy, Debug, PartialEq, Eq, Structural)]
pub struct Execution {
    pub total: usize,
    pub applied: usize,
    pub failed: bool,
}

impl Execution {
    /// At most all the writes have succeeded.
    pub open spec fn wf(&self) -> bool {
        self.applied <= self.total && (self.failed ==> self.applied < self.total)
    }

    /// The step that this state calls for.
    pub open spec fn step_spec(&self) -> ExecStep {
        if self.failed {
            ExecStep::Stopped(AssignmentError { failed_issue: self.applied, applied: self.applied })
        } else if self.applied < self.total {
            ExecStep::Apply(self.applied)
        } else {
            ExecStep::Finished
        }
    }

    /// Nothing written yet.
    pub fn new(total: usize) -> (r: Execution)
        ensures
            r.wf(),
            r == (Execution { total, applied: 0, failed: false }),
    {
        Execution { total, applied: 0, failed: false }
    }

    /// The next write, or the end and how it went.
    pub fn next_step(&self) -> (r: ExecStep)
        requires
            self.wf(),
        ensures
            r == self.step_spec(),
    {
        if self.failed {
            ExecStep::Stopped(AssignmentError { failed_issue: self.applied, applied: self.applied })
        } else if self.applied < self.total {
            ExecStep::Apply(self.applied)
        } else {
            ExecStep::Finished
        }
    }

    /// Takes note of how the write that `next_step` asked for went.
    pub fn record(&mut self, succeeded: bool)
        requires
            old(self).wf(),
            old(self).step_spec() is Apply,
        ensures
            final(self).wf(),
            final(self).total == old(self).total,
            succeeded ==> final(self).applied == old(self).applied + 1 && !final(self).failed,
            !succeeded ==> final(self).applied == old(self).applied && final(self).failed,
    {
        if succeeded {
            self.applied = self.applied + 1;
        } else {
            self.failed = true;
        }
    }

    /// The end result: the number of writes made, or the failure.
    pub fn outcome(&self) -> (r: Option<Result<usize, AssignmentError>>)
        requires
            self.wf(),
        ensures
            r == match self.step_spec() {
                ExecStep::Apply(_) => None,
                ExecStep::Finished => Some(Ok(self.total)),
                ExecStep::Stopped(e) => Some(Err::<usize, AssignmentError>(e)),
            },
    {
        match self.next_step() {
            ExecStep::Apply(_) => None,
            ExecStep::Finished => Some(Ok(self.total)),
            ExecStep::Stopped(e) => Some(Err(e)),
        }
    }
}

} // verus!
