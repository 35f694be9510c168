//! Running independent jobs a bounded number at a time: which job starts
//! next, when to wait, and when the batch is over.

use vstd::prelude::*;

verus! {

/// Where a batch of jobs stands. Jobs start in order of their index; at
/// most `limit` run at a time; once one has failed no further job starts,
/// and those that run are left to finish. The batch fails with the failure
/// that was seen first.
pub struct JobRunner {
    pub total: usize,
    pub limit: usize,
    pub started: usize,
    pub finished: usize,
    /// The job whose failure was seen first.
    pub first_failed: Option<usize>,
}

/// What the runner does next.
#[derive(PartialEq, Eq, Structural, Clone, Copy, Debug)]
pub enum JobStep {
    /// Start the job at this index.
    Start(usize),
    /// Wait for a running job to finish.
    Wait,
    /// Nothing runs and nothing is left to start.
    Done,
}

impl JobRunner {
    /// Jobs that were started and have not finished.
    pub open spec fn running(&self) -> int {
        self.started - self.finished
    }

    /// Whether a job has failed.
    pub open spec fn failed(&self) -> bool {
        self.first_failed is Some
    }

    /// The counts fit each other and the limit is kept.
    pub open spec fn wf(&self) -> bool {
        &&& self.limit >= 1
        &&& self.finished <= self.started <= self.total
        &&& self.running() <= self.limit
    }

    /// What the runner does next.
    pub open spec fn next(&self) -> JobStep {
        if !self.failed() && self.started < self.total && self.running() < self.limit {
            JobStep::Start(self.started)
        } else if self.running() > 0 {
            JobStep::Wait
        } else {
            JobStep::Done
        }
    }

    /// A batch of `total` jobs of which at most `limit` run at a time; a
    /// limit of zero counts as one.
    pub fn new(total: usize, limit: usize) -> (runner: JobRunner)
        ensures
            runner.wf(),
            runner.total == total,
            runner.limit == (if limit == 0 {
                1
            } else {
                limit
            }),
            runner.started == 0,
            runner.finished == 0,
            !runner.failed(),
    {
        JobRunner {
            total,
            limit: if limit == 0 {
                1
            } else {
                limit
            },
            started: 0,
            finished: 0,
            first_failed: None,
        }
    }

    /// What to do next; a job that is to start counts as started.
    pub fn step(&mut self) -> (step: JobStep)
        requires
            old(self).wf(),
        ensures
            step == old(self).next(),
            final(self).wf(),
            *final(self) == (JobRunner {
                started: if step is Start {
                    (old(self).started + 1) as usize
                } else {
                    old(self).started
                },
                ..*old(self)
            }),
    {
        if self.first_failed.is_none() && self.started < self.total && self.started
            - self.finished < self.limit {
            let index = self.started;
            self.started = self.started + 1;
            JobStep::Start(index)
        } else if self.started - self.finished > 0 {
            JobStep::Wait
        } else {
            JobStep::Done
        }
    }

    /// Records that the running job `index` finished, successfully or not.
    /// The first failure that is recorded stays the batch's failure.
    pub fn complete(&mut self, index: usize, succeeded: bool)
        requires
            old(self).wf(),
            old(self).running() > 0,
        ensures
            final(self).wf(),
            *final(self) == (JobRunner {
                finished: (old(self).finished + 1) as usize,
                first_failed: if succeeded || old(self).failed() {
                    old(self).first_failed
                } else {
                    Some(index)
                },
                ..*old(self)
            }),
    {
        self.finished = self.finished + 1;
        if !succeeded && self.first_failed.is_none() {
            self.first_failed = Some(index);
        }
    }

    /// How the batch ended: `None` while it is not over, and otherwise
    /// whether every job succeeded or which failure was seen first.
    pub fn outcome(&self) -> (r: Option<Result<(), usize>>)
        requires
            self.wf(),
        ensures
            r == (if !(self.next() is Done) {
                None
            } else {
                match self.first_failed {
                    Some(index) => Some(Err::<(), usize>(index)),
                    None => Some(Ok::<(), usize>(())),
                }
            }),
    {
        if self.started - self.finished > 0 {
            return None;
        }
        match self.first_failed {
            Some(index) => Some(Err(index)),
            None => {
                if self.started < self.total {
                    None
                } else {
                    Some(Ok(()))
                }
            },
        }
    }

    /// How many jobs have finished, for reporting progress.
    pub fn done(&self) -> (n: usize)
        ensures
            n == self.finished,
    {
        self.finished
    }
}

/// After a failure no job starts; while jobs run the batch is not over; and
/// a batch that is over without a failure has run every job.
pub proof fn lemma_runner(runner: JobRunner)
    requires
        runner.wf(),
    ensures
        runner.failed() ==> !(runner.next() is Start),
        runner.running() > 0 ==> !(runner.next() is Done),
        runner.next() is Done && !runner.failed() ==> runner.finished == runner.total,
        runner.next() matches JobStep::Start(index) ==> index == runner.started && index
            < runner.total && runner.running() < runner.limit,
{
}

} // verus!
