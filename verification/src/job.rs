//! Job records and the pieces a record is split into once it is accepted.

use vstd::prelude::*;
use crate::channel::Completion;

verus! {

/// One submitted unit of work: what to run, and where to report the result.
#[derive(Debug)]
pub struct Job {
    /// The script and its arguments.
    pub args: Vec<String>,
    /// The directory the script runs in.
    pub job_dir: String,
    /// The directory the script engine caches into.
    pub cache_dir: String,
    /// The completion channel, owned by this record until the result is sent.
    pub notification: tokio::sync::oneshot::Sender<Completion>,
}

/// The part of an accepted job that goes to the script engine. The ticket
/// names the job when its result comes back.
#[derive(Debug, PartialEq, Eq)]
pub struct Work {
    pub ticket: u64,
    pub args: Vec<String>,
    pub job_dir: String,
    pub cache_dir: String,
}

/// The part of an accepted job that stays with the dispatcher while the
/// script runs: the obligation to report on `notification`.
#[derive(Debug)]
pub struct Task {
    pub ticket: u64,
    pub notification: tokio::sync::oneshot::Sender<Completion>,
}

/// What the script engine reports when the job with this ticket has ended.
#[derive(Debug)]
pub struct Finished {
    pub ticket: u64,
    pub outcome: Completion,
}

impl Job {
    /// Bundles a work description with its completion channel.
    pub fn new(
        args: Vec<String>,
        job_dir: String,
        cache_dir: String,
        notification: tokio::sync::oneshot::Sender<Completion>,
    ) -> (job: Job)
        ensures
            job.args == args,
            job.job_dir == job_dir,
            job.cache_dir == cache_dir,
            job.notification == notification,
    {
        Job { args, job_dir, cache_dir, notification }
    }

    /// Splits the record under `ticket`: the work goes out to the script
    /// engine, the task keeps the completion channel.
    pub fn accept(self, ticket: u64) -> (parts: (Task, Work))
        ensures
            parts.0 == self.task(ticket),
            parts.1 == self.work(ticket),
    {
        let Job { args, job_dir, cache_dir, notification } = self;
        (Task { ticket, notification }, Work { ticket, args, job_dir, cache_dir })
    }

    /// The task that `accept` keeps.
    pub open spec fn task(self, ticket: u64) -> Task {
        Task { ticket, notification: self.notification }
    }

    /// The work that `accept` hands out.
    pub open spec fn work(self, ticket: u64) -> Work {
        Work { ticket, args: self.args, job_dir: self.job_dir, cache_dir: self.cache_dir }
    }
}

} // verus!
