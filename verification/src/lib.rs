//! A background dispatcher for "run this script" jobs.
//!
//! Callers hand job records to a [`handle::DispatchHandle`]; one worker owns a
//! [`dispatcher::Dispatcher`] and feeds it what its three sources report: the
//! shutdown signal, the submission queue and the tasks in flight. The
//! dispatcher decides what happens next and delivers each job's result on the
//! job's own completion channel.
//!
//! Shutdown is abrupt: the moment the signal is seen, or the last producer is
//! gone, the dispatcher terminates and gives up every task still in flight.
//! Their completion channels are closed without a value.

pub mod channel;
pub mod job;
pub mod dispatcher;
pub mod handle;
pub mod laws;
