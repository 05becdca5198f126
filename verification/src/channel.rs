//! The channels the dispatcher lives on, as far as the verified code touches
//! them. Nothing in this file is proved: each contract is a statement about
//! tokio or anyhow that the rest of the library relies on.

use vstd::prelude::*;
use crate::job::Job;

verus! {

/// The failure a script run ends with. Carried through, never inspected.
#[verifier::external_type_specification]
#[verifier::external_body]
pub struct ExAnyhowError(anyhow::Error);

/// The sending half of a single-use channel.
#[verifier::external_type_specification]
#[verifier::external_body]
#[verifier::reject_recursive_types(T)]
pub struct ExOneshotSender<T>(tokio::sync::oneshot::Sender<T>);

/// The sending half of the unbounded submission queue.
#[verifier::external_type_specification]
#[verifier::external_body]
#[verifier::reject_recursive_types(T)]
pub struct ExUnboundedSender<T>(tokio::sync::mpsc::UnboundedSender<T>);

/// The receiving half of the unbounded submission queue.
#[verifier::external_type_specification]
#[verifier::external_body]
#[verifier::reject_recursive_types(T)]
pub struct ExUnboundedReceiver<T>(tokio::sync::mpsc::UnboundedReceiver<T>);

/// The receiving half of a broadcast channel, used as the shutdown signal.
#[verifier::external_type_specification]
#[verifier::external_body]
#[verifier::reject_recursive_types(T)]
pub struct ExBroadcastReceiver<T>(tokio::sync::broadcast::Receiver<T>);

/// What a script run ends with: its exit code, or why it failed.
pub type Completion = Result<i32, anyhow::Error>;

/// Calls `tokio::sync::oneshot::Sender::send`. The call never waits. It
/// consumes the sender, so a channel carries at most one value. When the
/// receiver is already gone the value comes back, and that is all the
/// contract claims: whether it comes back is decided by the other end.
#[verifier::external_body]
pub(crate) fn deliver(channel: tokio::sync::oneshot::Sender<Completion>, outcome: Completion) -> (returned: Option<Completion>)
    ensures
        returned matches Some(r) ==> r == outcome,
{
    match channel.send(outcome) {
        Ok(()) => None,
        Err(back) => Some(back),
    }
}

/// Calls `tokio::sync::mpsc::unbounded_channel`: a fresh submission queue,
/// as its sending and its receiving half. Nothing is claimed of the two.
#[verifier::external_body]
pub(crate) fn open_queue() -> (halves: (
    tokio::sync::mpsc::UnboundedSender<Job>,
    tokio::sync::mpsc::UnboundedReceiver<Job>,
)) {
    tokio::sync::mpsc::unbounded_channel()
}

/// Calls `tokio::sync::mpsc::UnboundedSender::send`. The call never waits.
/// When the receiving half is closed or gone the record comes back inside
/// the error, and that is all the contract claims: whether it comes back is
/// decided by the other end. tokio ends the process should the count of
/// queued records overflow; memory runs out long before.
#[verifier::external_body]
pub(crate) fn push(queue: &tokio::sync::mpsc::UnboundedSender<Job>, job: Job) -> (returned: Option<Job>)
    ensures
        returned matches Some(j) ==> j == job,
{
    match queue.send(job) {
        Ok(()) => None,
        Err(refused) => Some(refused.0),
    }
}

} // verus!
