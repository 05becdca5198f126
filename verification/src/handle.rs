//! The dispatch handle: the write-once reference through which callers reach
//! the submission queue.

use vstd::prelude::*;
use crate::channel::{open_queue, push, Completion};
use crate::dispatcher::{Dispatcher, DispatcherView};
use crate::job::Job;

verus! {

/// Why a call on the dispatch handle was refused.
#[derive(Clone, Copy, Debug, PartialEq, Eq, Structural)]
pub enum DispatchError {
    /// `setup` was called on a handle that is set up already.
    AlreadySetUp,
    /// `enqueue` was called on a handle that was never set up.
    NotSetUp,
    /// The dispatcher has terminated; the job was not accepted and its
    /// completion channel is closed.
    Terminated,
}

/// The sending side of the submission queue, once `setup` has published it.
pub struct DispatchHandle {
    queue: Option<tokio::sync::mpsc::UnboundedSender<Job>>,
}

/// Everything the worker needs to run the dispatcher: the state machine and
/// the two sources that `setup` bound it to.
pub struct Core {
    pub dispatcher: Dispatcher,
    pub queue: tokio::sync::mpsc::UnboundedReceiver<Job>,
    pub signal: tokio::sync::broadcast::Receiver<()>,
}

impl DispatchHandle {
    /// Whether `setup` has succeeded on this handle.
    pub closed spec fn is_set_up(&self) -> bool {
        self.queue is Some
    }

    /// A handle that is not set up.
    pub fn new() -> (handle: DispatchHandle)
        ensures
            !handle.is_set_up(),
    {
        DispatchHandle { queue: None }
    }

    /// Whether `setup` has succeeded on this handle.
    pub fn ready(&self) -> (ready: bool)
        ensures
            ready == self.is_set_up(),
    {
        self.queue.is_some()
    }
}

/// What a submission comes to, given what the queue handed back: a queue that
/// kept the record has accepted it; one that returned it has lost its
/// dispatcher. The returned record is dropped, which closes its completion
/// channel, so its submitter does not wait for ever.
pub fn submission_result(returned: Option<Job>) -> (result: Result<(), DispatchError>)
    ensures
        result == (if returned is None {
            Ok::<(), DispatchError>(())
        } else {
            Err(DispatchError::Terminated)
        }),
{
    match returned {
        None => Ok(()),
        Some(_) => Err(DispatchError::Terminated),
    }
}

/// Sets the handle up, once. Opens a fresh submission queue, publishes its
/// sending side in the handle and returns the dispatcher core bound to the
/// receiving side and to `killpill`, for the worker to run. On a handle that
/// is set up already the call fails and changes nothing: the first
/// dispatcher keeps its queue.
pub fn setup(handle: &mut DispatchHandle, killpill: tokio::sync::broadcast::Receiver<()>) -> (result:
    Result<Core, DispatchError>)
    ensures
        old(handle).is_set_up() ==> {
            &&& result matches Err(e)
            &&& e == DispatchError::AlreadySetUp
            &&& *final(handle) == *old(handle)
        },
        !old(handle).is_set_up() ==> {
            &&& result matches Ok(core)
            &&& final(handle).is_set_up()
            &&& core.signal == killpill
            &&& core.dispatcher.wf()
            &&& core.dispatcher@ == DispatcherView::initial()
        },
{
    if handle.queue.is_some() {
        return Err(DispatchError::AlreadySetUp);
    }
    let (sender, receiver) = open_queue();
    handle.queue = Some(sender);
    Ok(Core { dispatcher: Dispatcher::new(), queue: receiver, signal: killpill })
}

/// Submits a job and returns at once. The record is pushed onto the
/// submission queue; the caller learns the result by awaiting the receiver
/// paired with `notification`. Fails with `NotSetUp` on a handle that was
/// never set up, and with `Terminated` when the dispatcher behind the handle
/// is gone.
pub fn enqueue(
    handle: &DispatchHandle,
    args: Vec<String>,
    job_dir: String,
    cache_dir: String,
    notification: tokio::sync::oneshot::Sender<Completion>,
) -> (result: Result<(), DispatchError>)
    ensures
        !handle.is_set_up() ==> result == Err::<(), DispatchError>(DispatchError::NotSetUp),
        handle.is_set_up() ==> result is Ok || result == Err::<(), DispatchError>(
            DispatchError::Terminated,
        ),
{
    match &handle.queue {
        None => Err(DispatchError::NotSetUp),
        Some(queue) => submission_result(push(queue, Job::new(args, job_dir, cache_dir, notification))),
    }
}

} // verus!
