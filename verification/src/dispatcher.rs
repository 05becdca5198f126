//! The dispatcher core: one cooperative state machine that merges a shutdown
//! signal, the submission queue and the tasks in flight.
//!
//! The dispatcher performs no waiting itself. Its driver polls one source at
//! a time and reports what it saw as an [`Event`]; the dispatcher answers
//! with the [`Action`] to take next. A cycle checks the signal first, then
//! takes at most one job from the queue, then lets the tasks in flight make
//! progress once, and yields.

use vstd::prelude::*;
use crate::channel::{deliver, Completion};
use crate::job::{Finished, Job, Task, Work};

verus! {

/// Whether the dispatcher still runs.
#[derive(Clone, Copy, Debug, PartialEq, Eq, Structural)]
pub enum Phase {
    /// The signal has not been seen and producers remain.
    Active,
    /// The dispatcher has resolved. Nothing is accepted or delivered any more.
    Terminated,
}

/// The source the dispatcher wants to hear from next within a cycle.
#[derive(Clone, Copy, Debug, PartialEq, Eq, Structural)]
pub enum Stage {
    /// The shutdown signal, first in every cycle.
    Signal,
    /// The submission queue, once the signal was found pending.
    Intake,
    /// The tasks in flight, last in every cycle.
    Progress,
}

/// What one non-blocking receive on the submission queue found.
#[derive(Debug)]
pub enum Intake {
    /// No record is ready.
    Empty,
    /// A record arrived.
    Arrived(Job),
    /// Every producer is gone and the queue is drained.
    Closed,
}

/// What the driver saw when it polled the source the dispatcher asked for.
#[derive(Debug)]
pub enum Event {
    /// The shutdown signal was polled; `true` when it has fired.
    Signal(bool),
    /// The submission queue was polled.
    Queue(Intake),
    /// The tasks in flight were polled once; `Some` when one of them ended.
    Tasks(Option<Finished>),
}

/// What became of the result of a finished task.
#[derive(Clone, Copy, Debug, PartialEq, Eq, Structural)]
pub enum Delivery {
    /// No task ended in this cycle.
    Nothing,
    /// The result was handed to the completion channel.
    Delivered,
    /// The submitter had dropped its receiver; the result was discarded.
    ReceiverGone,
    /// No task in flight carries the ticket; the result was discarded.
    Unknown,
}

/// What the driver does next.
#[derive(Debug, PartialEq, Eq)]
pub enum Action {
    /// Poll the submission queue and report with `Event::Queue`.
    PollQueue,
    /// Start the script engine on this work, then poll the tasks in flight
    /// and report with `Event::Tasks`.
    Spawn(Work),
    /// Poll the tasks in flight and report with `Event::Tasks`.
    PollTasks,
    /// Suspend until any source wakes the driver, then poll the signal and
    /// report with `Event::Signal`.
    Yield(Delivery),
    /// The dispatcher has terminated: stop, and drop queue and tasks.
    Resolve,
    /// The event did not come from the source that was asked for. It was
    /// ignored; anything it carried was discarded.
    OutOfTurn,
}

/// One result that went out: which job, on which channel, what was sent, and
/// whether the channel still had a receiver.
pub ghost struct Settlement {
    pub ticket: u64,
    pub channel: tokio::sync::oneshot::Sender<Completion>,
    pub outcome: Completion,
    pub received: bool,
}

/// The dispatcher as a mathematical value.
pub ghost struct DispatcherView {
    pub phase: Phase,
    pub stage: Stage,
    /// The completion channel of every job accepted so far; a job's ticket
    /// is its position here.
    pub ledger: Seq<tokio::sync::oneshot::Sender<Completion>>,
    /// The tasks in flight.
    pub in_flight: Seq<Task>,
    /// Every result sent so far, oldest first.
    pub settled: Seq<Settlement>,
}

impl DispatcherView {
    /// The number of jobs accepted so far.
    pub open spec fn issued(self) -> nat {
        self.ledger.len()
    }

    /// Whether a task with this ticket is in flight.
    pub open spec fn holds(self, ticket: u64) -> bool {
        exists|i: int| 0 <= i < self.in_flight.len() && (#[trigger] self.in_flight[i]).ticket == ticket
    }

    /// Whether a result for this ticket has been sent.
    pub open spec fn has_settled(self, ticket: u64) -> bool {
        exists|i: int| 0 <= i < self.settled.len() && (#[trigger] self.settled[i]).ticket == ticket
    }

    /// Where in the set the task with this ticket stands.
    pub open spec fn position(self, ticket: u64) -> int {
        choose|i: int| 0 <= i < self.in_flight.len() && (#[trigger] self.in_flight[i]).ticket == ticket
    }

    /// The invariant of every dispatcher. Tickets are issued in order and
    /// never twice; a task in flight and a settlement both speak of the
    /// channel their job came with; no job is both in flight and settled, or
    /// settled twice; while the dispatcher is active no accepted job is lost;
    /// once it has terminated nothing is in flight.
    pub open spec fn wf(self) -> bool {
        &&& self.issued() <= u64::MAX
        &&& forall|i: int, j: int|
            0 <= i < j < self.in_flight.len() ==> (#[trigger] self.in_flight[i]).ticket != (
            #[trigger] self.in_flight[j]).ticket
        &&& forall|i: int|
            0 <= i < self.in_flight.len() ==> {
                &&& (#[trigger] self.in_flight[i]).ticket < self.issued()
                &&& self.in_flight[i].notification == self.ledger[self.in_flight[i].ticket as int]
            }
        &&& forall|i: int, j: int|
            0 <= i < j < self.settled.len() ==> (#[trigger] self.settled[i]).ticket != (
            #[trigger] self.settled[j]).ticket
        &&& forall|i: int|
            0 <= i < self.settled.len() ==> {
                &&& (#[trigger] self.settled[i]).ticket < self.issued()
                &&& self.settled[i].channel == self.ledger[self.settled[i].ticket as int]
            }
        &&& forall|i: int, j: int|
            0 <= i < self.in_flight.len() && 0 <= j < self.settled.len() ==> (
            #[trigger] self.in_flight[i]).ticket != (#[trigger] self.settled[j]).ticket
        &&& self.phase == Phase::Active ==> {
            &&& self.in_flight.len() + self.settled.len() == self.issued()
            &&& forall|t: u64|
                t < self.issued() ==> #[trigger] self.holds(t) || #[trigger] self.has_settled(t)
        }
        &&& self.phase == Phase::Terminated ==> self.in_flight.len() == 0
    }

    /// A dispatcher that has seen nothing yet.
    pub open spec fn initial() -> Self {
        DispatcherView {
            phase: Phase::Active,
            stage: Stage::Signal,
            ledger: Seq::empty(),
            in_flight: Seq::empty(),
            settled: Seq::empty(),
        }
    }

    /// The same dispatcher at another point of its cycle.
    pub open spec fn at(self, stage: Stage) -> Self {
        DispatcherView { stage, ..self }
    }

    /// The dispatcher after it resolved: every task in flight is given up.
    pub open spec fn terminated(self) -> Self {
        DispatcherView { phase: Phase::Terminated, in_flight: Seq::empty(), ..self }
    }

    /// The dispatcher after it accepted `job` under the next ticket.
    pub open spec fn admitted(self, job: Job) -> Self {
        DispatcherView {
            stage: Stage::Progress,
            ledger: self.ledger.push(job.notification),
            in_flight: self.in_flight.push(job.task(self.issued() as u64)),
            ..self
        }
    }

    /// The dispatcher after the task in flight under `finished.ticket` ended
    /// and its result was sent; `received` tells whether the channel took it.
    pub open spec fn settled_with(self, finished: Finished, received: bool) -> Self {
        let k = self.position(finished.ticket);
        DispatcherView {
            stage: Stage::Signal,
            in_flight: self.in_flight.remove(k),
            settled: self.settled.push(
                Settlement {
                    ticket: finished.ticket,
                    channel: self.in_flight[k].notification,
                    outcome: finished.outcome,
                    received,
                },
            ),
            ..self
        }
    }

    /// The dispatcher after `event`. `received` stands for what the
    /// completion channel answers, should the event lead to a delivery.
    pub open spec fn step(self, event: Event, received: bool) -> Self {
        if self.phase == Phase::Terminated {
            self
        } else {
            match event {
                Event::Signal(fired) => if self.stage != Stage::Signal {
                    self
                } else if fired {
                    self.terminated()
                } else {
                    self.at(Stage::Intake)
                },
                Event::Queue(intake) => if self.stage != Stage::Intake {
                    self
                } else {
                    match intake {
                        Intake::Empty => self.at(Stage::Progress),
                        Intake::Arrived(job) => self.admitted(job),
                        Intake::Closed => self.terminated(),
                    }
                },
                Event::Tasks(ended) => if self.stage != Stage::Progress {
                    self
                } else {
                    match ended {
                        Some(finished) => if self.holds(finished.ticket) {
                            self.settled_with(finished, received)
                        } else {
                            self.at(Stage::Signal)
                        },
                        None => self.at(Stage::Signal),
                    }
                },
            }
        }
    }

    /// The action the dispatcher answers `event` with.
    pub open spec fn answer(self, event: Event, received: bool) -> Action {
        if self.phase == Phase::Terminated {
            Action::Resolve
        } else {
            match event {
                Event::Signal(fired) => if self.stage != Stage::Signal {
                    Action::OutOfTurn
                } else if fired {
                    Action::Resolve
                } else {
                    Action::PollQueue
                },
                Event::Queue(intake) => if self.stage != Stage::Intake {
                    Action::OutOfTurn
                } else {
                    match intake {
                        Intake::Empty => Action::PollTasks,
                        Intake::Arrived(job) => Action::Spawn(job.work(self.issued() as u64)),
                        Intake::Closed => Action::Resolve,
                    }
                },
                Event::Tasks(ended) => if self.stage != Stage::Progress {
                    Action::OutOfTurn
                } else {
                    match ended {
                        Some(finished) => if !self.holds(finished.ticket) {
                            Action::Yield(Delivery::Unknown)
                        } else if received {
                            Action::Yield(Delivery::Delivered)
                        } else {
                            Action::Yield(Delivery::ReceiverGone)
                        },
                        None => Action::Yield(Delivery::Nothing),
                    }
                },
            }
        }
    }

    /// Whether `event` would have the dispatcher accept a job.
    pub open spec fn admits(self, event: Event) -> bool {
        &&& self.phase == Phase::Active
        &&& self.stage == Stage::Intake
        &&& event matches Event::Queue(Intake::Arrived(_))
    }
}

impl DispatcherView {
    /// Accepting a job keeps the invariant.
    pub proof fn lemma_admitted_wf(self, job: Job)
        requires
            self.wf(),
            self.phase == Phase::Active,
            self.issued() < u64::MAX,
        ensures
            self.admitted(job).wf(),
    {
        let next = self.admitted(job);
        let fresh = self.issued() as u64;
        let last = self.in_flight.len() as int;
        assert(next.in_flight[last].ticket == fresh);
        assert forall|t: u64| t < next.issued() implies #[trigger] next.holds(t)
            || #[trigger] next.has_settled(t) by {
            if t == fresh {
                assert(next.holds(t));
            } else if self.holds(t) {
                let i = self.position(t);
                assert(next.in_flight[i].ticket == t);
            } else {
                assert(self.has_settled(t));
                let i = choose|i: int|
                    0 <= i < self.settled.len() && (#[trigger] self.settled[i]).ticket == t;
                assert(next.settled[i].ticket == t);
            }
        }
    }

    /// Sending the result of a task in flight keeps the invariant.
    pub proof fn lemma_settled_wf(self, finished: Finished, received: bool)
        requires
            self.wf(),
            self.phase == Phase::Active,
            self.holds(finished.ticket),
        ensures
            self.settled_with(finished, received).wf(),
    {
        let next = self.settled_with(finished, received);
        let k = self.position(finished.ticket);
        let last = self.settled.len() as int;
        assert(self.in_flight[k].ticket == finished.ticket);
        assert(next.settled[last].ticket == finished.ticket);
        assert forall|i: int| 0 <= i < next.in_flight.len() implies (#[trigger] next.in_flight[i])
            == self.in_flight[if i < k { i } else { i + 1 }] by {}
        assert forall|t: u64| t < next.issued() implies #[trigger] next.holds(t)
            || #[trigger] next.has_settled(t) by {
            if t == finished.ticket {
                assert(next.has_settled(t));
            } else if self.holds(t) {
                let i = self.position(t);
                let moved = if i < k { i } else { i - 1 };
                assert(next.in_flight[moved].ticket == t);
            } else {
                assert(self.has_settled(t));
                let i = choose|i: int|
                    0 <= i < self.settled.len() && (#[trigger] self.settled[i]).ticket == t;
                assert(next.settled[i].ticket == t);
            }
        }
    }

    /// Moving on within the cycle keeps the invariant.
    pub proof fn lemma_at_wf(self, stage: Stage)
        requires
            self.wf(),
        ensures
            self.at(stage).wf(),
    {
        let next = self.at(stage);
        assert forall|t: u64| t < next.issued() && next.phase == Phase::Active implies
            #[trigger] next.holds(t) || #[trigger] next.has_settled(t) by {
            if self.holds(t) {
                let i = self.position(t);
                assert(next.in_flight[i].ticket == t);
            } else {
                assert(self.has_settled(t));
                let i = choose|i: int|
                    0 <= i < self.settled.len() && (#[trigger] self.settled[i]).ticket == t;
                assert(next.settled[i].ticket == t);
            }
        }
    }

    /// Whatever the event and whatever the channel answers, a step keeps the
    /// invariant, provided a ticket is left for a job that would be accepted.
    pub proof fn lemma_step_wf(self, event: Event, received: bool)
        requires
            self.wf(),
            self.admits(event) ==> self.issued() < u64::MAX,
        ensures
            self.step(event, received).wf(),
    {
        self.lemma_at_wf(Stage::Signal);
        self.lemma_at_wf(Stage::Intake);
        self.lemma_at_wf(Stage::Progress);
        if self.phase == Phase::Active {
            match event {
                Event::Queue(Intake::Arrived(job)) => {
                    if self.stage == Stage::Intake {
                        self.lemma_admitted_wf(job);
                    }
                },
                Event::Tasks(Some(finished)) => {
                    if self.stage == Stage::Progress && self.holds(finished.ticket) {
                        self.lemma_settled_wf(finished, received);
                    }
                },
                _ => {},
            }
        }
    }
}

/// What a send on a completion channel gave back decides the delivery: a
/// channel that kept the value has it delivered; one that returned it has
/// lost its receiver, and the value is discarded. Neither is an error.
pub fn delivery_of(returned: Option<Completion>) -> (delivery: Delivery)
    ensures
        delivery == (if returned is None {
            Delivery::Delivered
        } else {
            Delivery::ReceiverGone
        }),
{
    match returned {
        None => Delivery::Delivered,
        Some(_) => Delivery::ReceiverGone,
    }
}

/// The dispatcher core. It owns the tasks in flight and the phase; the
/// driver owns the sources and the running scripts.
pub struct Dispatcher {
    phase: Phase,
    stage: Stage,
    issued: u64,
    in_flight: Vec<Task>,
    ledger: Ghost<Seq<tokio::sync::oneshot::Sender<Completion>>>,
    settled: Ghost<Seq<Settlement>>,
}

impl View for Dispatcher {
    type V = DispatcherView;

    closed spec fn view(&self) -> DispatcherView {
        DispatcherView {
            phase: self.phase,
            stage: self.stage,
            ledger: self.ledger@,
            in_flight: self.in_flight@,
            settled: self.settled@,
        }
    }
}

impl Dispatcher {
    /// The invariant: that of the view, and the ticket counter in step with it.
    pub closed spec fn wf(&self) -> bool {
        &&& self@.wf()
        &&& self.issued == self.ledger@.len()
    }

    /// An active dispatcher at the start of its first cycle, with nothing in
    /// flight.
    pub fn new() -> (dispatcher: Dispatcher)
        ensures
            dispatcher.wf(),
            dispatcher@ == DispatcherView::initial(),
    {
        Dispatcher {
            phase: Phase::Active,
            stage: Stage::Signal,
            issued: 0,
            in_flight: Vec::new(),
            ledger: Ghost(Seq::empty()),
            settled: Ghost(Seq::empty()),
        }
    }

    /// Where in the set the task with this ticket stands, if it is in flight.
    fn locate(&self, ticket: u64) -> (found: Option<usize>)
        requires
            self.wf(),
        ensures
            match found {
                Some(k) => self@.holds(ticket) && k == self@.position(ticket),
                None => !self@.holds(ticket),
            },
    {
        let mut k: usize = 0;
        while k < self.in_flight.len()
            invariant
                k <= self.in_flight.len(),
                self.wf(),
                forall|i: int| 0 <= i < k ==> (#[trigger] self.in_flight@[i]).ticket != ticket,
            decreases self.in_flight.len() - k,
        {
            if self.in_flight[k].ticket == ticket {
                proof {
                    assert(self@.in_flight[k as int].ticket == ticket);
                }
                return Some(k);
            }
            k += 1;
        }
        None
    }

    /// Gives up every task in flight and resolves.
    fn terminate(&mut self)
        requires
            old(self).wf(),
        ensures
            final(self).wf(),
            final(self)@ == old(self)@.terminated(),
    {
        self.phase = Phase::Terminated;
        self.in_flight = Vec::new();
        proof {
            assert(self@.in_flight =~= Seq::empty());
        }
    }

    /// The phase the dispatcher is in.
    pub fn phase(&self) -> (phase: Phase)
        ensures
            phase == self@.phase,
    {
        self.phase
    }

    /// The source the dispatcher wants to hear from next.
    pub fn stage(&self) -> (stage: Stage)
        ensures
            stage == self@.stage,
    {
        self.stage
    }

    /// The number of jobs accepted so far, which is the next ticket.
    pub fn issued(&self) -> (count: u64)
        requires
            self.wf(),
        ensures
            count == self@.issued(),
    {
        self.issued
    }

    /// The number of tasks in flight.
    pub fn in_flight(&self) -> (count: usize)
        ensures
            count == self@.in_flight.len(),
    {
        self.in_flight.len()
    }

    /// Whether the job with this ticket is in flight.
    pub fn is_in_flight(&self, ticket: u64) -> (held: bool)
        requires
            self.wf(),
        ensures
            held == self@.holds(ticket),
    {
        self.locate(ticket).is_some()
    }

    /// Takes the outcome of polling the shutdown signal. A signal that has
    /// fired terminates the dispatcher on the spot: the queue is not looked
    /// at and the tasks in flight are given up. A pending one lets the cycle
    /// go on to the queue.
    pub fn on_signal(&mut self, fired: bool) -> (action: Action)
        requires
            old(self).wf(),
        ensures
            final(self).wf(),
            final(self)@ == old(self)@.step(Event::Signal(fired), false),
            action == old(self)@.answer(Event::Signal(fired), false),
    {
        if self.phase == Phase::Terminated {
            Action::Resolve
        } else if self.stage != Stage::Signal {
            Action::OutOfTurn
        } else if fired {
            self.terminate();
            Action::Resolve
        } else {
            proof {
                self@.lemma_at_wf(Stage::Intake);
            }
            self.stage = Stage::Intake;
            Action::PollQueue
        }
    }

    /// Takes the outcome of one receive on the submission queue. A record
    /// that arrived is accepted under the next ticket: its completion
    /// channel joins the tasks in flight and its work description goes out
    /// to be run. A closed queue terminates the dispatcher. An empty one
    /// lets the cycle go on.
    pub fn on_intake(&mut self, intake: Intake) -> (action: Action)
        requires
            old(self).wf(),
            old(self)@.admits(Event::Queue(intake)) ==> old(self)@.issued() < u64::MAX,
        ensures
            final(self).wf(),
            final(self)@ == old(self)@.step(Event::Queue(intake), false),
            action == old(self)@.answer(Event::Queue(intake), false),
    {
        if self.phase == Phase::Terminated {
            Action::Resolve
        } else if self.stage != Stage::Intake {
            Action::OutOfTurn
        } else {
            match intake {
                Intake::Empty => {
                    proof {
                        self@.lemma_at_wf(Stage::Progress);
                    }
                    self.stage = Stage::Progress;
                    Action::PollTasks
                },
                Intake::Arrived(job) => {
                    proof {
                        self@.lemma_admitted_wf(job);
                    }
                    let ghost channel = job.notification;
                    let (task, work) = job.accept(self.issued);
                    self.in_flight.push(task);
                    self.ledger = Ghost(self.ledger@.push(channel));
                    self.issued = self.issued + 1;
                    self.stage = Stage::Progress;
                    Action::Spawn(work)
                },
                Intake::Closed => {
                    self.terminate();
                    Action::Resolve
                },
            }
        }
    }

    /// Takes the outcome of polling the tasks in flight once. The result of a
    /// task that ended is sent on that task's completion channel, exactly
    /// once, and the task leaves the set; a submitter that no longer listens
    /// is no error. A ticket that is not in flight is ignored. Either way the
    /// cycle is over and the dispatcher yields.
    pub fn on_progress(&mut self, ended: Option<Finished>) -> (action: Action)
        requires
            old(self).wf(),
        ensures
            final(self).wf(),
            final(self)@ == old(self)@.step(
                Event::Tasks(ended),
                action == Action::Yield(Delivery::Delivered),
            ),
            action == old(self)@.answer(
                Event::Tasks(ended),
                action == Action::Yield(Delivery::Delivered),
            ),
    {
        if self.phase == Phase::Terminated {
            Action::Resolve
        } else if self.stage != Stage::Progress {
            Action::OutOfTurn
        } else {
            match ended {
                None => {
                    proof {
                        self@.lemma_at_wf(Stage::Signal);
                    }
                    self.stage = Stage::Signal;
                    Action::Yield(Delivery::Nothing)
                },
                Some(finished) => {
                    match self.locate(finished.ticket) {
                        None => {
                            proof {
                                self@.lemma_at_wf(Stage::Signal);
                            }
                            self.stage = Stage::Signal;
                            Action::Yield(Delivery::Unknown)
                        },
                        Some(k) => {
                            let ghost before = self@;
                            let ghost report = finished;
                            let task = self.in_flight.remove(k);
                            let delivery = delivery_of(deliver(task.notification, finished.outcome));
                            proof {
                                let received = delivery == Delivery::Delivered;
                                before.lemma_settled_wf(report, received);
                                self.settled = Ghost(
                                    self.settled@.push(
                                        Settlement {
                                            ticket: report.ticket,
                                            channel: task.notification,
                                            outcome: report.outcome,
                                            received,
                                        },
                                    ),
                                );
                            }
                            self.stage = Stage::Signal;
                            Action::Yield(delivery)
                        },
                    }
                },
            }
        }
    }

    /// Takes one event and answers with what to do next. An event from a
    /// source other than the one asked for changes nothing, and neither does
    /// any event once the dispatcher has terminated.
    pub fn step(&mut self, event: Event) -> (action: Action)
        requires
            old(self).wf(),
            old(self)@.admits(event) ==> old(self)@.issued() < u64::MAX,
        ensures
            final(self).wf(),
            final(self)@ == old(self)@.step(event, action == Action::Yield(Delivery::Delivered)),
            action == old(self)@.answer(event, action == Action::Yield(Delivery::Delivered)),
    {
        match event {
            Event::Signal(fired) => self.on_signal(fired),
            Event::Queue(intake) => self.on_intake(intake),
            Event::Tasks(ended) => self.on_progress(ended),
        }
    }
}

} // verus!
