//! What holds of the dispatcher over whole runs, proved from its model.

use vstd::prelude::*;
use crate::dispatcher::{Action, DispatcherView, Event, Intake, Phase, Stage};

verus! {

impl DispatcherView {
    /// The dispatcher after a run of events, the oldest first. `answers[i]`
    /// stands for what the completion channel answers at `events[i]`, should
    /// that event lead to a delivery.
    pub open spec fn run(self, events: Seq<Event>, answers: Seq<bool>) -> Self
        decreases events.len(),
    {
        if events.len() == 0 || answers.len() != events.len() {
            self
        } else {
            self.run(events.drop_last(), answers.drop_last()).step(events.last(), answers.last())
        }
    }
}

/// A step accepts at most one job, and only from the queue, only when the
/// signal was found pending earlier in the same cycle; nothing else ever
/// issues a ticket. So a queue that is always full cannot keep the dispatcher
/// from looking at the signal.
pub proof fn lemma_intake_follows_signal_check(before: DispatcherView, event: Event, received: bool)
    ensures
        before.step(event, received).issued() == before.issued() + (if before.admits(event) {
            1nat
        } else {
            0nat
        }),
        before.step(event, received).stage == Stage::Intake && before.stage != Stage::Intake ==> {
            &&& before.stage == Stage::Signal
            &&& event == Event::Signal(false)
        },
{
}

/// Tickets follow arrival: a job that is accepted gets the number of jobs
/// accepted before it as its ticket, its work goes out under that ticket,
/// and its completion channel is entered under it. An event that accepts
/// nothing leaves the record of accepted jobs as it was.
pub proof fn lemma_tickets_follow_arrival(before: DispatcherView, event: Event, received: bool)
    requires
        before.issued() < u64::MAX,
    ensures
        before.admits(event) ==> {
            &&& event matches Event::Queue(Intake::Arrived(job))
            &&& before.answer(event, received) == Action::Spawn(job.work(before.issued() as u64))
            &&& before.step(event, received).ledger == before.ledger.push(job.notification)
            &&& before.step(event, received).holds(before.issued() as u64)
        },
        !before.admits(event) ==> before.step(event, received).ledger == before.ledger,
{
    if before.admits(event) {
        let after = before.step(event, received);
        let last = before.in_flight.len() as int;
        assert(after.in_flight[last].ticket == before.issued() as u64);
    }
}

/// A fired signal seen at the start of a cycle resolves the dispatcher at
/// once, whatever is queued or in flight, and a closed queue does the same
/// at intake.
pub proof fn lemma_shutdown_is_immediate(before: DispatcherView, received: bool)
    requires
        before.phase == Phase::Active,
    ensures
        before.stage == Stage::Signal ==> {
            &&& before.answer(Event::Signal(true), received) == Action::Resolve
            &&& before.step(Event::Signal(true), received).phase == Phase::Terminated
        },
        before.stage == Stage::Intake ==> {
            &&& before.answer(Event::Queue(Intake::Closed), received) == Action::Resolve
            &&& before.step(Event::Queue(Intake::Closed), received).phase == Phase::Terminated
        },
{
}

/// Termination is final: a terminated dispatcher answers every event with
/// `Resolve` and never changes again. A job that reaches it is not run and
/// no result is sent for it.
pub proof fn lemma_terminated_is_final(before: DispatcherView, event: Event, received: bool)
    requires
        before.phase == Phase::Terminated,
    ensures
        before.step(event, received) == before,
        before.answer(event, received) == Action::Resolve,
{
}

/// A result is sent only for a task in flight, and sending it takes the task
/// out of the set: the log of settlements grows by at most one entry per
/// step, and only when a finished task is reported in turn.
pub proof fn lemma_settlement_needs_task(before: DispatcherView, event: Event, received: bool)
    requires
        before.wf(),
    ensures
        before.step(event, received).settled.len() <= before.settled.len() + 1,
        before.step(event, received).settled.len() == before.settled.len() + 1 ==> {
            &&& event matches Event::Tasks(Some(finished))
            &&& before.holds(finished.ticket)
            &&& !before.step(event, received).holds(finished.ticket)
            &&& before.step(event, received).settled.last().ticket == finished.ticket
            &&& before.step(event, received).settled.last().outcome == finished.outcome
            &&& before.step(event, received).settled.last().channel == before.ledger[finished.ticket as int]
        },
{
    let after = before.step(event, received);
    if after.settled.len() == before.settled.len() + 1 {
        match event {
            Event::Tasks(Some(finished)) => {
                before.lemma_settled_wf(finished, received);
                let k = before.position(finished.ticket);
                assert(before.in_flight[k].ticket == finished.ticket);
                let last = before.settled.len() as int;
                assert(after.settled[last].ticket == finished.ticket);
                if after.holds(finished.ticket) {
                    let i = after.position(finished.ticket);
                    assert(after.in_flight[i].ticket == after.settled[last].ticket);
                }
            },
            _ => {},
        }
    }
}

/// Every run from a valid dispatcher ends in a valid dispatcher, as long as
/// tickets cannot run out on the way.
pub proof fn lemma_run_wf(start: DispatcherView, events: Seq<Event>, answers: Seq<bool>)
    requires
        start.wf(),
        start.issued() + events.len() <= u64::MAX,
    ensures
        start.run(events, answers).wf(),
        start.run(events, answers).issued() <= start.issued() + events.len(),
    decreases events.len(),
{
    if events.len() != 0 && answers.len() == events.len() {
        lemma_run_wf(start, events.drop_last(), answers.drop_last());
        let before = start.run(events.drop_last(), answers.drop_last());
        lemma_intake_follows_signal_check(before, events.last(), answers.last());
        before.lemma_step_wf(events.last(), answers.last());
    }
}

/// While the dispatcher is active, no accepted job is lost or answered
/// twice: its task is in flight, or exactly one result has been sent for it,
/// on the completion channel the job came with, and never both.
pub proof fn lemma_one_result_per_job(state: DispatcherView, ticket: u64)
    requires
        state.wf(),
        state.phase == Phase::Active,
        ticket < state.issued(),
    ensures
        state.holds(ticket) != state.has_settled(ticket),
        forall|i: int, j: int|
            0 <= i < state.settled.len() && 0 <= j < state.settled.len() && (
            #[trigger] state.settled[i]).ticket == ticket && (#[trigger] state.settled[j]).ticket
                == ticket ==> i == j,
        forall|i: int|
            0 <= i < state.settled.len() && (#[trigger] state.settled[i]).ticket == ticket
                ==> state.settled[i].channel == state.ledger[ticket as int],
{
    assert(state.holds(ticket) || state.has_settled(ticket));
    if state.holds(ticket) && state.has_settled(ticket) {
        let i = state.position(ticket);
        let j = choose|j: int|
            0 <= j < state.settled.len() && (#[trigger] state.settled[j]).ticket == ticket;
        assert(state.in_flight[i].ticket != state.settled[j].ticket);
    }
    assert forall|i: int, j: int|
        0 <= i < state.settled.len() && 0 <= j < state.settled.len() && (
        #[trigger] state.settled[i]).ticket == ticket && (#[trigger] state.settled[j]).ticket
            == ticket implies i == j by {
        if i < j {
            assert(state.settled[i].ticket != state.settled[j].ticket);
        } else if j < i {
            assert(state.settled[j].ticket != state.settled[i].ticket);
        }
    }
}

/// Jobs that were submitted and fully processed before any shutdown each got
/// exactly one result. Take any run from a fresh dispatcher that leaves it
/// active with nothing in flight: then as many results were sent as jobs
/// were accepted, and each job's ticket stands in the log exactly once, with
/// the job's own completion channel.
pub proof fn lemma_processed_jobs_settled_once(events: Seq<Event>, answers: Seq<bool>, ticket: u64)
    requires
        events.len() <= u64::MAX,
        DispatcherView::initial().run(events, answers).phase == Phase::Active,
        DispatcherView::initial().run(events, answers).in_flight.len() == 0,
        ticket < DispatcherView::initial().run(events, answers).issued(),
    ensures
        ({
            let end = DispatcherView::initial().run(events, answers);
            &&& end.settled.len() == end.issued()
            &&& exists|i: int|
                {
                    &&& 0 <= i < end.settled.len()
                    &&& (#[trigger] end.settled[i]).ticket == ticket
                    &&& end.settled[i].channel == end.ledger[ticket as int]
                    &&& forall|j: int|
                        0 <= j < end.settled.len() && (#[trigger] end.settled[j]).ticket == ticket
                            ==> j == i
                }
        }),
{
    let end = DispatcherView::initial().run(events, answers);
    lemma_run_wf(DispatcherView::initial(), events, answers);
    lemma_one_result_per_job(end, ticket);
    assert(!end.holds(ticket));
    assert(end.has_settled(ticket));
    let i = choose|i: int| 0 <= i < end.settled.len() && (#[trigger] end.settled[i]).ticket == ticket;
    assert(end.settled[i].ticket == ticket);
}

} // verus!
