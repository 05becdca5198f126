use tokio::sync::{broadcast, mpsc, oneshot};
use windmill_deno::channel::Completion;
use windmill_deno::dispatcher::{Action, Delivery, Dispatcher, Event, Intake, Phase, Stage};
use windmill_deno::handle::{enqueue, setup, Core, DispatchError, DispatchHandle};
use windmill_deno::job::{Finished, Work};

fn strings(items: &[&str]) -> Vec<String> {
    items.iter().map(|s| s.to_string()).collect()
}

/// Submits a job whose script name is `script`; returns the submitter's end.
fn submit(handle: &DispatchHandle, script: &str) -> oneshot::Receiver<Completion> {
    let (tx, rx) = oneshot::channel();
    let sent = enqueue(
        handle,
        strings(&["run", script]),
        "/tmp/job".to_string(),
        "/tmp/cache".to_string(),
        tx,
    );
    assert_eq!(sent, Ok(()));
    rx
}

fn poll_signal(core: &mut Core) -> bool {
    !matches!(core.signal.try_recv(), Err(broadcast::error::TryRecvError::Empty))
}

fn poll_queue(core: &mut Core) -> Intake {
    match core.queue.try_recv() {
        Ok(job) => Intake::Arrived(job),
        Err(mpsc::error::TryRecvError::Empty) => Intake::Empty,
        Err(mpsc::error::TryRecvError::Disconnected) => Intake::Closed,
    }
}

/// Runs one cycle as a driver would. Work that is spawned joins `running`;
/// `ended` is what the tasks report when they are polled.
fn cycle(core: &mut Core, running: &mut Vec<Work>, ended: Option<Finished>) -> Action {
    let fired = poll_signal(core);
    let mut action = core.dispatcher.step(Event::Signal(fired));
    if action == Action::PollQueue {
        let intake = poll_queue(core);
        action = core.dispatcher.step(Event::Queue(intake));
    }
    match action {
        Action::Spawn(work) => {
            running.push(work);
            core.dispatcher.step(Event::Tasks(ended))
        }
        Action::PollTasks => core.dispatcher.step(Event::Tasks(ended)),
        other => other,
    }
}

/// A script engine that exits with the number its script is named after.
fn stub_engine(work: Work) -> Finished {
    let outcome = match work.args[1].parse::<i32>() {
        Ok(code) => Ok(code),
        Err(_) => Err(anyhow::Error::msg(format!("cannot run {}", work.args[1]))),
    };
    Finished { ticket: work.ticket, outcome }
}

fn fresh() -> (DispatchHandle, Core, broadcast::Sender<()>) {
    let (kill, killpill) = broadcast::channel(1);
    let mut handle = DispatchHandle::new();
    let core = match setup(&mut handle, killpill) {
        Ok(core) => core,
        Err(e) => panic!("setup failed: {:?}", e),
    };
    (handle, core, kill)
}

#[test]
fn three_jobs_give_three_results() {
    let (handle, mut core, _kill) = fresh();
    let mut receivers = vec![submit(&handle, "0"), submit(&handle, "1"), submit(&handle, "2")];
    let mut running = Vec::new();
    for _ in 0..3 {
        assert_eq!(cycle(&mut core, &mut running, None), Action::Yield(Delivery::Nothing));
    }
    assert_eq!(core.dispatcher.in_flight(), 3);
    // Jobs finish in an order of their own.
    for index in [1usize, 0, 0] {
        let work = running.remove(index);
        let ended = Some(stub_engine(work));
        assert_eq!(cycle(&mut core, &mut running, ended), Action::Yield(Delivery::Delivered));
    }
    assert_eq!(core.dispatcher.in_flight(), 0);
    assert_eq!(core.dispatcher.phase(), Phase::Active);
    let mut codes = Vec::new();
    for rx in receivers.iter_mut() {
        match rx.try_recv() {
            Ok(Ok(code)) => codes.push(code),
            other => panic!("no exit code: {:?}", other),
        }
    }
    codes.sort();
    assert_eq!(codes, vec![0, 1, 2]);
}

#[test]
fn signal_resolves_idle_dispatcher_in_one_cycle() {
    let (_handle, mut core, kill) = fresh();
    assert_eq!(kill.send(()).ok(), Some(1));
    let mut running = Vec::new();
    assert_eq!(cycle(&mut core, &mut running, None), Action::Resolve);
    assert_eq!(core.dispatcher.phase(), Phase::Terminated);
    assert!(running.is_empty());
}

#[test]
fn job_submitted_after_shutdown_is_never_run() {
    let (handle, mut core, kill) = fresh();
    assert_eq!(kill.send(()).ok(), Some(1));
    // Submitted right after the signal, before the dispatcher looks at it.
    let mut early = submit(&handle, "0");
    let mut running = Vec::new();
    assert_eq!(cycle(&mut core, &mut running, None), Action::Resolve);
    assert!(running.is_empty());
    assert_eq!(core.dispatcher.issued(), 0);
    // The worker ends and drops queue and dispatcher.
    drop(core);
    assert_eq!(early.try_recv().err(), Some(oneshot::error::TryRecvError::Closed));
    // Submitted after the dispatcher is gone: a reported error, no panic.
    let (tx, mut late) = oneshot::channel();
    let sent = enqueue(&handle, strings(&["run", "1"]), String::new(), String::new(), tx);
    assert_eq!(sent, Err(DispatchError::Terminated));
    assert_eq!(late.try_recv().err(), Some(oneshot::error::TryRecvError::Closed));
}

#[test]
fn dropped_receiver_leaves_dispatcher_running() {
    let (handle, mut core, _kill) = fresh();
    let gone = submit(&handle, "5");
    let mut kept = submit(&handle, "6");
    let mut running = Vec::new();
    cycle(&mut core, &mut running, None);
    cycle(&mut core, &mut running, None);
    drop(gone);
    let first = stub_engine(running.remove(0));
    assert_eq!(cycle(&mut core, &mut running, Some(first)), Action::Yield(Delivery::ReceiverGone));
    assert_eq!(core.dispatcher.phase(), Phase::Active);
    let second = stub_engine(running.remove(0));
    assert_eq!(cycle(&mut core, &mut running, Some(second)), Action::Yield(Delivery::Delivered));
    assert_eq!(kept.try_recv().ok().map(|r| r.ok()), Some(Some(6)));
    // And it still takes new work.
    let mut after = submit(&handle, "7");
    assert!(matches!(cycle(&mut core, &mut running, None), Action::Yield(Delivery::Nothing)));
    let third = stub_engine(running.remove(0));
    assert_eq!(cycle(&mut core, &mut running, Some(third)), Action::Yield(Delivery::Delivered));
    assert_eq!(after.try_recv().ok().map(|r| r.ok()), Some(Some(7)));
}

#[test]
fn second_setup_fails_and_leaves_first_dispatcher_alone() {
    let (mut handle, mut core, _kill) = fresh();
    let (_kill2, killpill2) = broadcast::channel::<()>(1);
    match setup(&mut handle, killpill2) {
        Err(e) => assert_eq!(e, DispatchError::AlreadySetUp),
        Ok(_) => panic!("second setup succeeded"),
    }
    assert!(handle.ready());
    // The handle still feeds the first dispatcher.
    let mut rx = submit(&handle, "4");
    let mut running = Vec::new();
    cycle(&mut core, &mut running, None);
    assert_eq!(running.len(), 1);
    let ended = stub_engine(running.remove(0));
    assert_eq!(cycle(&mut core, &mut running, Some(ended)), Action::Yield(Delivery::Delivered));
    assert_eq!(rx.try_recv().ok().map(|r| r.ok()), Some(Some(4)));
}

#[test]
fn enqueue_before_setup_fails() {
    let handle = DispatchHandle::new();
    assert!(!handle.ready());
    let (tx, mut rx) = oneshot::channel();
    let sent = enqueue(&handle, strings(&["run", "0"]), String::new(), String::new(), tx);
    assert_eq!(sent, Err(DispatchError::NotSetUp));
    assert_eq!(rx.try_recv().err(), Some(oneshot::error::TryRecvError::Closed));
}

#[test]
fn records_are_taken_in_submission_order() {
    let (handle, mut core, _kill) = fresh();
    // Two producers share the handle and take turns.
    let producer_a = &handle;
    let producer_b = &handle;
    let _a0 = submit(producer_a, "10");
    let _b0 = submit(producer_b, "20");
    let _a1 = submit(producer_a, "11");
    let _b1 = submit(producer_b, "21");
    let _a2 = submit(producer_a, "12");
    let mut running = Vec::new();
    for _ in 0..5 {
        cycle(&mut core, &mut running, None);
    }
    let scripts: Vec<&str> = running.iter().map(|w| w.args[1].as_str()).collect();
    assert_eq!(scripts, vec!["10", "20", "11", "21", "12"]);
    let tickets: Vec<u64> = running.iter().map(|w| w.ticket).collect();
    assert_eq!(tickets, vec![0, 1, 2, 3, 4]);
    assert_eq!(core.dispatcher.issued(), 5);
    // Nothing is left in the queue.
    assert!(matches!(poll_queue(&mut core), Intake::Empty));
}

#[test]
fn every_processed_job_gets_exactly_one_result() {
    let (handle, mut core, _kill) = fresh();
    let mut receivers = Vec::new();
    for n in 0..10 {
        receivers.push(submit(&handle, &n.to_string()));
    }
    let mut running = Vec::new();
    let mut delivered = 0;
    // Intake and completion interleave: the oldest running job ends every
    // second cycle.
    let mut turn = 0;
    while core.dispatcher.issued() < 10 || core.dispatcher.in_flight() > 0 {
        let ended = if turn % 2 == 1 && !running.is_empty() {
            Some(stub_engine(running.remove(0)))
        } else {
            None
        };
        if let Action::Yield(Delivery::Delivered) = cycle(&mut core, &mut running, ended) {
            delivered += 1;
        }
        turn += 1;
        assert!(turn < 100);
    }
    assert_eq!(delivered, 10);
    for (n, rx) in receivers.iter_mut().enumerate() {
        assert_eq!(rx.try_recv().ok().map(|r| r.ok()), Some(Some(n as i32)));
        // One result, then the channel is spent.
        assert_eq!(rx.try_recv().err(), Some(oneshot::error::TryRecvError::Closed));
    }
}

#[test]
fn engine_failure_is_delivered_as_a_result() {
    let (handle, mut core, _kill) = fresh();
    let mut rx = submit(&handle, "not-a-number");
    let mut running = Vec::new();
    cycle(&mut core, &mut running, None);
    let ended = stub_engine(running.remove(0));
    assert_eq!(cycle(&mut core, &mut running, Some(ended)), Action::Yield(Delivery::Delivered));
    match rx.try_recv() {
        Ok(Err(e)) => assert_eq!(e.to_string(), "cannot run not-a-number"),
        other => panic!("expected a failure, got {:?}", other),
    }
    assert_eq!(core.dispatcher.phase(), Phase::Active);
}

#[test]
fn shutdown_gives_up_tasks_in_flight() {
    let (handle, mut core, kill) = fresh();
    let mut rx = submit(&handle, "3");
    let mut running = Vec::new();
    cycle(&mut core, &mut running, None);
    assert_eq!(core.dispatcher.in_flight(), 1);
    assert!(core.dispatcher.is_in_flight(0));
    assert_eq!(rx.try_recv().err(), Some(oneshot::error::TryRecvError::Empty));
    assert_eq!(kill.send(()).ok(), Some(1));
    assert_eq!(cycle(&mut core, &mut running, None), Action::Resolve);
    assert_eq!(core.dispatcher.in_flight(), 0);
    assert!(!core.dispatcher.is_in_flight(0));
    assert_eq!(rx.try_recv().err(), Some(oneshot::error::TryRecvError::Closed));
    // A result that still comes in is dropped.
    let late = stub_engine(running.remove(0));
    assert_eq!(core.dispatcher.step(Event::Tasks(Some(late))), Action::Resolve);
}

#[test]
fn queue_without_producers_resolves_the_dispatcher() {
    let (handle, mut core, _kill) = fresh();
    let mut rx = submit(&handle, "8");
    drop(handle);
    let mut running = Vec::new();
    // What was queued before the last producer left is still taken.
    assert_eq!(cycle(&mut core, &mut running, None), Action::Yield(Delivery::Nothing));
    assert_eq!(running.len(), 1);
    assert_eq!(cycle(&mut core, &mut running, None), Action::Resolve);
    assert_eq!(core.dispatcher.phase(), Phase::Terminated);
    assert_eq!(rx.try_recv().err(), Some(oneshot::error::TryRecvError::Closed));
}

#[test]
fn signal_is_checked_before_the_queue() {
    let (handle, mut core, kill) = fresh();
    let _rx = submit(&handle, "1");
    assert_eq!(core.dispatcher.stage(), Stage::Signal);
    assert_eq!(core.dispatcher.step(Event::Signal(false)), Action::PollQueue);
    assert_eq!(core.dispatcher.stage(), Stage::Intake);
    let intake = poll_queue(&mut core);
    match core.dispatcher.step(Event::Queue(intake)) {
        Action::Spawn(work) => {
            assert_eq!(
                work,
                Work {
                    ticket: 0,
                    args: strings(&["run", "1"]),
                    job_dir: "/tmp/job".to_string(),
                    cache_dir: "/tmp/cache".to_string(),
                }
            );
        }
        other => panic!("expected a spawn, got {:?}", other),
    }
    assert_eq!(core.dispatcher.stage(), Stage::Progress);
    assert_eq!(core.dispatcher.step(Event::Tasks(None)), Action::Yield(Delivery::Nothing));
    assert_eq!(core.dispatcher.stage(), Stage::Signal);
    // With the queue full again, a fired signal still wins.
    let mut waiting = submit(&handle, "2");
    assert_eq!(kill.send(()).ok(), Some(1));
    let fired = poll_signal(&mut core);
    assert!(fired);
    assert_eq!(core.dispatcher.step(Event::Signal(fired)), Action::Resolve);
    assert_eq!(core.dispatcher.issued(), 1);
    drop(core);
    assert_eq!(waiting.try_recv().err(), Some(oneshot::error::TryRecvError::Closed));
}

#[test]
fn events_out_of_turn_are_ignored() {
    let (handle, mut core, _kill) = fresh();
    let mut rx = submit(&handle, "1");
    // The queue is reported before the signal was checked.
    let intake = poll_queue(&mut core);
    assert!(matches!(intake, Intake::Arrived(_)));
    assert_eq!(core.dispatcher.step(Event::Queue(intake)), Action::OutOfTurn);
    assert_eq!(core.dispatcher.stage(), Stage::Signal);
    assert_eq!(core.dispatcher.issued(), 0);
    assert_eq!(core.dispatcher.in_flight(), 0);
    assert_eq!(rx.try_recv().err(), Some(oneshot::error::TryRecvError::Closed));
    assert_eq!(core.dispatcher.step(Event::Tasks(None)), Action::OutOfTurn);
    assert_eq!(core.dispatcher.step(Event::Signal(false)), Action::PollQueue);
    assert_eq!(core.dispatcher.step(Event::Signal(true)), Action::OutOfTurn);
    assert_eq!(core.dispatcher.phase(), Phase::Active);
    assert_eq!(core.dispatcher.stage(), Stage::Intake);
}

#[test]
fn unknown_ticket_is_reported_and_dropped() {
    let (handle, mut core, _kill) = fresh();
    let mut rx = submit(&handle, "1");
    let mut running = Vec::new();
    let stray = Some(Finished { ticket: 9, outcome: Ok(0) });
    assert_eq!(cycle(&mut core, &mut running, stray), Action::Yield(Delivery::Unknown));
    assert_eq!(core.dispatcher.in_flight(), 1);
    assert_eq!(rx.try_recv().err(), Some(oneshot::error::TryRecvError::Empty));
    // The same ticket cannot be settled twice.
    let ended = stub_engine(running.remove(0));
    assert_eq!(cycle(&mut core, &mut running, Some(ended)), Action::Yield(Delivery::Delivered));
    let again = Some(Finished { ticket: 0, outcome: Ok(99) });
    assert_eq!(cycle(&mut core, &mut running, again), Action::Yield(Delivery::Unknown));
    assert_eq!(rx.try_recv().ok().map(|r| r.ok()), Some(Some(1)));
}

#[test]
fn terminated_dispatcher_answers_resolve_to_everything() {
    let mut dispatcher = Dispatcher::new();
    assert_eq!(dispatcher.phase(), Phase::Active);
    assert_eq!(dispatcher.stage(), Stage::Signal);
    assert_eq!(dispatcher.issued(), 0);
    assert_eq!(dispatcher.step(Event::Signal(true)), Action::Resolve);
    assert_eq!(dispatcher.phase(), Phase::Terminated);
    assert_eq!(dispatcher.step(Event::Signal(false)), Action::Resolve);
    assert_eq!(dispatcher.step(Event::Queue(Intake::Empty)), Action::Resolve);
    assert_eq!(dispatcher.step(Event::Queue(Intake::Closed)), Action::Resolve);
    assert_eq!(dispatcher.step(Event::Tasks(None)), Action::Resolve);
    assert_eq!(dispatcher.on_signal(false), Action::Resolve);
    assert_eq!(dispatcher.on_intake(Intake::Empty), Action::Resolve);
    assert_eq!(dispatcher.on_progress(None), Action::Resolve);
    assert_eq!(dispatcher.phase(), Phase::Terminated);
    assert_eq!(dispatcher.stage(), Stage::Signal);
}
