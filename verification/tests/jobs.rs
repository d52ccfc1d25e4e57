use async_playground::jobs::{
    work_duration_ms, worker_outcome, DispatchAction, DispatchEvent, Dispatcher, Generator,
    GeneratorAction, Job, StopReason, WorkerEvent, WorkerOutcome, GENERATOR_PAUSE_MS,
    MAX_CONCURRENT_JOBS, MAX_DIFFICULTY_MS, MIN_DIFFICULTY_MS, QUEUE_CAPACITY,
    SHUTDOWN_CHANNEL_CAPACITY,
};

#[test]
fn generator_numbers_jobs_consecutively() {
    let mut g = Generator::new();
    for expected in 0..50u32 {
        let job = g.next_job();
        assert_eq!(job.id, expected);
        assert!(MIN_DIFFICULTY_MS <= job.difficulty && job.difficulty < MAX_DIFFICULTY_MS);
        assert_eq!(g.on_send(true), GeneratorAction::PauseThenContinue(GENERATOR_PAUSE_MS));
    }
    assert_eq!(g.next_id, 50);
}

#[test]
fn generator_draws_differing_difficulties() {
    let g = Generator::new();
    let first = g.next_job().difficulty;
    let differs = (0..200).any(|_| g.next_job().difficulty != first);
    assert!(differs);
}

#[test]
fn generator_stops_when_queue_refuses() {
    let mut g = Generator::new();
    assert_eq!(g.make_job(700), Job { id: 0, difficulty: 700 });
    assert_eq!(g.on_send(false), GeneratorAction::Stop);
    assert_eq!(g.next_id, 0);
    assert_eq!(g.make_job(900), Job { id: 0, difficulty: 900 });
}

#[test]
fn worker_finishes_or_is_cancelled() {
    let job = Job { id: 4, difficulty: 812 };
    assert_eq!(work_duration_ms(&job), 812);
    assert_eq!(worker_outcome(&job, WorkerEvent::WorkDone), WorkerOutcome::Finished(4));
    assert_eq!(worker_outcome(&job, WorkerEvent::ShutdownSignal), WorkerOutcome::Cancelled(4));
}

#[test]
fn dispatcher_spawns_one_worker_per_permit_then_shuts_down_in_order() {
    let mut d = Dispatcher::new();
    assert_eq!(d.pending_action(), DispatchAction::AwaitPermitOrInterrupt);
    let j0 = Job { id: 0, difficulty: 600 };
    let j1 = Job { id: 1, difficulty: 1400 };
    // A job offered without a permit is not taken.
    assert_eq!(d.step(DispatchEvent::JobArrived(j0)), DispatchAction::AwaitPermitOrInterrupt);
    assert_eq!(d.step(DispatchEvent::PermitGranted), DispatchAction::ReceiveJob);
    assert_eq!(d.step(DispatchEvent::JobArrived(j0)), DispatchAction::SpawnWorker(j0));
    assert_eq!(d.step(DispatchEvent::StepDone), DispatchAction::AwaitPermitOrInterrupt);
    assert_eq!(d.step(DispatchEvent::PermitGranted), DispatchAction::ReceiveJob);
    assert_eq!(d.step(DispatchEvent::JobArrived(j1)), DispatchAction::SpawnWorker(j1));
    assert_eq!(d.step(DispatchEvent::StepDone), DispatchAction::AwaitPermitOrInterrupt);
    assert_eq!(d.spawned_jobs(), vec![0, 1]);
    assert_eq!(
        d.step(DispatchEvent::Interrupt),
        DispatchAction::StopGenerator(StopReason::Interrupted)
    );
    // Nothing is spawned once shutdown has begun.
    assert_eq!(
        d.step(DispatchEvent::JobArrived(Job { id: 2, difficulty: 500 })),
        DispatchAction::StopGenerator(StopReason::Interrupted)
    );
    assert_eq!(d.step(DispatchEvent::StepDone), DispatchAction::NotifyWorkers);
    assert_eq!(d.step(DispatchEvent::StepDone), DispatchAction::JoinWorkers(2));
    assert_eq!(d.step(DispatchEvent::StepDone), DispatchAction::Exit);
    assert_eq!(d.step(DispatchEvent::PermitGranted), DispatchAction::Exit);
    assert_eq!(d.spawned_jobs(), vec![0, 1]);
}

#[test]
fn dispatcher_stops_when_queue_closes() {
    let mut d = Dispatcher::new();
    assert_eq!(d.step(DispatchEvent::PermitGranted), DispatchAction::ReceiveJob);
    assert_eq!(
        d.step(DispatchEvent::QueueClosed),
        DispatchAction::StopGenerator(StopReason::QueueClosed)
    );
    assert_eq!(d.step(DispatchEvent::StepDone), DispatchAction::NotifyWorkers);
    assert_eq!(d.step(DispatchEvent::StepDone), DispatchAction::JoinWorkers(0));
}

#[test]
fn dispatcher_stops_when_permits_close() {
    let mut d = Dispatcher::new();
    assert_eq!(
        d.step(DispatchEvent::PermitsClosed),
        DispatchAction::StopGenerator(StopReason::PermitsClosed)
    );
    assert_eq!(d.spawned_jobs(), Vec::<u32>::new());
}

#[test]
fn pipeline_limits() {
    assert_eq!(QUEUE_CAPACITY, 10);
    assert_eq!(MAX_CONCURRENT_JOBS, 3);
    assert_eq!(SHUTDOWN_CHANNEL_CAPACITY, 1);
    assert_eq!((MIN_DIFFICULTY_MS, MAX_DIFFICULTY_MS), (500, 1500));
}
