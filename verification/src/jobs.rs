//! A job-processing pipeline: a generator that numbers jobs and draws their
//! difficulty at random, a dispatcher that hands each job to a worker once
//! a concurrency permit is held, workers that either finish or are
//! cancelled, and an orderly shutdown.
//!
//! The dispatcher is a state machine: the caller performs the action it
//! returns (waiting on the permit pool, the queue or the interrupt signal,
//! spawning, stopping the generator, notifying and joining workers) and
//! feeds back the event that the action produced.

use vstd::prelude::*;
use rand::Rng;

verus! {

/// Number of jobs the queue between generator and dispatcher buffers.
pub const QUEUE_CAPACITY: usize = 10;

/// Number of jobs that may be worked on at the same time.
pub const MAX_CONCURRENT_JOBS: usize = 3;

/// Capacity of the channel that announces shutdown to workers.
pub const SHUTDOWN_CHANNEL_CAPACITY: usize = 1;

/// Smallest difficulty (simulated work time, in milliseconds) of a job.
pub const MIN_DIFFICULTY_MS: u64 = 500;

/// Bound, never reached, of the difficulty of a job, in milliseconds.
pub const MAX_DIFFICULTY_MS: u64 = 1500;

/// Pause of the generator between two jobs, in milliseconds.
pub const GENERATOR_PAUSE_MS: u64 = 100;

/// A unit of work: its number and its simulated duration in milliseconds.
#[derive(Debug, Clone, Copy, PartialEq, Eq, Structural)]
pub struct Job {
    pub id: u32,
    pub difficulty: u64,
}

/// Calls `rand::thread_rng().gen_range(low..high)`, which draws a value
/// from the half-open range `[low, high)` and panics on an empty range.
/// Claimed: the result lies in that range.  Which value is drawn depends
/// on the thread's random generator and is left unsaid.
#[verifier::external_body]
fn random_in_range(low: u64, high: u64) -> (r: u64)
    requires
        low < high,
    ensures
        low <= r < high,
{
    rand::thread_rng().gen_range(low..high)
}

/// What the generator does after trying to hand a job to the queue.
#[derive(Debug, Clone, Copy, PartialEq, Eq, Structural)]
pub enum GeneratorAction {
    /// The job was queued: pause for the given milliseconds, then produce
    /// the next one.
    PauseThenContinue(u64),
    /// The queue has no receiver any more: stop producing.
    Stop,
}

/// The number of the generator's next job after the outcome `delivered` of
/// offering job number `next_id`.
pub open spec fn spec_next_id_after_send(next_id: int, delivered: bool) -> int {
    if delivered { next_id + 1 } else { next_id }
}

/// The number of the generator's next job after offering jobs with the
/// outcomes `deliveries`, in order, starting from number `start`.
pub open spec fn spec_next_id_after(start: int, deliveries: Seq<bool>) -> int
    decreases deliveries.len(),
{
    if deliveries.len() == 0 {
        start
    } else {
        spec_next_id_after(spec_next_id_after_send(start, deliveries[0]), deliveries.drop_first())
    }
}

/// The number of delivered offers among `deliveries`.
pub open spec fn count_delivered(deliveries: Seq<bool>) -> nat
    decreases deliveries.len(),
{
    if deliveries.len() == 0 {
        0
    } else {
        (if deliveries[0] { 1nat } else { 0nat }) + count_delivered(deliveries.drop_first())
    }
}

/// Jobs are numbered consecutively: after any run of offers the next number
/// is the starting one plus the number of jobs delivered, so a fresh
/// generator numbers its delivered jobs 0, 1, 2, ... without gap or repeat.
pub proof fn lemma_job_numbers_are_consecutive(start: int, deliveries: Seq<bool>)
    ensures
        spec_next_id_after(start, deliveries) == start + count_delivered(deliveries),
    decreases deliveries.len(),
{
    if deliveries.len() > 0 {
        lemma_job_numbers_are_consecutive(
            spec_next_id_after_send(start, deliveries[0]),
            deliveries.drop_first(),
        );
    }
}

/// The job generator: numbers jobs consecutively from zero.
#[derive(Debug)]
pub struct Generator {
    pub next_id: u32,
}

impl Generator {
    /// A generator whose first job is number zero.
    pub fn new() -> (g: Generator)
        ensures
            g.next_id == 0,
    {
        Generator { next_id: 0 }
    }

    /// The job the generator offers next, given the difficulty that was
    /// drawn for it.
    pub fn make_job(&self, difficulty: u64) -> (job: Job)
        ensures
            job == (Job { id: self.next_id, difficulty }),
    {
        Job { id: self.next_id, difficulty }
    }

    /// The job the generator offers next, with a difficulty drawn at random
    /// from `[MIN_DIFFICULTY_MS, MAX_DIFFICULTY_MS)`.
    pub fn next_job(&self) -> (job: Job)
        ensures
            job.id == self.next_id,
            MIN_DIFFICULTY_MS <= job.difficulty < MAX_DIFFICULTY_MS,
    {
        let difficulty = random_in_range(MIN_DIFFICULTY_MS, MAX_DIFFICULTY_MS);
        self.make_job(difficulty)
    }

    /// Records whether the offered job reached the queue.  A queued job
    /// advances the numbering by one and the generator pauses; a refused
    /// job stops the generator and leaves the numbering as it was.
    /// Numbering past `u32::MAX` is an overflow, so a delivered job must not
    /// carry that number.
    pub fn on_send(&mut self, delivered: bool) -> (action: GeneratorAction)
        requires
            delivered ==> old(self).next_id < u32::MAX,
        ensures
            final(self).next_id == spec_next_id_after_send(old(self).next_id as int, delivered),
            delivered ==> final(self).next_id == old(self).next_id + 1
                && action == GeneratorAction::PauseThenContinue(GENERATOR_PAUSE_MS),
            !delivered ==> final(self).next_id == old(self).next_id
                && action == GeneratorAction::Stop,
    {
        if delivered {
            self.next_id = self.next_id + 1;
            GeneratorAction::PauseThenContinue(GENERATOR_PAUSE_MS)
        } else {
            GeneratorAction::Stop
        }
    }
}

/// What ends a worker's wait.
#[derive(Debug, Clone, Copy, PartialEq, Eq, Structural)]
pub enum WorkerEvent {
    /// The simulated work time has elapsed.
    WorkDone,
    /// The shutdown announcement arrived first.
    ShutdownSignal,
}

/// How a worker's job ended, with the job's number.
#[derive(Debug, Clone, Copy, PartialEq, Eq, Structural)]
pub enum WorkerOutcome {
    Finished(u32),
    Cancelled(u32),
}

/// How long a worker works on `job`, in milliseconds: its difficulty.
pub fn work_duration_ms(job: &Job) -> (ms: u64)
    ensures
        ms == job.difficulty,
{
    job.difficulty
}

/// The outcome of `job` given the event that ended the worker's wait.
pub fn worker_outcome(job: &Job, event: WorkerEvent) -> (outcome: WorkerOutcome)
    ensures
        event == WorkerEvent::WorkDone ==> outcome == WorkerOutcome::Finished(job.id),
        event == WorkerEvent::ShutdownSignal ==> outcome == WorkerOutcome::Cancelled(job.id),
{
    match event {
        WorkerEvent::WorkDone => WorkerOutcome::Finished(job.id),
        WorkerEvent::ShutdownSignal => WorkerOutcome::Cancelled(job.id),
    }
}

/// Why the dispatcher stopped taking jobs.
#[derive(Debug, Clone, Copy, PartialEq, Eq, Structural)]
pub enum StopReason {
    /// The interrupt signal (Ctrl+C) arrived.
    Interrupted,
    /// The queue is empty and no generator can fill it any more.
    QueueClosed,
    /// The permit pool was closed.
    PermitsClosed,
}

/// Where the dispatcher stands: each phase waits for the completion of one
/// action.
#[derive(Debug, Clone, Copy, PartialEq, Eq, Structural)]
pub enum Phase {
    /// Waiting for a permit or for the interrupt signal.
    AwaitingPermit,
    /// Holding a permit, waiting for the next job.
    AwaitingJob,
    /// Handing the job to a new worker, together with the permit.
    Spawning(Job),
    /// Stopping the generator.
    Stopping(StopReason),
    /// Announcing shutdown to the workers.
    Notifying,
    /// Waiting for every spawned worker to end.
    Joining,
    /// Done.
    Finished,
}

/// What the dispatcher learns from the outside.
#[derive(Debug, Clone, Copy, PartialEq, Eq, Structural)]
pub enum DispatchEvent {
    /// The interrupt signal (Ctrl+C) arrived.
    Interrupt,
    /// A permit was acquired.
    PermitGranted,
    /// The permit pool is closed.
    PermitsClosed,
    /// A job came out of the queue.
    JobArrived(Job),
    /// The queue is empty and closed.
    QueueClosed,
    /// The last action that needs no answer has been carried out.
    StepDone,
}

/// What the dispatcher asks the caller to do next.
#[derive(Debug, Clone, Copy, PartialEq, Eq, Structural)]
pub enum DispatchAction {
    /// Wait for whichever comes first: a permit or the interrupt signal.
    AwaitPermitOrInterrupt,
    /// Wait for the next job while holding the permit.
    ReceiveJob,
    /// Spawn a worker for this job; it keeps the permit until it ends.
    SpawnWorker(Job),
    /// Stop the generator; the reason says why the dispatcher stopped.
    StopGenerator(StopReason),
    /// Announce shutdown to all workers.
    NotifyWorkers,
    /// Wait for the given number of spawned workers to end.
    JoinWorkers(usize),
    /// Leave: everything has been shut down.
    Exit,
}

/// The dispatcher as a mathematical value: its phase and the numbers of
/// the jobs handed to workers, in order.
pub struct DispatcherView {
    pub phase: Phase,
    pub spawned: Seq<u32>,
}

/// The dispatcher's state.
pub struct Dispatcher {
    phase: Phase,
    spawned: Vec<u32>,
}

/// True of the phases that belong to the shutdown sequence.
pub open spec fn is_shutting_down(phase: Phase) -> bool {
    match phase {
        Phase::Stopping(_) | Phase::Notifying | Phase::Joining | Phase::Finished => true,
        _ => false,
    }
}

/// The state of the dispatcher after `event` in state `v`.  An event that
/// the current phase does not wait for leaves the state unchanged.
pub open spec fn spec_dispatch_step(v: DispatcherView, event: DispatchEvent) -> DispatcherView {
    match v.phase {
        Phase::AwaitingPermit => match event {
            DispatchEvent::Interrupt => DispatcherView {
                phase: Phase::Stopping(StopReason::Interrupted),
                ..v
            },
            DispatchEvent::PermitGranted => DispatcherView { phase: Phase::AwaitingJob, ..v },
            DispatchEvent::PermitsClosed => DispatcherView {
                phase: Phase::Stopping(StopReason::PermitsClosed),
                ..v
            },
            _ => v,
        },
        Phase::AwaitingJob => match event {
            DispatchEvent::JobArrived(job) => DispatcherView {
                phase: Phase::Spawning(job),
                spawned: v.spawned.push(job.id),
            },
            DispatchEvent::QueueClosed => DispatcherView {
                phase: Phase::Stopping(StopReason::QueueClosed),
                ..v
            },
            _ => v,
        },
        Phase::Spawning(_) => match event {
            DispatchEvent::StepDone => DispatcherView { phase: Phase::AwaitingPermit, ..v },
            _ => v,
        },
        Phase::Stopping(_) => match event {
            DispatchEvent::StepDone => DispatcherView { phase: Phase::Notifying, ..v },
            _ => v,
        },
        Phase::Notifying => match event {
            DispatchEvent::StepDone => DispatcherView { phase: Phase::Joining, ..v },
            _ => v,
        },
        Phase::Joining => match event {
            DispatchEvent::StepDone => DispatcherView { phase: Phase::Finished, ..v },
            _ => v,
        },
        Phase::Finished => v,
    }
}

/// The action that the dispatcher asks for in state `v`.
pub open spec fn spec_dispatch_action(v: DispatcherView) -> DispatchAction {
    match v.phase {
        Phase::AwaitingPermit => DispatchAction::AwaitPermitOrInterrupt,
        Phase::AwaitingJob => DispatchAction::ReceiveJob,
        Phase::Spawning(job) => DispatchAction::SpawnWorker(job),
        Phase::Stopping(reason) => DispatchAction::StopGenerator(reason),
        Phase::Notifying => DispatchAction::NotifyWorkers,
        Phase::Joining => DispatchAction::JoinWorkers(v.spawned.len() as usize),
        Phase::Finished => DispatchAction::Exit,
    }
}

impl View for Dispatcher {
    type V = DispatcherView;

    closed spec fn view(&self) -> DispatcherView {
        DispatcherView { phase: self.phase, spawned: self.spawned@ }
    }
}

impl Dispatcher {
    /// A dispatcher that has spawned nothing and waits for a permit.
    pub fn new() -> (d: Dispatcher)
        ensures
            d@.phase == Phase::AwaitingPermit,
            d@.spawned == Seq::<u32>::empty(),
    {
        Dispatcher { phase: Phase::AwaitingPermit, spawned: Vec::new() }
    }

    /// The action the dispatcher asks for in its current state.
    pub fn pending_action(&self) -> (action: DispatchAction)
        ensures
            action == spec_dispatch_action(self@),
            self@.phase == Phase::AwaitingPermit ==> action == DispatchAction::AwaitPermitOrInterrupt,
            self@.phase == Phase::AwaitingJob ==> action == DispatchAction::ReceiveJob,
            self@.phase matches Phase::Spawning(job) ==> action == DispatchAction::SpawnWorker(job),
            self@.phase matches Phase::Stopping(reason) ==> action == DispatchAction::StopGenerator(
                reason,
            ),
            self@.phase == Phase::Notifying ==> action == DispatchAction::NotifyWorkers,
            self@.phase == Phase::Joining ==> action == DispatchAction::JoinWorkers(
                self@.spawned.len() as usize,
            ),
            self@.phase == Phase::Finished ==> action == DispatchAction::Exit,
    {
        match self.phase {
            Phase::AwaitingPermit => DispatchAction::AwaitPermitOrInterrupt,
            Phase::AwaitingJob => DispatchAction::ReceiveJob,
            Phase::Spawning(job) => DispatchAction::SpawnWorker(job),
            Phase::Stopping(reason) => DispatchAction::StopGenerator(reason),
            Phase::Notifying => DispatchAction::NotifyWorkers,
            Phase::Joining => DispatchAction::JoinWorkers(self.spawned.len()),
            Phase::Finished => DispatchAction::Exit,
        }
    }

    /// Takes `event` into account and returns the next action.
    pub fn step(&mut self, event: DispatchEvent) -> (action: DispatchAction)
        ensures
            final(self)@ == spec_dispatch_step(old(self)@, event),
            action == spec_dispatch_action(final(self)@),
            old(self)@.phase == Phase::AwaitingJob && event is JobArrived ==> final(self)@.phase
                == Phase::Spawning(event->JobArrived_0) && final(self)@.spawned == old(
                self,
            )@.spawned.push(event->JobArrived_0.id) && action == DispatchAction::SpawnWorker(
                event->JobArrived_0,
            ),
            old(self)@.phase == Phase::AwaitingPermit && event == DispatchEvent::PermitGranted
                ==> final(self)@.phase == Phase::AwaitingJob && final(self)@.spawned == old(
                self,
            )@.spawned && action == DispatchAction::ReceiveJob,
            old(self)@.phase matches Phase::Spawning(_) && event == DispatchEvent::StepDone
                ==> final(self)@.phase == Phase::AwaitingPermit && final(self)@.spawned == old(
                self,
            )@.spawned && action == DispatchAction::AwaitPermitOrInterrupt,
    {
        match self.phase {
            Phase::AwaitingPermit => match event {
                DispatchEvent::Interrupt => {
                    self.phase = Phase::Stopping(StopReason::Interrupted);
                },
                DispatchEvent::PermitGranted => {
                    self.phase = Phase::AwaitingJob;
                },
                DispatchEvent::PermitsClosed => {
                    self.phase = Phase::Stopping(StopReason::PermitsClosed);
                },
                _ => {},
            },
            Phase::AwaitingJob => match event {
                DispatchEvent::JobArrived(job) => {
                    self.spawned.push(job.id);
                    self.phase = Phase::Spawning(job);
                },
                DispatchEvent::QueueClosed => {
                    self.phase = Phase::Stopping(StopReason::QueueClosed);
                },
                _ => {},
            },
            Phase::Spawning(_) => match event {
                DispatchEvent::StepDone => {
                    self.phase = Phase::AwaitingPermit;
                },
                _ => {},
            },
            Phase::Stopping(_) => match event {
                DispatchEvent::StepDone => {
                    self.phase = Phase::Notifying;
                },
                _ => {},
            },
            Phase::Notifying => match event {
                DispatchEvent::StepDone => {
                    self.phase = Phase::Joining;
                },
                _ => {},
            },
            Phase::Joining => match event {
                DispatchEvent::StepDone => {
                    self.phase = Phase::Finished;
                },
                _ => {},
            },
            Phase::Finished => {},
        }
        self.pending_action()
    }

    /// The numbers of the jobs handed to workers so far, in order.
    pub fn spawned_jobs(&self) -> (ids: Vec<u32>)
        ensures
            ids@ == self@.spawned,
    {
        self.spawned.clone()
    }
}

/// True of the phases in which the dispatcher takes jobs.
pub open spec fn is_taking_jobs(phase: Phase) -> bool {
    match phase {
        Phase::AwaitingPermit | Phase::AwaitingJob | Phase::Spawning(_) => true,
        _ => false,
    }
}

/// True of the events that end the intake of jobs.
pub open spec fn is_stop_event(event: DispatchEvent) -> bool {
    event == DispatchEvent::Interrupt || event == DispatchEvent::QueueClosed || event
        == DispatchEvent::PermitsClosed
}

/// A job that arrives while the dispatcher holds a permit is always handed
/// to a new worker and recorded, however many workers were spawned before.
pub proof fn lemma_arriving_job_is_spawned(v: DispatcherView, job: Job)
    requires
        v.phase == Phase::AwaitingJob,
    ensures
        spec_dispatch_step(v, DispatchEvent::JobArrived(job)).phase == Phase::Spawning(job),
        spec_dispatch_step(v, DispatchEvent::JobArrived(job)).spawned == v.spawned.push(job.id),
        spec_dispatch_action(spec_dispatch_step(v, DispatchEvent::JobArrived(job)))
            == DispatchAction::SpawnWorker(job),
{
}

/// The intake of jobs goes on without bound: from waiting for a permit, a
/// granted permit, an arriving job and the spawn bring the dispatcher back to
/// waiting for a permit (and for Ctrl+C) with one more worker recorded,
/// whatever the number already spawned.
pub proof fn lemma_intake_cycle(v: DispatcherView, job: Job)
    requires
        v.phase == Phase::AwaitingPermit,
    ensures
        ({
            let a = spec_dispatch_step(v, DispatchEvent::PermitGranted);
            let b = spec_dispatch_step(a, DispatchEvent::JobArrived(job));
            let c = spec_dispatch_step(b, DispatchEvent::StepDone);
            &&& spec_dispatch_action(a) == DispatchAction::ReceiveJob
            &&& spec_dispatch_action(b) == DispatchAction::SpawnWorker(job)
            &&& c.phase == Phase::AwaitingPermit
            &&& c.spawned == v.spawned.push(job.id)
            &&& spec_dispatch_action(c) == DispatchAction::AwaitPermitOrInterrupt
        }),
{
}

/// The intake of jobs ends only on Ctrl+C, a closed queue or a closed pool
/// of permits: any other event leaves the dispatcher taking jobs, with at
/// most one more worker recorded.
pub proof fn lemma_intake_stops_only_on_stop_events(v: DispatcherView, event: DispatchEvent)
    requires
        is_taking_jobs(v.phase),
    ensures
        !is_stop_event(event) ==> is_taking_jobs(spec_dispatch_step(v, event).phase),
        !is_stop_event(event) ==> spec_dispatch_step(v, event).spawned.len() <= v.spawned.len() + 1,
        is_shutting_down(spec_dispatch_step(v, event).phase) ==> is_stop_event(event)
            && spec_dispatch_step(v, event).spawned == v.spawned,
{
}

/// Each stop event records its own reason and keeps the spawned workers:
/// Ctrl+C or a closed permit pool while waiting for a permit, a closed
/// queue while waiting for a job.
pub proof fn lemma_stop_reasons(v: DispatcherView)
    ensures
        v.phase == Phase::AwaitingPermit ==> spec_dispatch_step(v, DispatchEvent::Interrupt)
            == (DispatcherView { phase: Phase::Stopping(StopReason::Interrupted), spawned: v.spawned }),
        v.phase == Phase::AwaitingPermit ==> spec_dispatch_step(v, DispatchEvent::PermitsClosed)
            == (DispatcherView {
            phase: Phase::Stopping(StopReason::PermitsClosed),
            spawned: v.spawned,
        }),
        v.phase == Phase::AwaitingJob ==> spec_dispatch_step(v, DispatchEvent::QueueClosed)
            == (DispatcherView { phase: Phase::Stopping(StopReason::QueueClosed), spawned: v.spawned }),
{
}

/// An event that the current phase does not wait for changes nothing:
/// waiting for a permit only permits, Ctrl+C and a closed pool count;
/// waiting for a job only a job or a closed queue; every other phase only
/// the completion of its action; a finished dispatcher ignores everything.
pub proof fn lemma_unawaited_events_are_ignored(v: DispatcherView, event: DispatchEvent)
    ensures
        v.phase == Phase::AwaitingPermit && !(event == DispatchEvent::Interrupt || event
            == DispatchEvent::PermitGranted || event == DispatchEvent::PermitsClosed)
            ==> spec_dispatch_step(v, event) == v,
        v.phase == Phase::AwaitingJob && !(event is JobArrived || event == DispatchEvent::QueueClosed)
            ==> spec_dispatch_step(v, event) == v,
        !is_taking_jobs(v.phase) || v.phase is Spawning ==> (event != DispatchEvent::StepDone
            ==> spec_dispatch_step(v, event) == v),
        v.phase == Phase::Finished ==> spec_dispatch_step(v, event) == v,
{
}

/// The action the dispatcher asks for depends on its phase alone (and, when
/// joining, on the number of workers spawned): without a permit it always
/// waits for a permit or Ctrl+C, holding one it receives a job, and so on
/// through the shutdown sequence.
pub proof fn lemma_action_follows_phase(v: DispatcherView, w: DispatcherView)
    ensures
        v.phase == Phase::AwaitingPermit ==> spec_dispatch_action(v)
            == DispatchAction::AwaitPermitOrInterrupt,
        v.phase == Phase::AwaitingJob ==> spec_dispatch_action(v) == DispatchAction::ReceiveJob,
        v.phase matches Phase::Spawning(job) ==> spec_dispatch_action(v)
            == DispatchAction::SpawnWorker(job),
        v.phase matches Phase::Stopping(reason) ==> spec_dispatch_action(v)
            == DispatchAction::StopGenerator(reason),
        v.phase == Phase::Notifying ==> spec_dispatch_action(v) == DispatchAction::NotifyWorkers,
        v.phase == Phase::Joining ==> spec_dispatch_action(v) == DispatchAction::JoinWorkers(
            v.spawned.len() as usize,
        ),
        v.phase == Phase::Finished ==> spec_dispatch_action(v) == DispatchAction::Exit,
        v.phase == w.phase && v.phase != Phase::Joining ==> spec_dispatch_action(v)
            == spec_dispatch_action(w),
{
}

/// The state of the dispatcher after the events `events`, taken in order,
/// starting from state `v`.
pub open spec fn spec_dispatch_run(v: DispatcherView, events: Seq<DispatchEvent>) -> DispatcherView
    decreases events.len(),
{
    if events.len() == 0 {
        v
    } else {
        spec_dispatch_run(spec_dispatch_step(v, events[0]), events.drop_first())
    }
}

/// The number of permit grants among `events`.
pub open spec fn count_grants(events: Seq<DispatchEvent>) -> nat
    decreases events.len(),
{
    if events.len() == 0 {
        0
    } else {
        (if events[0] == DispatchEvent::PermitGranted { 1nat } else { 0nat })
            + count_grants(events.drop_first())
    }
}

/// Permits in use by the dispatcher: one per spawned worker, plus the one it
/// holds while it waits for a job.
pub open spec fn permits_in_use(v: DispatcherView) -> nat {
    v.spawned.len() + (if v.phase == Phase::AwaitingJob { 1nat } else { 0nat })
}

/// The initial state of the dispatcher.
pub open spec fn initial_dispatcher() -> DispatcherView {
    DispatcherView { phase: Phase::AwaitingPermit, spawned: Seq::empty() }
}

/// Once shutdown has begun, whatever happens next the dispatcher stays in
/// the shutdown sequence and spawns no further worker.
pub proof fn lemma_shutdown_is_final(v: DispatcherView, events: Seq<DispatchEvent>)
    requires
        is_shutting_down(v.phase),
    ensures
        is_shutting_down(spec_dispatch_run(v, events).phase),
        spec_dispatch_run(v, events).spawned == v.spawned,
    decreases events.len(),
{
    if events.len() > 0 {
        lemma_shutdown_is_final(spec_dispatch_step(v, events[0]), events.drop_first());
    }
}

/// A worker is spawned only with a permit: the permits the dispatcher uses
/// never exceed those it held before plus those granted since.
pub proof fn lemma_permits_cover_workers(v: DispatcherView, events: Seq<DispatchEvent>)
    ensures
        permits_in_use(spec_dispatch_run(v, events)) <= permits_in_use(v) + count_grants(events),
    decreases events.len(),
{
    if events.len() > 0 {
        lemma_permits_cover_workers(spec_dispatch_step(v, events[0]), events.drop_first());
    }
}

/// From the start, the number of workers spawned never exceeds the number
/// of permits granted.
pub proof fn lemma_one_worker_per_permit(events: Seq<DispatchEvent>)
    ensures
        spec_dispatch_run(initial_dispatcher(), events).spawned.len() <= count_grants(events),
{
    lemma_permits_cover_workers(initial_dispatcher(), events);
}

/// No spawned worker is ever forgotten: the list of spawned jobs only grows,
/// and each job added to it arrived through the queue.
pub proof fn lemma_spawned_jobs_only_grow(v: DispatcherView, events: Seq<DispatchEvent>)
    ensures
        v.spawned.len() <= spec_dispatch_run(v, events).spawned.len(),
        spec_dispatch_run(v, events).spawned.subrange(0, v.spawned.len() as int) == v.spawned,
        forall|i: int|
            v.spawned.len() <= i < spec_dispatch_run(v, events).spawned.len() ==> exists|k: int|
                0 <= k < events.len() && (#[trigger] events[k]) is JobArrived && events[k]->JobArrived_0.id
                    == #[trigger] spec_dispatch_run(v, events).spawned[i],
    decreases events.len(),
{
    if events.len() > 0 {
        let w = spec_dispatch_step(v, events[0]);
        let rest = events.drop_first();
        lemma_spawned_jobs_only_grow(w, rest);
        let r = spec_dispatch_run(v, events);
        assert(r == spec_dispatch_run(w, rest));
        assert(r.spawned.subrange(0, v.spawned.len() as int) == v.spawned) by {
            assert(w.spawned.subrange(0, v.spawned.len() as int) == v.spawned);
            assert(r.spawned.subrange(0, w.spawned.len() as int) == w.spawned);
        }
        assert forall|i: int| v.spawned.len() <= i < r.spawned.len() implies exists|k: int|
            0 <= k < events.len() && (#[trigger] events[k]) is JobArrived && events[k]->JobArrived_0.id
                == #[trigger] r.spawned[i] by {
            if i < w.spawned.len() {
                assert(w.spawned.len() == v.spawned.len() + 1);
                assert(r.spawned[i] == w.spawned[i]) by {
                    assert(r.spawned.subrange(0, w.spawned.len() as int)[i] == r.spawned[i]);
                }
                assert(events[0] is JobArrived);
                assert(events[0]->JobArrived_0.id == w.spawned[i]);
            } else {
                let k = choose|k: int|
                    0 <= k < rest.len() && (#[trigger] rest[k]) is JobArrived && rest[k]->JobArrived_0.id
                        == r.spawned[i];
                assert(events[k + 1] == rest[k]);
            }
        }
    } else {
        assert(spec_dispatch_run(v, events) == v);
    }
}

/// Shutdown runs in a fixed order: once the generator has been stopped, the
/// workers are notified, then every spawned worker is joined, then the
/// dispatcher exits.
pub proof fn lemma_shutdown_order(v: DispatcherView, reason: StopReason)
    requires
        v.phase == Phase::Stopping(reason),
    ensures
        ({
            let a = spec_dispatch_step(v, DispatchEvent::StepDone);
            let b = spec_dispatch_step(a, DispatchEvent::StepDone);
            let c = spec_dispatch_step(b, DispatchEvent::StepDone);
            &&& spec_dispatch_action(v) == DispatchAction::StopGenerator(reason)
            &&& spec_dispatch_action(a) == DispatchAction::NotifyWorkers
            &&& spec_dispatch_action(b) == DispatchAction::JoinWorkers(v.spawned.len() as usize)
            &&& spec_dispatch_action(c) == DispatchAction::Exit
            &&& c.phase == Phase::Finished
        }),
{
}

/// The interrupt signal, while the dispatcher waits for a permit, stops the
/// intake of jobs at once: the generator is stopped next, and no job is
/// spawned from then on.
pub proof fn lemma_interrupt_stops_intake(v: DispatcherView, later: Seq<DispatchEvent>)
    requires
        v.phase == Phase::AwaitingPermit,
    ensures
        spec_dispatch_action(spec_dispatch_step(v, DispatchEvent::Interrupt))
            == DispatchAction::StopGenerator(StopReason::Interrupted),
        spec_dispatch_run(spec_dispatch_step(v, DispatchEvent::Interrupt), later).spawned == v.spawned,
{
    lemma_shutdown_is_final(spec_dispatch_step(v, DispatchEvent::Interrupt), later);
}

} // verus!
