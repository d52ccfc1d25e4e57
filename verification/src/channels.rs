//! A worker that takes commands from a channel, and the manager's plan of
//! commands for it.
//!
//! The worker is a state machine: for each receive it is given what came
//! out of the channel (a command, or nothing once the channel is closed) and
//! answers with the action to perform, which also tells whether it keeps
//! listening.

use vstd::prelude::*;
use vstd::string::*;

verus! {

/// Number of commands the channel between manager and worker buffers.
pub const CHANNEL_CAPACITY: usize = 32;

/// Pause of the worker after an addition, in milliseconds.
pub const ADD_PAUSE_MS: u64 = 100;

/// Pause of the manager before it asks the worker to shut down, in
/// milliseconds.
pub const MANAGER_PAUSE_MS: u64 = 500;

/// A command for the worker.
#[derive(Debug)]
pub enum Command {
    /// Print the message.
    Print(String),
    /// Add the two numbers and report the sum.
    Add(i32, i32),
    /// Stop listening.
    Shutdown,
}

/// What the worker does with what it received.
#[derive(Debug)]
pub enum WorkerAction {
    /// Print the message, then keep listening.
    Print(String),
    /// Report `a + b == sum`, pause for `pause_ms` milliseconds, then keep
    /// listening.
    ReportSum { a: i32, b: i32, sum: i32, pause_ms: u64 },
    /// Acknowledge the shutdown command and stop.
    Shutdown,
    /// The channel is closed and empty: stop.
    ChannelClosed,
}

/// The worker's answer to what came out of the channel.
pub open spec fn spec_worker_step(received: Option<Command>) -> WorkerAction {
    match received {
        Some(Command::Print(msg)) => WorkerAction::Print(msg),
        Some(Command::Add(a, b)) => WorkerAction::ReportSum {
            a,
            b,
            sum: (a + b) as i32,
            pause_ms: ADD_PAUSE_MS,
        },
        Some(Command::Shutdown) => WorkerAction::Shutdown,
        None => WorkerAction::ChannelClosed,
    }
}

/// True of the actions after which the worker keeps listening.
pub open spec fn spec_keeps_running(action: WorkerAction) -> bool {
    match action {
        WorkerAction::Print(_) | WorkerAction::ReportSum { .. } => true,
        _ => false,
    }
}

/// True of an addition whose sum does not fit in an `i32`.
pub open spec fn add_overflows(received: Option<Command>) -> bool {
    match received {
        Some(Command::Add(a, b)) => !(i32::MIN <= a + b <= i32::MAX),
        _ => false,
    }
}

/// The worker's answer to what came out of the channel: a message is
/// printed, an addition is reported with its sum and followed by a pause,
/// the shutdown command and a closed channel stop the worker.  An addition
/// whose sum overflows an `i32` is refused by the precondition.
pub fn worker_step(received: Option<Command>) -> (action: WorkerAction)
    requires
        !add_overflows(received),
    ensures
        action == spec_worker_step(received),
        received matches Some(Command::Add(a, b)) ==> action matches WorkerAction::ReportSum {
            a: ra,
            b: rb,
            sum,
            pause_ms,
        } && ra == a && rb == b && sum == a + b && pause_ms == ADD_PAUSE_MS,
        received matches Some(Command::Print(msg)) ==> action matches WorkerAction::Print(m) && m
            == msg,
        received matches Some(Command::Shutdown) ==> action matches WorkerAction::Shutdown,
        received is None ==> action matches WorkerAction::ChannelClosed,
{
    match received {
        Some(Command::Print(msg)) => WorkerAction::Print(msg),
        Some(Command::Add(a, b)) => WorkerAction::ReportSum {
            a,
            b,
            sum: a + b,
            pause_ms: ADD_PAUSE_MS,
        },
        Some(Command::Shutdown) => WorkerAction::Shutdown,
        None => WorkerAction::ChannelClosed,
    }
}

impl WorkerAction {
    /// Whether the worker keeps listening after this action.
    pub fn keeps_running(&self) -> (b: bool)
        ensures
            b == spec_keeps_running(*self),
    {
        match self {
            WorkerAction::Print(_) | WorkerAction::ReportSum { .. } => true,
            _ => false,
        }
    }
}

/// One step of the manager's plan.
#[derive(Debug)]
pub enum ManagerStep {
    /// Send the command to the worker.
    Send(Command),
    /// Pause for the given milliseconds.
    Pause(u64),
    /// Wait for the worker to end.
    JoinWorker,
}

/// The message the manager asks the worker to print.
pub open spec fn greeting() -> Seq<char> {
    "Hello from main!"@
}

/// The manager's plan: a message to print, two additions, a pause, the
/// shutdown command, then waiting for the worker.
pub fn manager_plan() -> (plan: Vec<ManagerStep>)
    ensures
        plan.len() == 6,
        plan[0] matches ManagerStep::Send(Command::Print(msg)) && msg@ == greeting(),
        plan[1] matches ManagerStep::Send(Command::Add(a, b)) && a == 10 && b == 20,
        plan[2] matches ManagerStep::Send(Command::Add(a, b)) && a == 5 && b == 5,
        plan[3] == ManagerStep::Pause(MANAGER_PAUSE_MS),
        plan[4] == ManagerStep::Send(Command::Shutdown),
        plan[5] == ManagerStep::JoinWorker,
{
    let mut plan: Vec<ManagerStep> = Vec::new();
    plan.push(ManagerStep::Send(Command::Print(String::from_str("Hello from main!"))));
    plan.push(ManagerStep::Send(Command::Add(10, 20)));
    plan.push(ManagerStep::Send(Command::Add(5, 5)));
    plan.push(ManagerStep::Pause(MANAGER_PAUSE_MS));
    plan.push(ManagerStep::Send(Command::Shutdown));
    plan.push(ManagerStep::JoinWorker);
    plan
}

/// For every addition whose sum fits in an `i32`, the worker reports the
/// two numbers unchanged together with their true sum, then pauses for
/// `ADD_PAUSE_MS`, and keeps listening.
pub proof fn lemma_worker_reports_true_sum(a: i32, b: i32)
    requires
        i32::MIN <= a + b <= i32::MAX,
    ensures
        spec_worker_step(Some(Command::Add(a, b))) matches WorkerAction::ReportSum {
            a: ra,
            b: rb,
            sum,
            pause_ms,
        } && ra == a && rb == b && sum == a + b && pause_ms == ADD_PAUSE_MS,
        spec_keeps_running(spec_worker_step(Some(Command::Add(a, b)))),
{
}

/// A message is printed as sent and the worker keeps listening; the
/// shutdown command and a closed channel both end the worker.
pub proof fn lemma_worker_print_and_stop(msg: String)
    ensures
        spec_worker_step(Some(Command::Print(msg))) matches WorkerAction::Print(m) && m == msg,
        spec_keeps_running(spec_worker_step(Some(Command::Print(msg)))),
        spec_worker_step(Some(Command::Shutdown)) matches WorkerAction::Shutdown,
        !spec_keeps_running(spec_worker_step(Some(Command::Shutdown))),
        spec_worker_step(None) matches WorkerAction::ChannelClosed,
        !spec_keeps_running(spec_worker_step(None)),
{
}

/// The actions the worker takes when the channel delivers `commands`, in
/// order, and is then closed.
pub open spec fn spec_worker_run(commands: Seq<Command>) -> Seq<WorkerAction>
    decreases commands.len(),
{
    if commands.len() == 0 {
        seq![WorkerAction::ChannelClosed]
    } else {
        let action = spec_worker_step(Some(commands[0]));
        if spec_keeps_running(action) {
            seq![action] + spec_worker_run(commands.drop_first())
        } else {
            seq![action]
        }
    }
}

/// True when `commands` holds the shutdown command somewhere before `end`.
pub open spec fn shutdown_before(commands: Seq<Command>, end: int) -> bool {
    exists|j: int| 0 <= j < end && #[trigger] commands[j] == Command::Shutdown
}

/// The worker handles the commands in order up to the first shutdown
/// command, which is its last action: nothing sent after it is handled.
pub proof fn lemma_worker_stops_at_first_shutdown(commands: Seq<Command>, k: int)
    requires
        0 <= k < commands.len(),
        commands[k] == Command::Shutdown,
        !shutdown_before(commands, k),
    ensures
        spec_worker_run(commands).len() == k + 1,
        spec_worker_run(commands)[k] == WorkerAction::Shutdown,
        forall|j: int| 0 <= j < k ==> #[trigger] spec_worker_run(commands)[j] == spec_worker_step(Some(commands[j])),
    decreases k,
{
    if k > 0 {
        let rest = commands.drop_first();
        assert(commands[0] != Command::Shutdown) by {
            if commands[0] == Command::Shutdown {
                assert(shutdown_before(commands, k));
            }
        }
        assert(!shutdown_before(rest, k - 1)) by {
            if shutdown_before(rest, k - 1) {
                let j = choose|j: int| 0 <= j < k - 1 && #[trigger] rest[j] == Command::Shutdown;
                assert(commands[j + 1] == Command::Shutdown);
            }
        }
        lemma_worker_stops_at_first_shutdown(rest, k - 1);
        let run = spec_worker_run(commands);
        assert forall|j: int| 0 <= j < k implies #[trigger] run[j] == spec_worker_step(Some(commands[j])) by {
            if j > 0 {
                assert(rest[j - 1] == commands[j]);
            }
        }
    }
}

/// Without a shutdown command the worker handles every command, in order,
/// and stops only when the channel is closed.
pub proof fn lemma_worker_drains_channel(commands: Seq<Command>)
    requires
        !shutdown_before(commands, commands.len() as int),
    ensures
        spec_worker_run(commands).len() == commands.len() + 1,
        spec_worker_run(commands)[commands.len() as int] == WorkerAction::ChannelClosed,
        forall|j: int| 0 <= j < commands.len() ==> #[trigger] spec_worker_run(commands)[j] == spec_worker_step(Some(commands[j])),
    decreases commands.len(),
{
    if commands.len() > 0 {
        let rest = commands.drop_first();
        assert(commands[0] != Command::Shutdown) by {
            if commands[0] == Command::Shutdown {
                assert(shutdown_before(commands, commands.len() as int));
            }
        }
        assert(!shutdown_before(rest, rest.len() as int)) by {
            if shutdown_before(rest, rest.len() as int) {
                let j = choose|j: int| 0 <= j < rest.len() && #[trigger] rest[j] == Command::Shutdown;
                assert(commands[j + 1] == Command::Shutdown);
            }
        }
        lemma_worker_drains_channel(rest);
        let run = spec_worker_run(commands);
        assert forall|j: int| 0 <= j < commands.len() implies #[trigger] run[j] == spec_worker_step(Some(commands[j])) by {
            if j > 0 {
                assert(rest[j - 1] == commands[j]);
            }
        }
    }
}

} // verus!
