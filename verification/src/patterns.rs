//! Racing, time limits and cancellation: the decisions taken when one of
//! several awaited things completes.

use vstd::prelude::*;

verus! {

/// Delay of the first racer, in milliseconds.
pub const FIRST_RACER_MS: u64 = 100;

/// Delay of the second racer, in milliseconds.
pub const SECOND_RACER_MS: u64 = 200;

/// Duration of the slow task, in milliseconds.
pub const SLOW_TASK_MS: u64 = 2000;

/// Time limit put on the slow task, in milliseconds.
pub const TIME_LIMIT_MS: u64 = 1000;

/// Interval between two pings, in milliseconds.
pub const PING_INTERVAL_MS: u64 = 500;

/// Time after which the pinger is told to stop, in milliseconds.
pub const STOP_AFTER_MS: u64 = 2000;

/// How a task run under a time limit ended.
#[derive(Debug, PartialEq, Eq)]
pub enum LimitedOutcome {
    /// The task completed in time with this result.
    Completed(String),
    /// The time limit elapsed first.
    TimedOut,
}

/// The outcome of a task under a time limit, from its result if it
/// completed in time (`None` when the limit elapsed first).
pub fn limited_outcome(result: Option<String>) -> (outcome: LimitedOutcome)
    ensures
        result matches Some(v) ==> outcome == LimitedOutcome::Completed(v),
        result is None ==> outcome == LimitedOutcome::TimedOut,
{
    match result {
        Some(v) => LimitedOutcome::Completed(v),
        None => LimitedOutcome::TimedOut,
    }
}

/// What woke the pinger.
#[derive(Debug, Clone, Copy, PartialEq, Eq, Structural)]
pub enum PingerEvent {
    /// The ping interval elapsed.
    Tick,
    /// The stop signal arrived.
    StopSignal,
}

/// What the pinger does when woken.
#[derive(Debug, Clone, Copy, PartialEq, Eq, Structural)]
pub enum PingerAction {
    /// Ping, then wait again.
    Ping,
    /// Acknowledge the stop signal and end.
    Halt,
}

/// The pinger pings at each tick and ends at the stop signal.
pub fn pinger_step(event: PingerEvent) -> (action: PingerAction)
    ensures
        event == PingerEvent::Tick ==> action == PingerAction::Ping,
        event == PingerEvent::StopSignal ==> action == PingerAction::Halt,
{
    match event {
        PingerEvent::Tick => PingerAction::Ping,
        PingerEvent::StopSignal => PingerAction::Halt,
    }
}

} // verus!
