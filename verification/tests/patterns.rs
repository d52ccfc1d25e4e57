use async_playground::patterns::{
    limited_outcome, pinger_step, LimitedOutcome, PingerAction, PingerEvent, FIRST_RACER_MS,
    PING_INTERVAL_MS, SECOND_RACER_MS, SLOW_TASK_MS, STOP_AFTER_MS, TIME_LIMIT_MS,
};

#[test]
fn limited_task_outcomes() {
    assert_eq!(
        limited_outcome(Some("Finished!".to_string())),
        LimitedOutcome::Completed("Finished!".to_string())
    );
    assert_eq!(limited_outcome(None), LimitedOutcome::TimedOut);
    assert!(SLOW_TASK_MS > TIME_LIMIT_MS);
    assert!(FIRST_RACER_MS < SECOND_RACER_MS);
}

#[test]
fn pinger_pings_until_stopped() {
    assert_eq!(pinger_step(PingerEvent::Tick), PingerAction::Ping);
    assert_eq!(pinger_step(PingerEvent::StopSignal), PingerAction::Halt);
    assert_eq!((PING_INTERVAL_MS, STOP_AFTER_MS), (500, 2000));
}
