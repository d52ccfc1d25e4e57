use async_playground::channels::{
    manager_plan, worker_step, Command, ManagerStep, WorkerAction, ADD_PAUSE_MS,
    CHANNEL_CAPACITY, MANAGER_PAUSE_MS,
};

fn describe(a: &WorkerAction) -> String {
    match a {
        WorkerAction::Print(m) => format!("print {}", m),
        WorkerAction::ReportSum { a, b, sum, pause_ms } => format!("{}+{}={} pause {}", a, b, sum, pause_ms),
        WorkerAction::Shutdown => "shutdown".to_string(),
        WorkerAction::ChannelClosed => "closed".to_string(),
    }
}

#[test]
fn worker_prints_messages_and_keeps_running() {
    let a = worker_step(Some(Command::Print("hi".to_string())));
    assert_eq!(describe(&a), "print hi");
    assert!(a.keeps_running());
}

#[test]
fn worker_adds_and_pauses() {
    let a = worker_step(Some(Command::Add(10, 20)));
    assert_eq!(describe(&a), "10+20=30 pause 100");
    assert!(a.keeps_running());
    let b = worker_step(Some(Command::Add(-7, 3)));
    assert_eq!(describe(&b), "-7+3=-4 pause 100");
    let c = worker_step(Some(Command::Add(i32::MAX, 0)));
    assert_eq!(describe(&c), format!("{}+0={} pause 100", i32::MAX, i32::MAX));
    assert_eq!(ADD_PAUSE_MS, 100);
}

#[test]
fn worker_stops_on_shutdown_and_on_closed_channel() {
    let a = worker_step(Some(Command::Shutdown));
    assert_eq!(describe(&a), "shutdown");
    assert!(!a.keeps_running());
    let b = worker_step(None);
    assert_eq!(describe(&b), "closed");
    assert!(!b.keeps_running());
}

#[test]
fn manager_plan_drives_worker_to_shutdown() {
    let plan = manager_plan();
    assert_eq!(plan.len(), 6);
    let mut handled = Vec::new();
    let mut stopped_at = None;
    for (i, step) in plan.into_iter().enumerate() {
        match step {
            ManagerStep::Send(cmd) => {
                let a = worker_step(Some(cmd));
                let running = a.keeps_running();
                handled.push(describe(&a));
                if !running {
                    stopped_at = Some(i);
                    break;
                }
            }
            ManagerStep::Pause(ms) => assert_eq!(ms, MANAGER_PAUSE_MS),
            ManagerStep::JoinWorker => {}
        }
    }
    assert_eq!(
        handled,
        vec![
            "print Hello from main!".to_string(),
            "10+20=30 pause 100".to_string(),
            "5+5=10 pause 100".to_string(),
            "shutdown".to_string(),
        ]
    );
    assert_eq!(stopped_at, Some(4));
    assert_eq!(CHANNEL_CAPACITY, 32);
    assert_eq!(MANAGER_PAUSE_MS, 500);
}

#[test]
fn commands_after_shutdown_are_never_handled() {
    let queue = vec![
        Command::Add(1, 2),
        Command::Shutdown,
        Command::Print("late".to_string()),
    ];
    let mut handled = Vec::new();
    let mut rest = queue.into_iter();
    loop {
        let a = worker_step(rest.next());
        let running = a.keeps_running();
        handled.push(describe(&a));
        if !running {
            break;
        }
    }
    assert_eq!(handled, vec!["1+2=3 pause 100".to_string(), "shutdown".to_string()]);
    assert_eq!(rest.count(), 1);
}

#[test]
fn without_shutdown_the_worker_drains_the_channel() {
    let mut queue = vec![Command::Print("a".to_string()), Command::Add(2, 2)].into_iter();
    let mut handled = Vec::new();
    loop {
        let a = worker_step(queue.next());
        let running = a.keeps_running();
        handled.push(describe(&a));
        if !running {
            break;
        }
    }
    assert_eq!(
        handled,
        vec!["print a".to_string(), "2+2=4 pause 100".to_string(), "closed".to_string()]
    );
}
