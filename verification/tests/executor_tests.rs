use jc_os::auth::AuthManager;
use jc_os::bridge::{EventBridge, Key};
use jc_os::executor::Executor;
use jc_os::fs::RamFileSystem;
use jc_os::rtc::RtcTime;
use jc_os::shell::{ConsoleOp, ShellTask};
use jc_os::task::{yield_now, ClockTask, CounterTask, Resources, Task, TaskId, TaskState};

fn resources() -> Resources {
    Resources {
        bridge: EventBridge::new(100),
        fs: RamFileSystem::new(),
        auth: AuthManager::new(),
        console: Vec::new(),
        now: RtcTime { seconds: 0, minutes: 0, hours: 0 },
    }
}

#[test]
fn sweep_resumes_each_task_once_before_any_twice() {
    let mut res = resources();
    let mut ex = Executor::new();
    ex.spawn(Task::new(TaskId::new(1), TaskState::YieldOnce(yield_now())));
    ex.spawn(Task::new(TaskId::new(2), TaskState::YieldOnce(yield_now())));
    ex.spawn(Task::new(TaskId::new(3), TaskState::YieldOnce(yield_now())));
    ex.run_ready_tasks(&mut res);
    // Every task yielded once, so all are still queued, each resumed
    // exactly once — none twice before the others had their turn.
    assert_eq!(ex.task_queue.len(), 3);
    for t in ex.task_queue.iter() {
        assert_eq!(t.resumes, 1);
    }
    // The second sweep finds each suspension point spent and drops them.
    ex.run_ready_tasks(&mut res);
    assert_eq!(ex.task_queue.len(), 0);
}

#[test]
fn sweep_preserves_queue_order() {
    let mut res = resources();
    let mut ex = Executor::new();
    for n in 1..=4u64 {
        ex.spawn(Task::new(TaskId::new(n), TaskState::Counter(CounterTask::new())));
    }
    ex.run_ready_tasks(&mut res);
    let ids: Vec<u64> = ex.task_queue.iter().map(|t| t.id.0).collect();
    assert_eq!(ids, vec![1, 2, 3, 4]);
}

#[test]
fn counter_task_counts_resumptions() {
    let mut res = resources();
    let mut ex = Executor::new();
    ex.spawn(Task::new(TaskId::new(9), TaskState::Counter(CounterTask::new())));
    for _ in 0..5 {
        ex.run_ready_tasks(&mut res);
    }
    match &ex.task_queue.front().unwrap().state {
        TaskState::Counter(c) => assert_eq!(c.count, 5),
        _ => panic!("counter task expected"),
    }
}

#[test]
fn clock_task_redraws_on_new_second() {
    let mut res = resources();
    res.now = RtcTime { seconds: 56, minutes: 34, hours: 12 };
    let mut ex = Executor::new();
    ex.spawn(Task::new(TaskId::new(1), TaskState::Clock(ClockTask::new())));
    ex.run_ready_tasks(&mut res);
    assert_eq!(res.console, vec![ConsoleOp::Clock("12:34:56".to_string())]);
    // Same second again: no redraw.
    ex.run_ready_tasks(&mut res);
    assert_eq!(res.console.len(), 1);
    res.now = RtcTime { seconds: 57, minutes: 34, hours: 12 };
    ex.run_ready_tasks(&mut res);
    assert_eq!(res.console.last(), Some(&ConsoleOp::Clock("12:34:57".to_string())));
}

#[test]
fn shell_task_runs_under_the_executor() {
    let mut res = resources();
    let mut ex = Executor::new();
    let shell = ShellTask::new(&mut res.console);
    ex.spawn(Task::new(TaskId::new(0), TaskState::Shell(shell)));
    ex.spawn(Task::new(TaskId::new(1), TaskState::Clock(ClockTask::new())));
    for c in "andre\n".chars() {
        assert!(res.bridge.push(Key::Char(c)));
    }
    for c in "admin123\n".chars() {
        assert!(res.bridge.push(Key::Char(c)));
    }
    for _ in 0..20 {
        ex.run_ready_tasks(&mut res);
    }
    assert!(res.console.iter().any(
        |o| matches!(o, ConsoleOp::Line(s) if s == "\nWelcome back, andre!")
    ));
    assert_eq!(res.auth.get_current_username(), "andre");
}
