use gstudy::task_executor::{Executor, InputEvent, TaskOperation, TaskState};

#[test]
fn task_state_follows_operations() {
    let mut t = TaskState::new();
    assert!(t.waits());
    assert!(!t.renders());
    assert!(t.running());
    assert_eq!(t.apply(TaskOperation::Resume), None);
    assert!(!t.renders());
    assert!(!t.waits());
    t.apply(TaskOperation::Start);
    assert!(t.renders());
    t.apply(TaskOperation::Pause);
    assert!(!t.renders());
    assert!(t.waits());
    assert_eq!(t.apply(TaskOperation::Input(InputEvent::MouseMove)), Some(InputEvent::MouseMove));
    t.apply(TaskOperation::Resume);
    assert!(t.renders());
    t.apply(TaskOperation::Stop);
    assert!(!t.running());
    t.apply(TaskOperation::Idle);
    assert!(!t.running());
}

#[test]
fn executor_runs_and_starts_tasks() {
    let mut e = Executor::new();
    let names: Vec<&str> = e.module_list().iter().map(|m| m.name).collect();
    assert_eq!(names, vec!["hardware gpu renderer", "software renderer", "ray tracing"]);
    assert_eq!(e.run(2), 0);
    assert_eq!(e.run(0), 1);
    assert_eq!(e.render(), vec![0, 1]);
    assert!(e.render().is_empty());
    assert_eq!(e.pause(1), Some(TaskOperation::Pause));
    assert_eq!(e.resume(1), Some(TaskOperation::Resume));
    assert_eq!(e.stop(0), Some(TaskOperation::Stop));
    assert_eq!(e.stop(7), None);
    let mut ids = e.tasks();
    ids.sort();
    assert_eq!(ids, vec![0, 1]);
    let mut all = e.stop_all();
    all.sort();
    assert_eq!(all, vec![0, 1]);
    assert_eq!(e.run(1), 2);
    assert_eq!(e.render(), vec![2]);
}
