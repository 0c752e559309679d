use futures_diagnose::common::{Task};
use futures_diagnose::current_task::{current_task, enter, leave, CurrentTask, TaskContext};

#[test]
fn basic() {
    let mut ctx = TaskContext::new();
    assert_eq!(current_task(&ctx), CurrentTask::NoTask);
    let guard = enter(&mut ctx, CurrentTask::System);
    assert_eq!(current_task(&ctx), CurrentTask::System);
    leave(&mut ctx, guard);
    assert_eq!(current_task(&ctx), CurrentTask::NoTask);
}

#[test]
fn nested_contexts_restore_in_order() {
    let mut ctx = TaskContext::new();
    let outer = enter(&mut ctx, CurrentTask::System);
    let task = Task { name: "compute".to_string(), id: 7 };
    let inner = enter(&mut ctx, CurrentTask::Task(task.clone()));
    assert_eq!(current_task(&ctx), CurrentTask::Task(task));
    leave(&mut ctx, inner);
    assert_eq!(current_task(&ctx), CurrentTask::System);
    leave(&mut ctx, outer);
    assert_eq!(current_task(&ctx), CurrentTask::NoTask);
}

#[test]
fn guard_released_out_of_order_restores_its_own_value() {
    let mut ctx = TaskContext::new();
    let outer = enter(&mut ctx, CurrentTask::System);
    let inner = enter(&mut ctx, CurrentTask::Task(Task { name: "a".to_string(), id: 1 }));
    leave(&mut ctx, outer);
    assert_eq!(current_task(&ctx), CurrentTask::NoTask);
    leave(&mut ctx, inner);
    assert_eq!(current_task(&ctx), CurrentTask::System);
}
