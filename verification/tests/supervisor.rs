use allfeat_node::supervisor::{Supervisor, SupervisorAction, TaskOutcome, TaskStatus};

fn three_tasks() -> Supervisor {
    let mut supervisor = Supervisor::new();
    assert_eq!(supervisor.spawn("telemetry", None, false, false), Some(0));
    assert_eq!(supervisor.spawn("grandpa-voter", None, true, true), Some(1));
    assert_eq!(
        supervisor.spawn("offchain-workers-runner", Some("offchain-work"), false, false),
        Some(2)
    );
    supervisor
}

#[test]
fn new_supervisor_runs_nothing() {
    let supervisor = Supervisor::new();
    assert_eq!(supervisor.len(), 0);
    assert!(!supervisor.is_shutting_down());
    assert_eq!(supervisor.status(0), None);
    assert_eq!(supervisor.is_essential(0), None);
}

#[test]
fn spawned_tasks_run_and_keep_their_class() {
    let supervisor = three_tasks();
    assert_eq!(supervisor.len(), 3);
    assert_eq!(supervisor.status(0), Some(TaskStatus::Running));
    assert_eq!(supervisor.status(1), Some(TaskStatus::Running));
    assert_eq!(supervisor.status(2), Some(TaskStatus::Running));
    assert_eq!(supervisor.is_essential(0), Some(false));
    assert_eq!(supervisor.is_essential(1), Some(true));
    assert_eq!(supervisor.is_essential(2), Some(false));
    assert_eq!(supervisor.status(3), None);
}

#[test]
fn essential_exit_stops_every_other_task() {
    let mut supervisor = three_tasks();
    assert_eq!(
        supervisor.exit(1, TaskOutcome::Failed),
        SupervisorAction::Shutdown(vec![0, 2])
    );
    assert!(supervisor.is_shutting_down());
    assert_eq!(supervisor.status(0), Some(TaskStatus::Stopped));
    assert_eq!(supervisor.status(1), Some(TaskStatus::Failed));
    assert_eq!(supervisor.status(2), Some(TaskStatus::Stopped));
}

#[test]
fn essential_exit_without_error_is_fatal_too() {
    let mut supervisor = three_tasks();
    assert_eq!(
        supervisor.exit(1, TaskOutcome::Completed),
        SupervisorAction::Shutdown(vec![0, 2])
    );
    assert_eq!(supervisor.status(1), Some(TaskStatus::Completed));
    assert!(supervisor.is_shutting_down());
}

#[test]
fn best_effort_failure_is_recorded_and_nothing_else() {
    let mut supervisor = three_tasks();
    assert_eq!(supervisor.exit(0, TaskOutcome::Failed), SupervisorAction::Continue);
    assert!(!supervisor.is_shutting_down());
    assert_eq!(supervisor.status(0), Some(TaskStatus::Failed));
    assert_eq!(supervisor.status(1), Some(TaskStatus::Running));
    assert_eq!(supervisor.status(2), Some(TaskStatus::Running));
    assert_eq!(supervisor.exit(2, TaskOutcome::Completed), SupervisorAction::Continue);
    assert_eq!(supervisor.status(2), Some(TaskStatus::Completed));
}

#[test]
fn tasks_that_ended_before_are_not_stopped_again() {
    let mut supervisor = three_tasks();
    assert_eq!(supervisor.exit(0, TaskOutcome::Failed), SupervisorAction::Continue);
    assert_eq!(
        supervisor.exit(1, TaskOutcome::Failed),
        SupervisorAction::Shutdown(vec![2])
    );
    assert_eq!(supervisor.status(0), Some(TaskStatus::Failed));
    assert_eq!(supervisor.status(2), Some(TaskStatus::Stopped));
}

#[test]
fn shutdown_is_entered_exactly_once() {
    let mut supervisor = Supervisor::new();
    supervisor.spawn("babe-proposer", Some("block-authoring"), true, true);
    supervisor.spawn("grandpa-voter", None, true, true);
    supervisor.spawn("telemetry", None, false, false);
    let events = [
        (2usize, TaskOutcome::Failed),
        (1, TaskOutcome::Failed),
        (0, TaskOutcome::Failed),
        (1, TaskOutcome::Completed),
        (2, TaskOutcome::Completed),
        (7, TaskOutcome::Failed),
    ];
    let mut shutdowns = 0;
    for (id, outcome) in events {
        if let SupervisorAction::Shutdown(_) = supervisor.exit(id, outcome) {
            shutdowns += 1;
        }
    }
    assert_eq!(shutdowns, 1);
    assert!(supervisor.is_shutting_down());
    assert_eq!(supervisor.status(0), Some(TaskStatus::Stopped));
    assert_eq!(supervisor.status(1), Some(TaskStatus::Failed));
    assert_eq!(supervisor.status(2), Some(TaskStatus::Failed));
}

#[test]
fn exit_of_an_unknown_or_ended_task_is_ignored() {
    let mut supervisor = three_tasks();
    assert_eq!(supervisor.exit(9, TaskOutcome::Failed), SupervisorAction::Ignored);
    assert_eq!(supervisor.exit(0, TaskOutcome::Completed), SupervisorAction::Continue);
    assert_eq!(supervisor.exit(0, TaskOutcome::Failed), SupervisorAction::Ignored);
    assert_eq!(supervisor.status(0), Some(TaskStatus::Completed));
    assert!(!supervisor.is_shutting_down());
}

#[test]
fn nothing_is_spawned_once_shutdown_has_begun() {
    let mut supervisor = three_tasks();
    supervisor.exit(1, TaskOutcome::Failed);
    assert_eq!(supervisor.spawn("late", None, false, false), None);
    assert_eq!(supervisor.spawn("late-essential", None, true, false), None);
    assert_eq!(supervisor.len(), 3);
    assert_eq!(supervisor.exit(0, TaskOutcome::Failed), SupervisorAction::Ignored);
}

#[test]
fn lone_essential_task_shuts_down_with_nothing_to_stop() {
    let mut supervisor = Supervisor::new();
    supervisor.spawn("grandpa-voter", None, true, true);
    assert_eq!(
        supervisor.exit(0, TaskOutcome::Failed),
        SupervisorAction::Shutdown(vec![])
    );
}
