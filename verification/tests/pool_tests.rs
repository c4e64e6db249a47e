use quotelementa::pool::{Crawlers, SupervisorAction, TaskOutcome};

#[test]
fn ports_are_sequential_and_never_reused() {
    let mut c = Crawlers::new(4444);
    assert_eq!(c.spawn(), 4444);
    assert_eq!(c.spawn(), 4445);
    assert_eq!(c.spawn(), 4446);
    // A worker terminating frees no port for reallocation.
    let _ = c.on_task_complete(TaskOutcome::Completed);
    assert_eq!(c.spawn(), 4447);
}

#[test]
fn init_failure_spawns_exactly_one_replacement_at_next_port() {
    let mut c = Crawlers::new(4444);
    let _ = c.spawn();
    let _ = c.spawn();
    assert_eq!(c.next_port, 4446);
    let action = c.on_task_complete(TaskOutcome::InitFailed);
    assert_eq!(action, SupervisorAction::Respawn(4446));
    // One worker died, one was spawned: the pool's size is unchanged.
    assert_eq!(c.active, 2);
    assert_eq!(c.next_port, 4447);
}

#[test]
fn run_failure_is_surfaced_not_respawned() {
    let mut c = Crawlers::new(4444);
    let _ = c.spawn();
    let action = c.on_task_complete(TaskOutcome::RunFailed);
    assert_eq!(action, SupervisorAction::Surface);
    assert_eq!(c.active, 0);
    assert!(c.done());
}

#[test]
fn completed_workers_shrink_the_pool() {
    let mut c = Crawlers::new(4444);
    let _ = c.spawn();
    let _ = c.spawn();
    assert!(!c.done());
    assert_eq!(c.on_task_complete(TaskOutcome::Completed), SupervisorAction::Continue);
    assert!(!c.done());
    assert_eq!(c.on_task_complete(TaskOutcome::Completed), SupervisorAction::Continue);
    assert!(c.done());
}
