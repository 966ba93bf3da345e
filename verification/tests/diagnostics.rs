use cpu_affinity_tool::diagnostics::{
    WindowsEventLogManager, WindowsEventLogPoll, WindowsEventLogState, WorkerReport,
};
use cpu_affinity_tool::event_log::WindowsApplicationFailure;

fn report_for(manager: &WindowsEventLogManager, answer: Option<Result<Option<WindowsApplicationFailure>, String>>, generation: u64) -> WorkerReport {
    if !manager.worker_is_active() {
        return WorkerReport::NoWorker;
    }
    match answer {
        Some(result) => WorkerReport::Finished { generation, result },
        None => WorkerReport::Pending,
    }
}

#[test]
fn manager_does_not_start_a_lookup_before_the_shell_gate() {
    let mut manager = WindowsEventLogManager::new_idle();

    assert!(!manager.worker_is_active());
    assert_eq!(manager.take_spawn_request(), None);
}

#[test]
fn empty_initial_result_schedules_exactly_one_retry() {
    let mut manager = WindowsEventLogManager::new_idle();
    assert!(manager.start_initial_scan(0));
    let generation = manager.take_spawn_request().unwrap();
    let report = report_for(&manager, Some(Ok(None)), generation);
    assert_eq!(manager.poll(report, 50), WindowsEventLogPoll::Completed(Ok(None)));
    assert_eq!(manager.retry_due(), Some(10_050));
    assert_eq!(manager.worker_poll_interval(1_050), Some(9_000));

    let report = report_for(&manager, None, generation);
    assert_eq!(manager.poll(report, 10_050), WindowsEventLogPoll::Unchanged);
    assert!(manager.worker_is_active());
    let generation = manager.take_spawn_request().unwrap();
    let report = report_for(&manager, Some(Ok(None)), generation);
    assert_eq!(manager.poll(report, 10_100), WindowsEventLogPoll::Completed(Ok(None)));

    assert!(!manager.worker_is_active());
    assert_eq!(manager.retry_due(), None);
    assert!(!manager.start_initial_scan(20_000));
}

#[test]
fn errors_do_not_schedule_a_retry() {
    let mut manager = WindowsEventLogManager::new_idle();
    assert!(manager.start_initial_scan(0));
    let generation = manager.take_spawn_request().unwrap();
    let report = report_for(&manager, Some(Err("access denied".to_string())), generation);
    assert_eq!(
        manager.poll(report, 10),
        WindowsEventLogPoll::Completed(Err("access denied".to_string()))
    );
    assert!(!manager.worker_is_active());
    assert_eq!(manager.retry_due(), None);
    assert!(matches!(manager.state(), WindowsEventLogState::Incomplete { .. }));
}

#[test]
fn disable_drops_a_completed_worker_result() {
    let mut manager = WindowsEventLogManager::new_idle();
    assert!(manager.start_initial_scan(0));
    let generation = manager.take_spawn_request().unwrap();
    manager.disable();
    let report = report_for(&manager, Some(Ok(None)), generation);
    assert_eq!(manager.poll(report, 5), WindowsEventLogPoll::Unchanged);
    assert!(!manager.worker_is_active());
    assert_eq!(manager.state(), &WindowsEventLogState::Idle);
}

#[test]
fn slow_or_vanished_workers_mark_the_lookup_incomplete() {
    let failure = WindowsApplicationFailure {
        event_record_id: 7,
        timestamp_utc: "2026-01-01T00:00:00.000Z".to_string(),
        exception_code: 0xc000_0005,
        faulting_module: "ntdll.dll".to_string(),
    };
    let mut manager = WindowsEventLogManager::new_idle();
    assert!(manager.start_initial_scan(0));
    let generation = manager.take_spawn_request().unwrap();
    assert_eq!(manager.worker_poll_interval(10), Some(100));
    assert_eq!(manager.poll(WorkerReport::Pending, 1_999), WindowsEventLogPoll::Unchanged);
    assert_eq!(manager.poll(WorkerReport::Pending, 2_000), WindowsEventLogPoll::MarkedIncomplete);
    assert_eq!(manager.poll(WorkerReport::Pending, 3_000), WindowsEventLogPoll::Unchanged);
    assert_eq!(manager.worker_poll_interval(3_000), Some(2_000));
    let report = WorkerReport::Finished { generation, result: Ok(Some(failure.clone())) };
    assert_eq!(manager.poll(report, 3_100), WindowsEventLogPoll::Completed(Ok(Some(failure.clone()))));
    assert_eq!(manager.state().latest_complete(), Some(&failure));
    assert_eq!(manager.retry_due(), None);

    let mut manager = WindowsEventLogManager::new_idle();
    assert!(manager.start_initial_scan(0));
    assert_eq!(manager.poll(WorkerReport::Disconnected, 1), WindowsEventLogPoll::MarkedIncomplete);
    assert!(!manager.worker_is_active());
}

#[test]
fn spawn_failure_is_reported_in_the_state() {
    let mut manager = WindowsEventLogManager::new_idle();
    assert!(manager.start_initial_scan(0));
    manager.worker_spawn_failed("out of threads");
    assert!(!manager.worker_is_active());
    assert_eq!(
        manager.state(),
        &WindowsEventLogState::Incomplete {
            last_complete: None,
            reason: "failed to start the Windows Event Log worker: out of threads".to_string()
        }
    );
}
