use cpu_affinity_tool::monitor::{DiagnosticEvent, MonitorEventQueue, MONITOR_EVENT_QUEUE_CAPACITY};

#[test]
fn runtime_state_notifications_are_coalesced() {
    let mut queue = MonitorEventQueue::new();

    queue.try_send(DiagnosticEvent::RuntimeStateChanged);
    queue.try_send(DiagnosticEvent::RuntimeStateChanged);

    assert_eq!(queue.try_recv().unwrap(), DiagnosticEvent::RuntimeStateChanged);
    assert!(queue.try_recv().is_none());
}

#[test]
fn full_queue_drops_text_without_blocking_and_requests_repaint() {
    let mut queue = MonitorEventQueue::new();
    for index in 0..MONITOR_EVENT_QUEUE_CAPACITY {
        queue.try_send(DiagnosticEvent::Monitor(format!("event-{index}")));
    }

    queue.try_send(DiagnosticEvent::Monitor("dropped-monitor".to_string()));
    queue.try_send(DiagnosticEvent::Warning("dropped-warning".to_string()));
    queue.try_send(DiagnosticEvent::RuntimeStateChanged);

    for _ in 0..MONITOR_EVENT_QUEUE_CAPACITY {
        queue.try_recv().unwrap();
    }
    let status = queue.finish_drain();
    assert!(status.needs_repaint);
    assert_eq!(status.dropped_monitor_messages, 1);
    assert_eq!(status.dropped_warnings, 1);
}

#[test]
fn finish_drain_reports_remaining_work_after_a_bounded_batch() {
    let mut queue = MonitorEventQueue::new();
    queue.try_send(DiagnosticEvent::Monitor("one".to_string()));
    queue.try_send(DiagnosticEvent::Monitor("two".to_string()));

    queue.try_recv().unwrap();
    assert!(queue.finish_drain().has_more_work);
}

#[test]
fn producer_wakes_the_reactive_gui_for_new_or_coalesced_work() {
    let mut queue = MonitorEventQueue::new();
    let mut wake_count = 0;

    for event in [
        DiagnosticEvent::Monitor("first".to_string()),
        DiagnosticEvent::RuntimeStateChanged,
        DiagnosticEvent::RuntimeStateChanged,
    ] {
        if queue.try_send(event) {
            wake_count += 1;
        }
    }

    assert_eq!(wake_count, 3);
}

// Further cases of this library.

#[test]
fn receiving_a_state_change_allows_the_next_one() {
    let mut queue = MonitorEventQueue::new();
    assert!(queue.try_send(DiagnosticEvent::RuntimeStateChanged));
    assert_eq!(queue.try_recv(), Some(DiagnosticEvent::RuntimeStateChanged));
    assert!(queue.try_send(DiagnosticEvent::RuntimeStateChanged));
    assert_eq!(queue.try_recv(), Some(DiagnosticEvent::RuntimeStateChanged));
    let status = queue.finish_drain();
    assert!(!status.needs_repaint);
    assert!(!status.has_more_work);
}

#[test]
fn a_full_queue_drops_a_first_state_change_but_keeps_the_repaint() {
    let mut queue = MonitorEventQueue::new();
    for index in 0..MONITOR_EVENT_QUEUE_CAPACITY {
        queue.try_send(DiagnosticEvent::Warning(format!("w{index}")));
    }
    assert!(!queue.try_send(DiagnosticEvent::RuntimeStateChanged));
    let status = queue.finish_drain();
    assert!(status.needs_repaint);
    assert!(status.has_more_work);
    assert_eq!(status.dropped_warnings, 0);
}
