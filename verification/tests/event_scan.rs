use cpu_affinity_tool::event_log::{
    hresult_from_win32, EventSystemValues, NamedEventData, ERROR_NO_MORE_ITEMS, ERROR_TIMEOUT,
};
use cpu_affinity_tool::event_scan::{
    check_rendered_shape, render_probe_outcome, ApplicationErrorScan, ScanAction, ScanEvent,
    ERROR_INSUFFICIENT_BUFFER, EVENT_BATCH_SIZE, MAX_SCANNED_EVENTS,
};

const EXE: &str = r"C:\Games\game.exe";

fn system(provider: &str, event_id: u16, version: u8, record: u64) -> EventSystemValues {
    EventSystemValues {
        provider: provider.to_string(),
        event_id,
        version,
        event_record_id: record,
        timestamp_utc: "2026-08-29T12:00:00.000Z".to_string(),
    }
}

fn crash_data() -> NamedEventData {
    NamedEventData {
        app_name: Some("game.exe".to_string()),
        app_path: Some(EXE.to_string()),
        faulting_module_name: Some("ntdll.dll".to_string()),
        faulting_module_path: None,
        exception_code: Some("0xc0000005".to_string()),
    }
}

#[test]
fn scan_passes_other_records_and_finds_the_crash_of_the_executable() {
    let (mut scan, action) = ApplicationErrorScan::start(EXE.to_string());
    assert_eq!(action, ScanAction::FetchBatch { max: EVENT_BATCH_SIZE });
    assert_eq!(scan.step(ScanEvent::Batch(Ok(2))), ScanAction::RenderSystem);
    assert_eq!(
        scan.step(ScanEvent::System(Ok(Some(system("Other", 1000, 0, 1))))),
        ScanAction::RenderSystem
    );
    assert_eq!(
        scan.step(ScanEvent::System(Ok(Some(system("Application Error", 1000, 1, 2))))),
        ScanAction::RenderNamed
    );
    assert_eq!(
        scan.step(ScanEvent::Named(Ok(crash_data()))),
        ScanAction::Canonicalize {
            event_path: EXE.to_string(),
            executable_path: EXE.to_string()
        }
    );
    match scan.step(ScanEvent::Canonical(None)) {
        ScanAction::Finish(Ok(Some(failure))) => {
            assert_eq!(failure.event_record_id, 2);
            assert_eq!(failure.exception_code, 0xc000_0005);
            assert_eq!(failure.faulting_module, "ntdll.dll");
        }
        other => panic!("expected the crash, got {other:?}"),
    }
    assert_eq!(scan.counters.scanned, 2);
    assert_eq!(scan.counters.matching_candidates, 1);
    assert_eq!(scan.counters.data_render_successes, 1);
}

#[test]
fn scan_of_a_log_without_records_finds_nothing() {
    let (mut scan, _) = ApplicationErrorScan::start(EXE.to_string());
    let complete = hresult_from_win32(ERROR_NO_MORE_ITEMS);
    assert_eq!(scan.step(ScanEvent::Batch(Err(complete))), ScanAction::Finish(Ok(None)));
    let (mut scan, _) = ApplicationErrorScan::start(EXE.to_string());
    assert_eq!(
        scan.step(ScanEvent::Batch(Err(hresult_from_win32(ERROR_TIMEOUT)))),
        ScanAction::Finish(Ok(None))
    );
}

#[test]
fn failed_or_invalid_reads_end_the_scan_with_an_error() {
    let (mut scan, _) = ApplicationErrorScan::start(EXE.to_string());
    assert_eq!(
        scan.step(ScanEvent::Batch(Err(hresult_from_win32(5)))),
        ScanAction::Finish(Err("could not read the local Windows Application log".to_string()))
    );
    let (mut scan, _) = ApplicationErrorScan::start(EXE.to_string());
    assert_eq!(
        scan.step(ScanEvent::Batch(Ok(0))),
        ScanAction::Finish(Err("Windows Event Log returned an invalid event batch".to_string()))
    );
    let (mut scan, _) = ApplicationErrorScan::start(EXE.to_string());
    assert_eq!(
        scan.step(ScanEvent::Batch(Ok(EVENT_BATCH_SIZE + 1))),
        ScanAction::Finish(Err("Windows Event Log returned an invalid event batch".to_string()))
    );
}

#[test]
fn scan_where_no_record_renders_reports_it() {
    let (mut scan, _) = ApplicationErrorScan::start(EXE.to_string());
    scan.step(ScanEvent::Batch(Ok(1)));
    assert_eq!(scan.step(ScanEvent::System(Err("gone".to_string()))), ScanAction::FetchBatch { max: EVENT_BATCH_SIZE });
    assert_eq!(
        scan.step(ScanEvent::Batch(Err(hresult_from_win32(ERROR_NO_MORE_ITEMS)))),
        ScanAction::Finish(Err("could not render any Windows Event Log records".to_string()))
    );
}

#[test]
fn version_zero_record_falls_back_to_positional_data() {
    let (mut scan, _) = ApplicationErrorScan::start(EXE.to_string());
    scan.step(ScanEvent::Batch(Ok(1)));
    scan.step(ScanEvent::System(Ok(Some(system("Application Error", 1000, 0, 9)))));
    assert_eq!(scan.step(ScanEvent::Named(Err("no named data".to_string()))), ScanAction::RenderPositional);
    assert_eq!(
        scan.step(ScanEvent::Positional(Err("no user data".to_string()))),
        ScanAction::FetchBatch { max: EVENT_BATCH_SIZE }
    );
    assert_eq!(
        scan.step(ScanEvent::Batch(Err(hresult_from_win32(ERROR_NO_MORE_ITEMS)))),
        ScanAction::Finish(Err("could not render any matching Windows Event Log records".to_string()))
    );
}

#[test]
fn failed_named_data_of_later_versions_passes_the_record() {
    let (mut scan, _) = ApplicationErrorScan::start(EXE.to_string());
    scan.step(ScanEvent::Batch(Ok(2)));
    scan.step(ScanEvent::System(Ok(Some(system("Application Error", 1000, 2, 9)))));
    assert_eq!(scan.step(ScanEvent::Named(Err("no named data".to_string()))), ScanAction::RenderSystem);
}

#[test]
fn scan_stops_after_its_record_limit() {
    let (mut scan, _) = ApplicationErrorScan::start(EXE.to_string());
    let mut action = scan.step(ScanEvent::Batch(Ok(EVENT_BATCH_SIZE)));
    let mut renders = 0;
    loop {
        action = match action {
            ScanAction::RenderSystem => {
                renders += 1;
                scan.step(ScanEvent::System(Ok(None)))
            }
            ScanAction::FetchBatch { .. } => scan.step(ScanEvent::Batch(Ok(EVENT_BATCH_SIZE))),
            other => break assert_eq!(other, ScanAction::Finish(Ok(None))),
        };
    }
    assert_eq!(renders, MAX_SCANNED_EVENTS);
}

#[test]
fn render_probe_decides_how_a_record_is_rendered() {
    let insufficient = hresult_from_win32(ERROR_INSUFFICIENT_BUFFER);
    assert_eq!(render_probe_outcome(Ok(()), 0, 0, 16), Ok(None));
    assert_eq!(
        render_probe_outcome(Ok(()), 8, 0, 16),
        Err("Windows Event Log record has an invalid render probe".to_string())
    );
    assert_eq!(
        render_probe_outcome(Err(hresult_from_win32(5)), 64, 2, 16),
        Err("Windows Event Log record is not available".to_string())
    );
    assert_eq!(render_probe_outcome(Err(insufficient), 33, 2, 16), Ok(Some(3)));
    assert_eq!(render_probe_outcome(Err(insufficient), 32, 2, 16), Ok(Some(2)));
    assert_eq!(
        render_probe_outcome(Err(insufficient), 65537, 2, 16),
        Err("Windows Event Log record is not available".to_string())
    );
}

#[test]
fn rendered_shape_is_checked_against_the_buffer() {
    assert_eq!(check_rendered_shape(48, 3, 3, 16), Ok(()));
    assert_eq!(
        check_rendered_shape(48, 4, 3, 16),
        Err("Windows Event Log record has an unexpected shape".to_string())
    );
    assert_eq!(
        check_rendered_shape(64, 1, 3, 16),
        Err("Windows Event Log record has an unexpected shape".to_string())
    );
}
