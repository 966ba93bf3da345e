use cpu_affinity_tool::models::{AppStateStorage, CpuSchema};
use cpu_affinity_tool::preferences::{
    set_theme_index, set_windows_event_log_diagnostics, toggle_process_monitoring,
};

fn sample_state() -> AppStateStorage {
    AppStateStorage {
        version: 5,
        groups: vec![],
        cpu_schema: CpuSchema {
            model: "Test CPU".to_string(),
            clusters: Vec::new(),
        },
        theme_index: 0,
        process_monitoring_enabled: false,
        windows_event_log_diagnostics_enabled: true,
        start_minimized: false,
        rule_identities: None,
        loaded_version: 5,
        pending_pre_v6_backup: false,
    }
}

#[test]
fn test_theme_selection_preserves_index_contract() {
    let mut state = sample_state();
    assert!(set_theme_index(&mut state, 1));
    assert_eq!(state.theme_index, 1);
    assert!(set_theme_index(&mut state, 2));
    assert_eq!(state.theme_index, 2);
    assert!(set_theme_index(&mut state, 0));
    assert_eq!(state.theme_index, 0);
}

#[test]
fn test_toggle_process_monitoring_flips_flag() {
    let mut state = sample_state();
    toggle_process_monitoring(&mut state);
    assert!(state.process_monitoring_enabled);
}

#[test]
fn event_log_diagnostics_preference_is_idempotent() {
    let mut state = sample_state();

    set_windows_event_log_diagnostics(&mut state, false).unwrap();
    set_windows_event_log_diagnostics(&mut state, false).unwrap();

    assert!(!state.windows_event_log_diagnostics_enabled);
}

#[test]
fn theme_out_of_range_or_unchanged_is_refused() {
    let mut state = sample_state();
    assert!(!set_theme_index(&mut state, 3));
    assert!(!set_theme_index(&mut state, 0));
    assert_eq!(state.theme_index, 0);
}

#[test]
fn toggling_monitoring_twice_restores_it() {
    let mut state = sample_state();
    toggle_process_monitoring(&mut state);
    toggle_process_monitoring(&mut state);
    assert_eq!(state, sample_state());
}
