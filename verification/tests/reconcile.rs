use cpu_affinity_tool::process::{PriorityClass, ProcessSettingsApplyOutcome};
use cpu_affinity_tool::reconcile::{affinity_mask_from_cores, evaluate_rule_settings, format_hex_upper, PidCheck};
use cpu_affinity_tool::scheduling::{
    is_confirmed_protected_process, is_protected_level, process_instance_token,
    process_settings_plan, PROTECTION_LEVEL_NONE, PROTECTION_LEVEL_WINTCB_LIGHT,
};

#[test]
fn affinity_mask_rejects_empty_and_out_of_range_cores() {
    assert_eq!(
        affinity_mask_from_cores(&[]),
        Err("affinity mask is empty".to_string())
    );
    let error = affinity_mask_from_cores(&[usize::BITS as usize]).unwrap_err();
    assert!(error.contains("out of range"));
}

#[test]
fn protection_level_none_is_not_protected_but_wintcb_light_is() {
    assert!(!is_protected_level(PROTECTION_LEVEL_NONE));
    assert!(is_protected_level(PROTECTION_LEVEL_WINTCB_LIGHT));
}

#[test]
fn protection_diagnostic_rejects_a_reused_pid_instance() {
    assert!(!is_confirmed_protected_process(
        100,
        101,
        PROTECTION_LEVEL_WINTCB_LIGHT
    ));
    assert!(!is_confirmed_protected_process(
        100,
        100,
        PROTECTION_LEVEL_NONE
    ));
    assert!(is_confirmed_protected_process(
        100,
        100,
        PROTECTION_LEVEL_WINTCB_LIGHT
    ));
}

// Further cases of this library.

#[test]
fn affinity_masks_set_one_bit_per_core() {
    assert_eq!(affinity_mask_from_cores(&[1, 2]), Ok(0b110));
    assert_eq!(affinity_mask_from_cores(&[0, 0]), Ok(1));
    assert_eq!(
        affinity_mask_from_cores(&[3, 200]),
        Err("core index 200 out of range for affinity mask".to_string())
    );
}

#[test]
fn instance_tokens_join_the_creation_time_halves() {
    assert_eq!(process_instance_token(1, 2), (1u64 << 32) | 2);
}

#[test]
fn settings_plans_change_only_what_differs() {
    let plan = process_settings_plan(42, 7, 7, 0b001, 0x20, 0b110, PriorityClass::High, true).unwrap();
    assert!(plan.outcome.affinity_changed && plan.outcome.priority_changed);
    assert_eq!(plan.outcome.previous_priority, PriorityClass::Normal);
    assert!(plan.set_affinity && plan.set_priority);
    let plan = process_settings_plan(42, 7, 7, 0b001, 0x20, 0b110, PriorityClass::High, false).unwrap();
    assert!(!plan.set_affinity && !plan.set_priority);
    assert_eq!(
        process_settings_plan(42, 7, 8, 1, 0x20, 1, PriorityClass::Normal, true),
        Err("Failed to apply settings for process 42: process instance no longer matches the tracked PID".to_string())
    );
    assert_eq!(
        process_settings_plan(42, 7, 7, 1, 0x20, 0, PriorityClass::Normal, true),
        Err("affinity mask is empty".to_string())
    );
}

#[test]
fn monitor_pass_reports_corrections_and_match_changes() {
    let checks = [(
        89,
        PidCheck::Checked(ProcessSettingsApplyOutcome {
            previous_affinity: 0b001,
            previous_priority: PriorityClass::Normal,
            affinity_changed: true,
            priority_changed: true,
        }),
    )];
    let report = evaluate_rule_settings("game", 0b110, PriorityClass::High, true, true, &checks);
    assert!(!report.settings_matched);
    assert!(report.changed);
    assert_eq!(
        report.notifications,
        vec![
            "Fixed affinity for game (PID 89): 1 -> 6".to_string(),
            "Fixed priority for game (PID 89): Normal -> High".to_string(),
        ]
    );
    let quiet = evaluate_rule_settings("game", 0b110, PriorityClass::High, false, true, &checks);
    assert!(quiet.notifications.is_empty());
    let matched = [(
        90,
        PidCheck::Checked(ProcessSettingsApplyOutcome {
            previous_affinity: 0b110,
            previous_priority: PriorityClass::High,
            affinity_changed: false,
            priority_changed: false,
        }),
    )];
    let report = evaluate_rule_settings("game", 0b110, PriorityClass::High, true, false, &matched);
    assert!(report.settings_matched && report.changed && report.notifications.is_empty());
    let untracked = evaluate_rule_settings("game", 0b110, PriorityClass::High, true, false, &[(1, PidCheck::Untracked)]);
    assert!(!untracked.settings_matched && !untracked.changed);
}

#[test]
fn hex_formatting_is_upper_case() {
    assert_eq!(format_hex_upper(0), "0");
    assert_eq!(format_hex_upper(0xBEEF), "BEEF");
}
