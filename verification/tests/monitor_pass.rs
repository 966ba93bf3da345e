use cpu_affinity_tool::ids::{GroupId, RuleId};
use cpu_affinity_tool::launch::RuntimeRegistry;
use cpu_affinity_tool::models::{AppStateStorage, AppToRun, CoreGroup, CpuSchema};
use cpu_affinity_tool::monitor_pass::{
    collect_program_settings, plan_process_settings_requests, process_settings_iteration_with_os,
    ProcessSettingsIterationOutcome, ProcessSettingsRequest,
};
use cpu_affinity_tool::process::{PriorityClass, ProcessSettingsApplyOutcome};
use cpu_affinity_tool::reconcile::PidCheck;
use std::collections::HashMap;

struct FakeProcessSettingsOs {
    affinity: HashMap<u32, usize>,
    priority: HashMap<u32, PriorityClass>,
    tokens: HashMap<u32, u64>,
    affinity_sets: Vec<(u32, usize)>,
    priority_sets: Vec<(u32, PriorityClass)>,
}

impl FakeProcessSettingsOs {
    fn new(affinity: HashMap<u32, usize>, priority: HashMap<u32, PriorityClass>) -> Self {
        Self {
            affinity,
            priority,
            tokens: HashMap::new(),
            affinity_sets: Vec::new(),
            priority_sets: Vec::new(),
        }
    }
}

impl FakeProcessSettingsOs {
    fn apply_process_settings_if_instance(
        &mut self,
        pid: u32,
        expected_instance_token: u64,
        mask: usize,
        priority: PriorityClass,
        apply_changes: bool,
    ) -> Result<ProcessSettingsApplyOutcome, String> {
        if self.tokens.get(&pid).copied() != Some(expected_instance_token) {
            return Err("process instance no longer matches the tracked PID".to_string());
        }
        let previous_affinity = self
            .affinity
            .get(&pid)
            .copied()
            .ok_or_else(|| format!("missing affinity for pid {pid}"))?;
        let previous_priority = self
            .priority
            .get(&pid)
            .copied()
            .ok_or_else(|| format!("missing priority for pid {pid}"))?;
        let affinity_changed = previous_affinity != mask;
        let priority_changed = previous_priority != priority;
        if apply_changes && affinity_changed {
            self.affinity.insert(pid, mask);
            self.affinity_sets.push((pid, mask));
        }
        if apply_changes && priority_changed {
            self.priority.insert(pid, priority);
            self.priority_sets.push((pid, priority));
        }
        Ok(ProcessSettingsApplyOutcome {
            previous_affinity,
            previous_priority,
            affinity_changed,
            priority_changed,
        })
    }
}

/// Plans the pass, answers each request through the fake system, and finishes the pass.
fn run_pass(
    apps: &mut RuntimeRegistry,
    state: &AppStateStorage,
    monitoring_enabled: bool,
    os: &mut FakeProcessSettingsOs,
) -> ProcessSettingsIterationOutcome {
    let requests = plan_process_settings_requests(apps, state, monitoring_enabled);
    let answers: Vec<_> = requests
        .iter()
        .map(|r| {
            os.apply_process_settings_if_instance(r.pid, r.instance_token, r.mask, r.priority, r.apply_changes)
        })
        .collect();
    process_settings_iteration_with_os(apps, state, monitoring_enabled, &answers)
}

fn media_group() -> CoreGroup {
    CoreGroup {
        name: "Media".to_string(),
        cores: vec![0],
        programs: vec![AppToRun::new_path(
            r"C:\media.lnk".to_string(),
            vec![],
            r"C:\media.exe".to_string(),
            PriorityClass::Normal,
            false,
        )],
        is_hidden: false,
        run_all_button: true,
    }
}

fn games_group() -> CoreGroup {
    CoreGroup {
        name: "Games".to_string(),
        cores: vec![1, 2],
        programs: vec![AppToRun::new_path(
            r"C:\game.lnk".to_string(),
            vec![],
            r"C:\game.exe".to_string(),
            PriorityClass::High,
            false,
        )],
        is_hidden: false,
        run_all_button: true,
    }
}

fn state_with(groups: Vec<CoreGroup>) -> AppStateStorage {
    AppStateStorage {
        version: 5,
        groups,
        cpu_schema: CpuSchema {
            model: "Test CPU".to_string(),
            clusters: Vec::new(),
        },
        theme_index: 0,
        process_monitoring_enabled: false,
        windows_event_log_diagnostics_enabled: true,
        start_minimized: false,
        rule_identities: None,
        loaded_version: 5,
        pending_pre_v6_backup: false,
    }
}

fn sample_state() -> AppStateStorage {
    state_with(vec![media_group(), games_group()])
}

fn group_id(value: usize) -> GroupId {
    GroupId(format!("group-{value}"))
}

fn rule_id(value: usize) -> RuleId {
    RuleId(format!("rule-{value}"))
}

fn seed_tracked_instance(apps: &mut RuntimeRegistry, key: &str, pid: u32, os: &mut FakeProcessSettingsOs) {
    let token = u64::from(pid) + 10_000;
    let app = apps.apps.iter_mut().find(|app| app.key == key).unwrap();
    app.pid_instance_tokens.push((pid, token));
    os.tokens.insert(pid, token);
}

fn app<'a>(apps: &'a RuntimeRegistry, key: &str) -> &'a cpu_affinity_tool::launch::RunningApp {
    apps.apps.iter().find(|app| app.key == key).unwrap()
}

#[test]
fn test_remap_group_and_rule_ids_by_app_key() {
    let state = sample_state();
    let key = state.groups[1].programs[0].launch_target_label();
    let mut apps = RuntimeRegistry::new();
    apps.add_running_app(&key, 77, group_id(1), rule_id(0));
    apps.set_rule_ids(&key, group_id(9), rule_id(9));

    let reordered_state = state_with(vec![games_group()]);
    let mut os = FakeProcessSettingsOs::new(
        HashMap::from([(77, 0b110)]),
        HashMap::from([(77, PriorityClass::High)]),
    );
    seed_tracked_instance(&mut apps, &key, 77, &mut os);

    let outcome = run_pass(&mut apps, &reordered_state, false, &mut os);

    assert!(!outcome.changed);
    let app = app(&apps, &key);
    assert_eq!(app.group_id, group_id(0));
    assert_eq!(app.rule_id, rule_id(0));
}

#[test]
fn test_mismatch_without_monitoring_updates_status_without_correction() {
    let state = sample_state();
    let key = state.groups[1].programs[0].launch_target_label();
    let mut apps = RuntimeRegistry::new();
    apps.add_running_app(&key, 88, group_id(1), rule_id(0));
    let mut os = FakeProcessSettingsOs::new(
        HashMap::from([(88, 0b001)]),
        HashMap::from([(88, PriorityClass::Normal)]),
    );
    seed_tracked_instance(&mut apps, &key, 88, &mut os);

    let outcome = run_pass(&mut apps, &state, false, &mut os);

    assert!(outcome.changed);
    assert!(outcome.notifications.is_empty());
    assert!(os.affinity_sets.is_empty());
    assert!(os.priority_sets.is_empty());
    assert!(!app(&apps, &key).settings_matched);
}

#[test]
fn test_mismatch_with_monitoring_triggers_corrections_and_notifications() {
    let state = sample_state();
    let key = state.groups[1].programs[0].launch_target_label();
    let mut apps = RuntimeRegistry::new();
    apps.add_running_app(&key, 89, group_id(1), rule_id(0));
    let mut os = FakeProcessSettingsOs::new(
        HashMap::from([(89, 0b001)]),
        HashMap::from([(89, PriorityClass::Normal)]),
    );
    seed_tracked_instance(&mut apps, &key, 89, &mut os);

    let outcome = run_pass(&mut apps, &state, true, &mut os);

    assert!(outcome.changed);
    assert_eq!(os.affinity_sets, vec![(89, 0b110)]);
    assert_eq!(os.priority_sets, vec![(89, PriorityClass::High)]);
    assert_eq!(outcome.notifications.len(), 2);
    assert_eq!(outcome.notifications[0], "Fixed affinity for game (PID 89): 1 -> 6");
    assert_eq!(outcome.notifications[1], "Fixed priority for game (PID 89): Normal -> High");
    assert!(!app(&apps, &key).settings_matched);
}

#[test]
fn test_second_pass_returns_to_settings_matched_after_correction() {
    let state = sample_state();
    let key = state.groups[1].programs[0].launch_target_label();
    let mut apps = RuntimeRegistry::new();
    apps.add_running_app(&key, 90, group_id(1), rule_id(0));
    let mut os = FakeProcessSettingsOs::new(
        HashMap::from([(90, 0b001)]),
        HashMap::from([(90, PriorityClass::Normal)]),
    );
    seed_tracked_instance(&mut apps, &key, 90, &mut os);

    let first = run_pass(&mut apps, &state, true, &mut os);
    assert!(first.changed);
    assert!(!app(&apps, &key).settings_matched);

    let second = run_pass(&mut apps, &state, true, &mut os);
    assert!(second.changed);
    assert!(second.notifications.is_empty());
    assert!(app(&apps, &key).settings_matched);
}

#[test]
fn test_matched_settings_produce_no_notifications() {
    let state = sample_state();
    let key = state.groups[0].programs[0].launch_target_label();
    let mut apps = RuntimeRegistry::new();
    apps.add_running_app(&key, 91, group_id(0), rule_id(0));
    let mut os = FakeProcessSettingsOs::new(
        HashMap::from([(91, 0b001)]),
        HashMap::from([(91, PriorityClass::Normal)]),
    );
    seed_tracked_instance(&mut apps, &key, 91, &mut os);

    let outcome = run_pass(&mut apps, &state, true, &mut os);

    assert!(!outcome.changed);
    assert!(outcome.notifications.is_empty());
    assert!(app(&apps, &key).settings_matched);
}

#[test]
fn stale_pid_token_never_applies_settings() {
    let state = sample_state();
    let key = state.groups[1].programs[0].launch_target_label();
    let mut apps = RuntimeRegistry::new();
    apps.add_running_app(&key, 92, group_id(1), rule_id(0));
    apps.apps[0].pid_instance_tokens.push((92, 1));
    let mut os = FakeProcessSettingsOs::new(
        HashMap::from([(92, 0b001)]),
        HashMap::from([(92, PriorityClass::Normal)]),
    );
    os.tokens.insert(92, 2);

    let outcome = run_pass(&mut apps, &state, true, &mut os);

    assert!(outcome.changed);
    assert!(outcome.notifications.is_empty());
    assert!(os.affinity_sets.is_empty());
    assert!(os.priority_sets.is_empty());
    assert_eq!(outcome.checks, vec![vec![(92, PidCheck::Failed)]]);
}

#[test]
fn untracked_processes_and_unknown_rules_are_not_checked() {
    let state = sample_state();
    let mut apps = RuntimeRegistry::new();
    apps.add_running_app(r"C:\other.exe", 5, group_id(7), rule_id(7));
    let key = state.groups[1].programs[0].launch_target_label();
    apps.add_running_app(&key, 6, group_id(1), rule_id(0));
    let mut os = FakeProcessSettingsOs::new(HashMap::new(), HashMap::new());

    let outcome = run_pass(&mut apps, &state, true, &mut os);

    assert_eq!(outcome.checks, vec![vec![], vec![(6, PidCheck::Untracked)]]);
    assert_eq!(apps.apps[0].group_id, group_id(7));
    assert!(!apps.apps[1].settings_matched);
    assert!(outcome.changed);
}

#[test]
fn settings_skip_groups_without_a_mask_and_later_rules_win() {
    let mut empty = games_group();
    empty.cores = Vec::new();
    let mut state = state_with(vec![empty, games_group()]);
    state.groups[1].programs[0].priority = PriorityClass::Idle;
    let settings = collect_program_settings(&state);
    assert_eq!(settings.len(), 1);
    assert_eq!(settings[0].expected_mask, 0b110);
    assert_eq!(settings[0].group_id, group_id(1));
    assert_eq!(settings[0].rule_id, rule_id(1));
    assert_eq!(settings[0].expected_priority, PriorityClass::Idle);
}

#[test]
fn monitor_pass_requests_carry_expected_settings_and_monitoring_flag() {
    let state = sample_state();
    let key = state.groups[1].programs[0].launch_target_label();
    let mut apps = RuntimeRegistry::new();
    apps.add_running_app(&key, 89, group_id(1), rule_id(0));
    apps.apps[0].pid_instance_tokens.push((89, 7));
    apps.add_pid_to_existing_app(&key, 90);
    let off = plan_process_settings_requests(&apps, &state, false);
    assert_eq!(
        off,
        vec![ProcessSettingsRequest {
            pid: 89,
            instance_token: 7,
            mask: 0b110,
            priority: PriorityClass::High,
            apply_changes: false,
        }]
    );
    let on = plan_process_settings_requests(&apps, &state, true);
    assert_eq!(on.len(), 1);
    assert!(on[0].apply_changes);
}

#[test]
fn monitor_pass_without_answers_counts_tracked_processes_as_failed() {
    let state = sample_state();
    let key = state.groups[1].programs[0].launch_target_label();
    let mut apps = RuntimeRegistry::new();
    apps.add_running_app(&key, 89, group_id(1), rule_id(0));
    apps.apps[0].pid_instance_tokens.push((89, 7));
    let outcome = process_settings_iteration_with_os(&mut apps, &state, true, &Vec::new());
    assert_eq!(outcome.checks, vec![vec![(89, PidCheck::Failed)]]);
    assert!(!apps.apps[0].settings_matched);
}
