use cpu_affinity_tool::models::{AppStateStorage, AppToRun, CoreGroup, CpuSchema, LaunchTarget};
use cpu_affinity_tool::process::PriorityClass;
use cpu_affinity_tool::rules::RulesContext;
use cpu_affinity_tool::service::{
    create_group, load_group_for_edit, move_rule_between_groups_at, remove_rule_from_group,
    set_group_is_hidden, swap_groups, update_group_properties, update_rule,
};

fn storage_with(cores: Vec<usize>, programs: Vec<AppToRun>) -> AppStateStorage {
    AppStateStorage {
        version: 5,
        groups: vec![CoreGroup {
            name: "Games".into(),
            cores,
            programs,
            is_hidden: false,
            run_all_button: true,
        }],
        cpu_schema: CpuSchema {
            model: "Test CPU".into(),
            clusters: Vec::new(),
        },
        theme_index: 0,
        process_monitoring_enabled: false,
        windows_event_log_diagnostics_enabled: false,
        start_minimized: false,
        rule_identities: None,
        loaded_version: 5,
        pending_pre_v6_backup: false,
    }
}

fn sample_storage() -> AppStateStorage {
    storage_with(
        vec![0, 1],
        vec![AppToRun::new_path(
            r"C:\game.lnk".to_string(),
            vec![],
            r"C:\game.exe".to_string(),
            PriorityClass::Normal,
            false,
        )],
    )
}

fn work_group() -> CoreGroup {
    CoreGroup {
        name: "Work".into(),
        cores: vec![2, 3],
        programs: vec![],
        is_hidden: false,
        run_all_button: false,
    }
}

#[test]
fn test_swap_and_append_preserve_existing_ids() {
    let mut storage = sample_storage();
    storage.groups.push(work_group());

    let mut context = RulesContext::from_storage(&storage);
    let first = context.group_id_for_index(0).unwrap();
    let second = context.group_id_for_index(1).unwrap();

    context.swap_groups(0, 1);
    assert_eq!(context.group_id_for_index(0), Some(second));
    assert_eq!(context.group_id_for_index(1), Some(first));

    context.append_rules_to_group(0, 2);
    assert!(context.rule_id_for_index(0, 1).is_some());
}

#[test]
fn test_move_rule_between_groups_preserves_rule_id() {
    let mut storage = sample_storage();
    storage.groups.push(work_group());

    let mut context = RulesContext::from_storage(&storage);
    let rule_id = context.rule_id_for_index(0, 0).unwrap();

    assert_eq!(context.move_rule_between_groups_at(0, 0, 1, 0), Some(rule_id.clone()));
    assert_eq!(context.rule_id_for_index(1, 0), Some(rule_id));
    assert!(context.rule_id_for_index(0, 0).is_none());
}

#[test]
fn test_move_rule_within_group_preserves_rule_id_order() {
    let mut storage = sample_storage();
    storage.groups[0].programs.push(AppToRun::new_path(
        r"C:\helper.lnk".to_string(),
        vec![],
        r"C:\helper.exe".to_string(),
        PriorityClass::Normal,
        false,
    ));

    let mut context = RulesContext::from_storage(&storage);
    let first = context.rule_id_for_index(0, 0).unwrap();
    let second = context.rule_id_for_index(0, 1).unwrap();

    assert_eq!(context.move_rule_between_groups_at(0, 0, 0, 2), Some(first.clone()));
    assert_eq!(context.rule_id_for_index(0, 0), Some(second));
    assert_eq!(context.rule_id_for_index(0, 1), Some(first));
}

fn sample_persistent_state() -> AppStateStorage {
    storage_with(
        vec![1, 3],
        vec![AppToRun {
            name: "Sample".to_string(),
            launch_target: LaunchTarget::Path {
                dropped_path: r"C:\Sample.lnk".to_string(),
                bin_path: r"C:\Sample.exe".to_string(),
            },
            args: vec![],
            additional_processes: vec![],
            autorun: false,
            priority: PriorityClass::Normal,
        }],
    )
}

#[test]
fn test_create_and_edit_group() {
    let mut state = sample_persistent_state();
    create_group(&mut state, "Work", &[true, false, true, false], true).unwrap();
    assert_eq!(state.groups.len(), 2);

    let editable = load_group_for_edit(&state, 0).unwrap();
    assert_eq!(editable.name, "Games");
    assert_eq!(editable.selected_cores, vec![1, 3]);
    assert!(editable.run_all_enabled);

    assert!(update_group_properties(&mut state, 0, "Edited".to_string(), &[false, true, false, true], false).unwrap());
    assert_eq!(state.groups[0].name, "Edited");
}

#[test]
fn test_create_group_validation_does_not_mutate_state() {
    let mut state = sample_persistent_state();

    assert_eq!(
        create_group(&mut state, "   ", &[true, false], true),
        Err("Group name cannot be empty".to_string())
    );
    assert_eq!(
        create_group(&mut state, "No Cores", &[false, false], true),
        Err("At least one core must be selected".to_string())
    );

    assert_eq!(state.groups.len(), 1);
    assert_eq!(state.groups[0].name, "Games");
}

#[test]
fn test_update_group_validation_and_missing_index_do_not_mutate_state() {
    let mut state = sample_persistent_state();

    assert_eq!(
        update_group_properties(&mut state, 0, " ".to_string(), &[true], false),
        Err("Group name cannot be empty".to_string())
    );
    assert_eq!(
        update_group_properties(&mut state, 0, "Edited".to_string(), &[false], false),
        Err("At least one core must be selected".to_string())
    );
    assert_eq!(
        update_group_properties(&mut state, 99, "Missing".to_string(), &[true], false),
        Ok(false)
    );

    assert_eq!(state.groups.len(), 1);
    assert_eq!(state.groups[0].name, "Games");
    assert_eq!(state.groups[0].cores, vec![1, 3]);
    assert!(state.groups[0].run_all_button);
}

#[test]
fn test_group_visibility_and_swap_report_only_real_changes() {
    let mut state = sample_persistent_state();
    create_group(&mut state, "Work", &[true, false], false).unwrap();

    assert!(set_group_is_hidden(&mut state, 0, true));
    assert!(!set_group_is_hidden(&mut state, 0, true));
    assert!(!set_group_is_hidden(&mut state, 99, true));

    assert!(swap_groups(&mut state, 0, 1));
    assert!(!swap_groups(&mut state, 0, 99));

    assert_eq!(state.groups[0].name, "Work");
    assert_eq!(state.groups[1].name, "Games");
    assert!(state.groups[1].is_hidden);
}

fn summary(state: &AppStateStorage) -> Vec<(String, Vec<usize>, usize, bool, bool)> {
    state
        .groups
        .iter()
        .map(|group| {
            (
                group.name.clone(),
                group.cores.clone(),
                group.programs.len(),
                group.is_hidden,
                group.run_all_button,
            )
        })
        .collect()
}

#[test]
fn test_move_rule_between_groups_rejects_invalid_indices_without_mutation() {
    let mut state = sample_persistent_state();
    create_group(&mut state, "Work", &[true, false], false).unwrap();
    let before = summary(&state);

    assert!(move_rule_between_groups_at(&mut state, 9, 0, 1, 0).is_none());
    assert!(move_rule_between_groups_at(&mut state, 0, 9, 1, 0).is_none());
    assert!(move_rule_between_groups_at(&mut state, 0, 0, 9, 0).is_none());
    assert!(move_rule_between_groups_at(&mut state, 0, 0, 1, 9).is_none());

    assert_eq!(summary(&state), before);
}

#[test]
fn test_update_and_remove_rule() {
    let mut state = sample_persistent_state();
    let updated = AppToRun {
        name: "Updated".to_string(),
        launch_target: LaunchTarget::Path {
            dropped_path: r"C:\Sample.lnk".to_string(),
            bin_path: r"C:\Updated.exe".to_string(),
        },
        args: vec!["--debug".to_string()],
        additional_processes: vec!["helper.exe".to_string()],
        autorun: true,
        priority: PriorityClass::High,
    };

    assert!(update_rule(&mut state, 0, 0, updated));
    let removed = remove_rule_from_group(&mut state, 0, 0);
    assert_eq!(removed.as_deref(), Some(r"C:\Updated.exe"));
    assert!(state.groups[0].programs.is_empty());
}

#[test]
fn moving_a_rule_to_another_group_carries_it_over() {
    let mut state = sample_persistent_state();
    create_group(&mut state, "Work", &[true, false], false).unwrap();

    let moved = move_rule_between_groups_at(&mut state, 0, 0, 1, 0).unwrap();
    assert_eq!(moved.name, "Sample");
    assert!(state.groups[0].programs.is_empty());
    assert_eq!(state.groups[1].programs.len(), 1);
    assert_eq!(state.groups[1].programs[0].bin_path(), Some(r"C:\Sample.exe"));
}

#[test]
fn persisted_identities_survive_a_reload() {
    let mut storage = sample_storage();
    storage.groups.push(work_group());
    let mut context = RulesContext::from_storage(&storage);
    context.append_rules_to_group(1, 1);
    storage.groups[1].programs.push(AppToRun::new_path(
        r"C:\tool.lnk".to_string(),
        vec![],
        r"C:\tool.exe".to_string(),
        PriorityClass::Normal,
        false,
    ));
    storage.rule_identities = Some(context.to_persisted_identities());

    let reloaded = RulesContext::from_storage(&storage);
    for g in 0..2 {
        assert_eq!(reloaded.group_id_for_index(g), context.group_id_for_index(g));
    }
    assert_eq!(reloaded.rule_id_for_index(0, 0), context.rule_id_for_index(0, 0));
    assert_eq!(reloaded.rule_id_for_index(1, 0), context.rule_id_for_index(1, 0));
}

#[test]
fn group_edits_leave_every_other_setting_alone() {
    let mut state = sample_persistent_state();
    state.theme_index = 2;
    state.process_monitoring_enabled = true;
    state.start_minimized = true;
    state.pending_pre_v6_backup = true;
    assert!(create_group(&mut state, "Work", &[true, false], false).is_ok());
    assert!(swap_groups(&mut state, 0, 1));
    assert!(set_group_is_hidden(&mut state, 0, true));
    assert_eq!(remove_rule_from_group(&mut state, 1, 0), Some(r"C:\Sample.exe".to_string()));
    assert_eq!(state.theme_index, 2);
    assert!(state.process_monitoring_enabled);
    assert!(state.start_minimized);
    assert!(state.pending_pre_v6_backup);
    assert_eq!(state.cpu_schema.model, "Test CPU");
}
