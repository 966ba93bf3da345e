use cpu_affinity_tool::catalog::InstalledPackageRuntimeInfo;
use cpu_affinity_tool::ids::{GroupId, RuleId};
use cpu_affinity_tool::launch::{
    collect_autorun_items, record_started_pid, run_app_with_affinity_sync, start_launch, step_launch,
    LaunchAction, LaunchDispatchOutcome, LaunchEvent, LaunchLog, LaunchState, RuntimeRegistry,
};
use cpu_affinity_tool::models::{AppStateStorage, AppToRun, CoreGroup, CpuSchema};
use cpu_affinity_tool::process::PriorityClass;
use std::collections::HashMap;

/// Answers the launcher's requests the way a scripted system would, and records them.
struct FakeLaunchOs {
    affinity_calls: Vec<(u32, usize)>,
    priority_calls: Vec<(u32, PriorityClass)>,
    focus_results: HashMap<u32, bool>,
    run_calls: Vec<(String, Vec<String>, Vec<usize>, PriorityClass)>,
    run_result: Result<u32, String>,
    activate_calls: Vec<String>,
    activate_result: Result<u32, String>,
    process_names: Result<HashMap<u32, String>, String>,
    process_images: Result<Vec<(u32, Option<String>)>, String>,
    installed_package_info: Result<InstalledPackageRuntimeInfo, String>,
    corrections_started: Vec<u32>,
}

impl Default for FakeLaunchOs {
    fn default() -> Self {
        Self {
            affinity_calls: Vec::new(),
            priority_calls: Vec::new(),
            focus_results: HashMap::new(),
            run_calls: Vec::new(),
            run_result: Ok(0),
            activate_calls: Vec::new(),
            activate_result: Ok(0),
            process_names: Ok(HashMap::new()),
            process_images: Ok(Vec::new()),
            installed_package_info: Err("metadata unavailable".to_string()),
            corrections_started: Vec::new(),
        }
    }
}

fn drive(
    first: (LaunchState, LaunchAction),
    registry: &mut RuntimeRegistry,
    log: &mut Vec<LaunchLog>,
    os: &mut FakeLaunchOs,
) -> LaunchDispatchOutcome {
    let (mut state, mut action) = first;
    loop {
        let event = match action {
            LaunchAction::ApplySettings { pids, mask, priority } => {
                for pid in pids {
                    os.affinity_calls.push((pid, mask));
                    os.priority_calls.push((pid, priority));
                }
                LaunchEvent::SettingsApplied
            }
            LaunchAction::FocusAny { pids } => LaunchEvent::Focused(
                pids.iter()
                    .any(|pid| os.focus_results.get(pid).copied().unwrap_or(false)),
            ),
            LaunchAction::ResolvePackageInfo { .. } => {
                LaunchEvent::PackageInfo(os.installed_package_info.clone())
            }
            LaunchAction::ListProcessImages => LaunchEvent::ProcessImages(os.process_images.clone()),
            LaunchAction::Run { bin_path, args, cores, priority } => {
                os.run_calls.push((bin_path, args, cores, priority));
                LaunchEvent::Launched(os.run_result.clone())
            }
            LaunchAction::Activate { aumid } => {
                os.activate_calls.push(aumid);
                LaunchEvent::Launched(os.activate_result.clone())
            }
            LaunchAction::ReadProcessName { pid } => LaunchEvent::LaunchedPidName(
                os.process_names.clone().map(|names| names.get(&pid).cloned()),
            ),
            LaunchAction::StartCorrection(request) => {
                os.corrections_started.push(request.initial_pid);
                LaunchEvent::CorrectionStarted
            }
            LaunchAction::Finish(outcome) => return outcome,
        };
        let (next_state, next_action) = step_launch(state, registry, log, event);
        state = next_state;
        action = next_action;
    }
}

fn run_decision(
    registry: &mut RuntimeRegistry,
    log: &mut Vec<LaunchLog>,
    group_id: GroupId,
    rule_id: RuleId,
    app: AppToRun,
    cores: Vec<usize>,
    os: &mut FakeLaunchOs,
) -> LaunchDispatchOutcome {
    let first = start_launch(registry, log, group_id, rule_id, app, cores);
    drive(first, registry, log, os)
}

fn sample_state() -> AppStateStorage {
    AppStateStorage {
        version: 5,
        groups: vec![CoreGroup {
            name: "Games".to_string(),
            cores: vec![0, 1],
            programs: vec![
                AppToRun::new_path(
                    r"C:\one.lnk".to_string(),
                    vec![],
                    r"C:\one.exe".to_string(),
                    PriorityClass::Normal,
                    false,
                ),
                AppToRun::new_path(
                    r"C:\two.lnk".to_string(),
                    vec!["--autorun".to_string()],
                    r"C:\two.exe".to_string(),
                    PriorityClass::High,
                    true,
                ),
            ],
            is_hidden: false,
            run_all_button: true,
        }],
        cpu_schema: CpuSchema {
            model: "Test CPU".to_string(),
            clusters: Vec::new(),
        },
        theme_index: 0,
        process_monitoring_enabled: false,
        windows_event_log_diagnostics_enabled: false,
        start_minimized: false,
        rule_identities: None,
        loaded_version: 5,
        pending_pre_v6_backup: false,
    }
}

fn sample_app() -> AppToRun {
    AppToRun::new_path(
        r"C:\game.lnk".to_string(),
        vec!["--fullscreen".to_string()],
        r"C:\game.exe".to_string(),
        PriorityClass::High,
        false,
    )
}

fn spotify() -> AppToRun {
    AppToRun::new_installed(
        "Spotify".into(),
        "SpotifyAB.SpotifyMusic_zpdnekdrzrea0!Spotify".into(),
        PriorityClass::High,
        false,
    )
}

fn group_id(value: usize) -> GroupId {
    GroupId(format!("group-{value}"))
}

fn rule_id(value: usize) -> RuleId {
    RuleId(format!("rule-{value}"))
}

#[test]
fn test_collect_autorun_items_preserves_indices() {
    let items = collect_autorun_items(&sample_state());
    assert_eq!(items.len(), 1);
    assert_eq!(items[0].0, 0);
    assert_eq!(items[0].1, 1);
    assert_eq!(items[0].2.bin_path(), Some(r"C:\two.exe"));
    assert_eq!(items[0].2.args, vec!["--autorun".to_string()]);
}

#[test]
fn test_already_running_with_focus_reapplies_settings_without_launch() {
    let mut runtime = RuntimeRegistry::new();
    let app = sample_app();
    let app_key = app.launch_target_label();
    assert!(runtime.add_running_app(&app_key, 41, group_id(3), rule_id(4)));
    assert!(runtime.add_pid_to_existing_app(&app_key, 42));
    let mut log = Vec::new();
    let mut os = FakeLaunchOs {
        focus_results: HashMap::from([(41, false), (42, true)]),
        run_result: Ok(999),
        ..Default::default()
    };

    let outcome = run_decision(&mut runtime, &mut log, group_id(3), rule_id(4), app, vec![0, 2], &mut os);

    assert_eq!(outcome, LaunchDispatchOutcome::Accepted);
    assert!(os.run_calls.is_empty());
    assert_eq!(os.affinity_calls.as_slice(), &[(41, 5), (42, 5)]);
    assert_eq!(
        os.priority_calls.as_slice(),
        &[(41, PriorityClass::High), (42, PriorityClass::High)]
    );
    assert!(log.iter().any(|entry| entry.message.contains("window focused")));
}

#[test]
fn test_already_running_without_focus_does_not_launch_duplicate() {
    let mut runtime = RuntimeRegistry::new();
    let app = sample_app();
    let app_key = app.launch_target_label();
    assert!(runtime.add_running_app(&app_key, 77, group_id(0), rule_id(0)));
    let mut log = Vec::new();
    let mut os = FakeLaunchOs {
        run_result: Ok(555),
        ..Default::default()
    };

    run_decision(&mut runtime, &mut log, group_id(0), rule_id(0), app, vec![1, 3], &mut os);

    assert!(os.run_calls.is_empty());
    assert!(log
        .iter()
        .any(|entry| entry.message.contains("no window found to focus")));
}

#[test]
fn test_missing_group_logs_critical_and_stops() {
    let state = sample_state();
    let mut runtime = RuntimeRegistry::new();
    let mut log = Vec::new();
    let mut os = FakeLaunchOs::default();

    let first = run_app_with_affinity_sync(&state, &runtime, &mut log, 99, 0, sample_app());
    let outcome = drive(first, &mut runtime, &mut log, &mut os);

    assert!(os.run_calls.is_empty());
    assert_eq!(
        outcome,
        LaunchDispatchOutcome::Rejected("Error: Group index 99 not found".to_string())
    );
    let refusals: Vec<&LaunchLog> = log
        .iter()
        .filter(|entry| entry.message.contains("Group index 99 not found"))
        .collect();
    assert_eq!(refusals.len(), 1);
    assert!(refusals[0].important);
}

#[test]
fn test_missing_rule_id_is_refused() {
    let state = sample_state();
    let mut runtime = RuntimeRegistry::new();
    let mut log = Vec::new();
    let mut os = FakeLaunchOs::default();

    let first = run_app_with_affinity_sync(&state, &runtime, &mut log, 0, 7, sample_app());
    let outcome = drive(first, &mut runtime, &mut log, &mut os);

    assert_eq!(
        outcome,
        LaunchDispatchOutcome::Rejected("Error: Missing rule id for rule index 7 in group 0".to_string())
    );
    assert!(os.run_calls.is_empty());
}

#[test]
fn test_fresh_launch_success_tracks_pid_in_runtime_registry() {
    let state = sample_state();
    let mut runtime = RuntimeRegistry::new();
    let mut log = Vec::new();
    let mut os = FakeLaunchOs {
        run_result: Ok(4242),
        ..Default::default()
    };
    let app = sample_app();
    let app_key = app.launch_target_label();

    let first = run_app_with_affinity_sync(&state, &runtime, &mut log, 0, 0, app);
    let outcome = drive(first, &mut runtime, &mut log, &mut os);

    assert_eq!(outcome, LaunchDispatchOutcome::Accepted);
    assert_eq!(runtime.get_running_app_pids(&app_key), Some(vec![4242]));
    assert!(log.iter().any(|entry| entry.message == "App started with PID: 4242"));
    assert_eq!(
        os.run_calls,
        vec![(
            r"C:\game.exe".to_string(),
            vec!["--fullscreen".to_string()],
            vec![0, 1],
            PriorityClass::High
        )]
    );
    assert!(log
        .iter()
        .any(|entry| entry.message == r"Starting 'game.exe', app: C:\game.exe"));
}

#[test]
fn test_record_started_pid_appends_to_existing_runtime_entry_without_duplicates() {
    let mut runtime = RuntimeRegistry::new();
    let mut log = Vec::new();
    let key = sample_app().launch_target_label();
    assert!(runtime.add_running_app(&key, 41, group_id(1), rule_id(2)));

    record_started_pid(&mut runtime, &mut log, &key, 5150, group_id(1), rule_id(2));
    record_started_pid(&mut runtime, &mut log, &key, 5150, group_id(1), rule_id(2));

    let pids = runtime.get_running_app_pids(&key).unwrap();
    assert!(pids.contains(&41));
    assert!(pids.contains(&5150));
    assert_eq!(pids.iter().filter(|&&pid| pid == 5150).count(), 1);
    assert!(log
        .iter()
        .any(|entry| entry.message.contains("New instance of existing app started")));
}

#[test]
fn test_launch_failure_logs_important_and_sticky_error() {
    let mut runtime = RuntimeRegistry::new();
    let mut log = Vec::new();
    let mut os = FakeLaunchOs {
        run_result: Err("boom".to_string()),
        ..Default::default()
    };

    let outcome = run_decision(&mut runtime, &mut log, group_id(0), rule_id(0), sample_app(), vec![0], &mut os);

    assert_eq!(outcome, LaunchDispatchOutcome::Rejected("boom".to_string()));
    let errors: Vec<&LaunchLog> = log.iter().filter(|entry| entry.message == "ERROR: boom").collect();
    assert_eq!(errors.len(), 1);
    assert!(errors[0].important);
    assert_eq!(runtime.get_running_app_pids(&sample_app().launch_target_label()), None);
}

#[test]
fn test_installed_launch_uses_activation_and_immediate_apply() {
    let mut runtime = RuntimeRegistry::new();
    let mut log = Vec::new();
    let app = spotify();
    let app_key = app.launch_target_label();
    let mut os = FakeLaunchOs {
        activate_result: Ok(4321),
        ..Default::default()
    };

    run_decision(&mut runtime, &mut log, group_id(0), rule_id(0), app, vec![0, 2], &mut os);

    assert!(os.run_calls.is_empty());
    assert_eq!(
        os.activate_calls.as_slice(),
        &["SpotifyAB.SpotifyMusic_zpdnekdrzrea0!Spotify".to_string()]
    );
    assert_eq!(os.affinity_calls.as_slice(), &[(4321, 5)]);
    assert_eq!(os.priority_calls.as_slice(), &[(4321, PriorityClass::High)]);
    assert_eq!(runtime.get_running_app_pids(&app_key), Some(vec![4321]));
    assert_eq!(os.corrections_started, vec![4321]);
}

#[test]
fn test_installed_launch_skips_background_host_activation_pid() {
    let mut runtime = RuntimeRegistry::new();
    let mut log = Vec::new();
    let app = spotify();
    let app_key = app.launch_target_label();
    let mut os = FakeLaunchOs {
        activate_result: Ok(4321),
        process_names: Ok(HashMap::from([(4321, "backgroundTaskHost.exe".to_string())])),
        ..Default::default()
    };

    run_decision(&mut runtime, &mut log, group_id(0), rule_id(0), app, vec![0, 2], &mut os);

    assert!(os.run_calls.is_empty());
    assert_eq!(
        os.activate_calls.as_slice(),
        &["SpotifyAB.SpotifyMusic_zpdnekdrzrea0!Spotify".to_string()]
    );
    assert!(os.affinity_calls.is_empty());
    assert!(os.priority_calls.is_empty());
    assert_eq!(runtime.get_running_app_pids(&app_key), None);
    assert!(log.iter().any(|entry| entry.message
        == "Installed app activation PID 4321 is a Windows background host; waiting for app processes"));
}

#[test]
fn test_installed_launch_with_metadata_resolve_failure_keeps_soft_fallback() {
    let mut runtime = RuntimeRegistry::new();
    let mut log = Vec::new();
    let app = spotify();
    let app_key = app.launch_target_label();
    let mut os = FakeLaunchOs {
        activate_result: Ok(4321),
        installed_package_info: Err("metadata unavailable".into()),
        ..Default::default()
    };

    run_decision(&mut runtime, &mut log, group_id(0), rule_id(0), app, vec![0, 2], &mut os);

    assert_eq!(runtime.get_running_app_pids(&app_key), Some(vec![4321]));
    assert_eq!(
        os.activate_calls.as_slice(),
        &["SpotifyAB.SpotifyMusic_zpdnekdrzrea0!Spotify".to_string()]
    );
    assert_eq!(os.affinity_calls.as_slice(), &[(4321, 5)]);
    assert_eq!(os.priority_calls.as_slice(), &[(4321, PriorityClass::High)]);
    assert!(!log
        .iter()
        .any(|entry| entry.message.contains("metadata unavailable")));
}

#[test]
fn test_installed_launch_remembers_package_local_processes_before_activation() {
    let mut runtime = RuntimeRegistry::new();
    let mut log = Vec::new();
    let info = InstalledPackageRuntimeInfo {
        aumid: "SpotifyAB.SpotifyMusic_zpdnekdrzrea0!Spotify".into(),
        package_family_name: "SpotifyAB.SpotifyMusic_zpdnekdrzrea0".into(),
        install_root: r"C:\Program Files\WindowsApps\Spotify".into(),
    };
    let first = start_launch(&runtime, &mut log, group_id(0), rule_id(0), spotify(), vec![0]);
    assert!(matches!(first.1, LaunchAction::ResolvePackageInfo { .. }));
    let (state, action) = step_launch(first.0, &mut runtime, &mut log, LaunchEvent::PackageInfo(Ok(info)));
    assert!(matches!(action, LaunchAction::ListProcessImages));
    let images = vec![
        (7, Some(r"c:/program files/windowsapps/spotify/Spotify.exe".to_string())),
        (8, Some(r"C:\Other\Spotify.exe".to_string())),
        (9, None),
        (10, Some(r"C:\Program Files\WindowsApps\Spotify".to_string())),
        (11, Some(r"C:\Program Files\WindowsApps\SpotifyExtra\x.exe".to_string())),
    ];
    let (state, action) = step_launch(state, &mut runtime, &mut log, LaunchEvent::ProcessImages(Ok(images)));
    assert!(matches!(action, LaunchAction::Activate { .. }));
    match state {
        LaunchState::Launching { package_info, prelaunch, .. } => {
            assert!(package_info.is_some());
            assert_eq!(prelaunch, vec![7, 10]);
        }
        _ => panic!("expected the launching state"),
    }
}
