use cpu_affinity_tool::ids::{GroupId, RuleId};
use cpu_affinity_tool::models::{AppStateStorage, AppToRun, CoreGroup, CpuSchema};
use cpu_affinity_tool::process::PriorityClass;
use cpu_affinity_tool::rules::RulesContext;
use cpu_affinity_tool::shortcut::{
    create_saved_rule_shortcut, shortcut_filename, CreateRuleShortcutError, RuleShortcutPlatform,
    ShortcutSpec, ShortcutWriteError,
};
use cpu_affinity_tool::shortcut_flow::{
    start_rule_shortcut, step_rule_shortcut, RuleShortcutAction, RuleShortcutEvent,
};
use std::collections::HashSet;

struct FakePlatform {
    supported: bool,
    current_exe: Result<String, String>,
    desktop_dir: Result<String, String>,
    existing_paths: HashSet<String>,
    create_result: Result<(), ShortcutWriteError>,
    current_exe_calls: usize,
    desktop_calls: usize,
    exists_calls: Vec<String>,
    create_calls: Vec<ShortcutSpec>,
}

impl FakePlatform {
    fn unsupported() -> Self {
        Self {
            supported: false,
            current_exe: Err("current exe unavailable".to_string()),
            desktop_dir: Err("desktop unavailable".to_string()),
            existing_paths: HashSet::new(),
            create_result: Ok(()),
            current_exe_calls: 0,
            desktop_calls: 0,
            exists_calls: Vec::new(),
            create_calls: Vec::new(),
        }
    }

    fn supported() -> Self {
        Self {
            supported: true,
            current_exe: Ok(fake_current_exe()),
            desktop_dir: Ok(fake_desktop_dir()),
            ..Self::unsupported()
        }
    }

    fn add_existing(&mut self, path: String) {
        self.existing_paths.insert(path.to_ascii_lowercase());
    }
}

fn fake_current_exe() -> String {
    r"C:\Tools\cpu-affinity-tool.exe".to_string()
}

fn fake_desktop_dir() -> String {
    r"C:\Users\Ada\Desktop".to_string()
}

fn fake_desktop_shortcut(file_name: &str) -> String {
    format!(r"C:\Users\Ada\Desktop\{file_name}")
}

impl RuleShortcutPlatform for FakePlatform {
    fn is_supported(&self) -> bool {
        self.supported
    }

    fn current_exe_path(&mut self) -> Result<String, String> {
        self.current_exe_calls += 1;
        self.current_exe.clone()
    }

    fn current_user_desktop_dir(&mut self) -> Result<String, String> {
        self.desktop_calls += 1;
        self.desktop_dir.clone()
    }

    fn shortcut_path_exists(&mut self, path: &str) -> Result<bool, String> {
        self.exists_calls.push(path.to_string());
        Ok(self.existing_paths.contains(&path.to_ascii_lowercase()))
    }

    fn create_shortcut_new(&mut self, spec: ShortcutSpec) -> Result<(), ShortcutWriteError> {
        self.create_calls.push(spec);
        self.create_result.clone()
    }
}

fn app_to_run(name: &str) -> AppToRun {
    let mut app = AppToRun::new_path(
        format!(r"C:\Games\{name}.lnk"),
        vec!["--fullscreen".to_string()],
        format!(r"C:\Games\{name}.exe"),
        PriorityClass::Normal,
        false,
    );
    app.name = name.to_string();
    app
}

fn installed_app(name: &str) -> AppToRun {
    AppToRun::new_installed(
        name.to_string(),
        "Vendor.Package_abc!App".to_string(),
        PriorityClass::Normal,
        false,
    )
}

fn storage_with(programs: Vec<AppToRun>) -> (AppStateStorage, RulesContext) {
    let storage = AppStateStorage {
        version: 7,
        groups: vec![CoreGroup {
            name: "Performance".to_string(),
            cores: vec![0, 1],
            programs,
            is_hidden: false,
            run_all_button: true,
        }],
        cpu_schema: CpuSchema {
            model: "Test CPU".to_string(),
            clusters: Vec::new(),
        },
        theme_index: 0,
        process_monitoring_enabled: false,
        windows_event_log_diagnostics_enabled: true,
        start_minimized: false,
        rule_identities: None,
        loaded_version: 7,
        pending_pre_v6_backup: false,
    };
    let rules = RulesContext::from_storage(&storage);
    (storage, rules)
}

#[test]
fn test_create_saved_rule_shortcut_uses_saved_installed_app_name() {
    let (storage, rules) = storage_with(vec![installed_app("Spotify")]);
    let group_id = rules.group_id_for_index(0).unwrap();
    let rule_id = rules.rule_id_for_index(0, 0).unwrap();
    let mut platform = FakePlatform::supported();

    let created =
        create_saved_rule_shortcut(&storage, &rules, group_id, rule_id, &mut platform).unwrap();

    assert_eq!(created, fake_desktop_shortcut("Spotify - Performance.lnk"));
    assert!(!created.contains("Vendor.Package_abc!App"));
}

#[test]
fn test_create_saved_rule_shortcut_builds_windows_spec_for_saved_rule() {
    let (storage, rules) = storage_with(vec![app_to_run("Game")]);
    let group_id = rules.group_id_for_index(0).unwrap();
    let rule_id = rules.rule_id_for_index(0, 0).unwrap();
    let mut platform = FakePlatform::supported();

    let created =
        create_saved_rule_shortcut(&storage, &rules, group_id, rule_id, &mut platform).unwrap();

    assert_eq!(created, fake_desktop_shortcut("Game - Performance.lnk"));
    assert_eq!(platform.create_calls.len(), 1);
    let spec = &platform.create_calls[0];
    assert_eq!(spec.shortcut_path, created);
    assert_eq!(spec.target_path, fake_current_exe());
    assert_eq!(spec.arguments, vec!["--run-rule", "group-0", "rule-0"]);
    assert_eq!(spec.working_dir, Some(r"C:\Tools".to_string()));
    assert_eq!(spec.icon_path, Some(fake_current_exe()));
    assert_eq!(spec.icon_index, 0);
}

#[test]
fn test_create_saved_rule_shortcut_rejects_stale_targets_before_os_calls() {
    let (storage, rules) = storage_with(vec![app_to_run("Game")]);
    let group_id = rules.group_id_for_index(0).unwrap();
    let rule_id = rules.rule_id_for_index(0, 0).unwrap();
    let mut platform = FakePlatform::supported();

    assert_eq!(
        create_saved_rule_shortcut(
            &storage,
            &rules,
            GroupId("missing".to_string()),
            rule_id.clone(),
            &mut platform
        ),
        Err(CreateRuleShortcutError::MissingGroup)
    );
    assert_eq!(
        create_saved_rule_shortcut(
            &storage,
            &rules,
            group_id,
            RuleId("missing".to_string()),
            &mut platform
        ),
        Err(CreateRuleShortcutError::MissingRule)
    );
    assert_eq!(platform.current_exe_calls, 0);
    assert!(platform.create_calls.is_empty());
}

#[test]
fn test_create_saved_rule_shortcut_rejects_moved_rule_under_old_group() {
    let (mut storage, rules) = storage_with(vec![app_to_run("Game")]);
    storage.groups.push(CoreGroup {
        name: "Other".to_string(),
        cores: vec![2, 3],
        programs: Vec::new(),
        is_hidden: false,
        run_all_button: true,
    });
    let old_group_id = rules.group_id_for_index(0).unwrap();
    let moved_rule_id = rules.rule_id_for_index(0, 0).unwrap();
    let moved_app = storage.groups[0].programs.remove(0);
    storage.groups[1].programs.push(moved_app);
    let moved_rules = RulesContext::from_storage(&storage);
    let mut platform = FakePlatform::supported();

    assert_eq!(
        create_saved_rule_shortcut(&storage, &moved_rules, old_group_id, moved_rule_id, &mut platform),
        Err(CreateRuleShortcutError::MissingRule)
    );
    assert!(platform.create_calls.is_empty());
}

#[test]
fn test_create_saved_rule_shortcut_unsupported_platform_short_circuits() {
    let (storage, rules) = storage_with(vec![app_to_run("Game")]);
    let group_id = rules.group_id_for_index(0).unwrap();
    let rule_id = rules.rule_id_for_index(0, 0).unwrap();
    let mut platform = FakePlatform::unsupported();

    assert_eq!(
        create_saved_rule_shortcut(&storage, &rules, group_id, rule_id, &mut platform),
        Err(CreateRuleShortcutError::UnsupportedPlatform)
    );
    assert_eq!(platform.current_exe_calls, 0);
    assert_eq!(platform.desktop_calls, 0);
    assert!(platform.create_calls.is_empty());
}

#[test]
fn test_create_saved_rule_shortcut_reports_resolver_failures() {
    let (storage, rules) = storage_with(vec![app_to_run("Game")]);
    let group_id = rules.group_id_for_index(0).unwrap();
    let rule_id = rules.rule_id_for_index(0, 0).unwrap();
    let mut exe_fail = FakePlatform::supported();
    exe_fail.current_exe = Err("no exe".to_string());

    assert_eq!(
        create_saved_rule_shortcut(&storage, &rules, group_id.clone(), rule_id.clone(), &mut exe_fail),
        Err(CreateRuleShortcutError::CurrentExeUnavailable)
    );

    let mut desktop_fail = FakePlatform::supported();
    desktop_fail.desktop_dir = Err("no desktop".to_string());
    assert_eq!(
        create_saved_rule_shortcut(&storage, &rules, group_id, rule_id, &mut desktop_fail),
        Err(CreateRuleShortcutError::DesktopUnavailable)
    );
}

#[test]
fn test_create_saved_rule_shortcut_allocates_collision_suffixes_case_insensitive() {
    let (storage, rules) = storage_with(vec![app_to_run("Game")]);
    let group_id = rules.group_id_for_index(0).unwrap();
    let rule_id = rules.rule_id_for_index(0, 0).unwrap();
    let mut platform = FakePlatform::supported();
    platform.add_existing(fake_desktop_shortcut("GAME - PERFORMANCE.LNK"));

    let created =
        create_saved_rule_shortcut(&storage, &rules, group_id, rule_id, &mut platform).unwrap();

    assert_eq!(created, fake_desktop_shortcut("Game - Performance (1).lnk"));
}

#[test]
fn test_create_saved_rule_shortcut_reports_exhausted_and_race_collisions() {
    let (storage, rules) = storage_with(vec![app_to_run("Game")]);
    let group_id = rules.group_id_for_index(0).unwrap();
    let rule_id = rules.rule_id_for_index(0, 0).unwrap();
    let mut exhausted = FakePlatform::supported();
    exhausted.add_existing(fake_desktop_shortcut("Game - Performance.lnk"));
    for index in 1..100 {
        exhausted.add_existing(fake_desktop_shortcut(&format!("Game - Performance ({index}).lnk")));
    }

    assert_eq!(
        create_saved_rule_shortcut(&storage, &rules, group_id.clone(), rule_id.clone(), &mut exhausted),
        Err(CreateRuleShortcutError::NameCollisionExhausted)
    );

    let mut race = FakePlatform::supported();
    race.create_result = Err(ShortcutWriteError::AlreadyExists);
    assert_eq!(
        create_saved_rule_shortcut(&storage, &rules, group_id, rule_id, &mut race),
        Err(CreateRuleShortcutError::CreateCollision)
    );
}

#[test]
fn numbered_file_names_are_cut_and_trimmed() {
    assert_eq!(shortcut_filename("Game", 0), "Game.lnk");
    assert_eq!(shortcut_filename("Game. ", 2), "Game (2).lnk");
    assert_eq!(shortcut_filename("...", 3), "CPU Affinity Rule (3).lnk");
    let long = "x".repeat(200);
    assert_eq!(shortcut_filename(&long, 1), format!("{} (1).lnk", "x".repeat(116)));
}

#[test]
fn error_messages_are_user_facing() {
    assert_eq!(
        CreateRuleShortcutError::SaveChangesFirst.to_user_message(),
        "Save changes before creating a shortcut."
    );
    assert_eq!(
        CreateRuleShortcutError::OsWriteFailure.to_user_message(),
        "Shortcut could not be written."
    );
}

#[test]
fn rule_shortcut_flow_probes_candidates_in_order_and_writes_first_free() {
    let (storage, rules) = storage_with(vec![app_to_run("Game")]);
    let group_id = rules.group_id_for_index(0).unwrap();
    let rule_id = rules.rule_id_for_index(0, 0).unwrap();
    let (mut flow, mut action) = start_rule_shortcut(&storage, &rules, group_id, rule_id);
    let mut probed: Vec<String> = Vec::new();
    let mut written = None;
    let result = loop {
        let event = match action {
            RuleShortcutAction::Finish(r) => break r,
            RuleShortcutAction::CheckSupport => RuleShortcutEvent::Supported(true),
            RuleShortcutAction::ResolveExecutable => RuleShortcutEvent::Executable(Ok(fake_current_exe())),
            RuleShortcutAction::ResolveDesktop => RuleShortcutEvent::Desktop(Ok(fake_desktop_dir())),
            RuleShortcutAction::PathExists(p) => {
                let taken = probed.len() < 2;
                probed.push(p);
                RuleShortcutEvent::PathExists(Ok(taken))
            }
            RuleShortcutAction::CreateShortcut(spec) => {
                written = Some(spec);
                RuleShortcutEvent::Created(Ok::<(), ShortcutWriteError>(()))
            }
        };
        let (f, a) = step_rule_shortcut(flow, event);
        flow = f;
        action = a;
    };
    assert_eq!(
        probed,
        vec![
            fake_desktop_shortcut("Game - Performance.lnk"),
            fake_desktop_shortcut("Game - Performance (1).lnk"),
            fake_desktop_shortcut("Game - Performance (2).lnk"),
        ]
    );
    let spec = written.unwrap();
    assert_eq!(result, Ok(fake_desktop_shortcut("Game - Performance (2).lnk")));
    assert_eq!(spec.shortcut_path, fake_desktop_shortcut("Game - Performance (2).lnk"));
    assert_eq!(spec.arguments, vec!["--run-rule", "group-0", "rule-0"]);
}

#[test]
fn rule_shortcut_flow_missing_rule_finishes_without_platform_action() {
    let (storage, rules) = storage_with(vec![app_to_run("Game")]);
    let group_id = rules.group_id_for_index(0).unwrap();
    let (_, action) = start_rule_shortcut(&storage, &rules, group_id, RuleId("rule-9".to_string()));
    assert!(matches!(action, RuleShortcutAction::Finish(Err(CreateRuleShortcutError::MissingRule))));
}
