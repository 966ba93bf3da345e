use cpu_affinity_tool::catalog::{InstalledAppCatalogSource, InstalledAppCatalogTarget};
use cpu_affinity_tool::shell::{
    app_paths_display_name, classify_app_paths_entry, classify_catalog_record, classify_start_menu_entry,
    is_ignored_start_menu_entry_name, is_supported_absolute_exe_path, package_family_name_from_aumid,
    strip_windows_verbatim_prefix,
    unquote_wrapped_text, StartMenuFileFacts,
};

#[test]
fn test_classify_catalog_record_accepts_aumid() {
    let entry = classify_catalog_record(
        "Spotify",
        "SpotifyAB.SpotifyMusic_zpdnekdrzrea0!Spotify",
        None,
    )
    .unwrap();

    assert_eq!(entry.name, "Spotify");
    assert_eq!(
        entry.target,
        InstalledAppCatalogTarget::Aumid("SpotifyAB.SpotifyMusic_zpdnekdrzrea0!Spotify".into())
    );
}

#[test]
fn test_classify_app_paths_entry_rejects_invalid_targets() {
    assert!(classify_app_paths_entry("Docs", "https://docs.python.org/", None).is_none());
    assert!(classify_app_paths_entry("Shortcut", "chrome.exe", None).is_none());
}

#[test]
fn test_is_ignored_start_menu_entry_name_filters_obvious_non_launchers() {
    assert!(is_ignored_start_menu_entry_name("Uninstall RustDesk"));
    assert!(is_ignored_start_menu_entry_name("remove Tool"));
    assert!(is_ignored_start_menu_entry_name("Repair Discord"));
    assert!(!is_ignored_start_menu_entry_name("RustDesk"));
}

#[test]
fn test_package_family_name_from_aumid_extracts_prefix() {
    let family =
        package_family_name_from_aumid("SpotifyAB.SpotifyMusic_zpdnekdrzrea0!Spotify").unwrap();

    assert_eq!(family, "SpotifyAB.SpotifyMusic_zpdnekdrzrea0");
}

// Further cases of this library.

#[test]
fn catalog_records_need_existing_absolute_executables() {
    let entry = classify_catalog_record(
        " Tool ",
        r" C:\Tools\Tool.EXE ",
        Some(r"C:\Tools\Tool.EXE".to_string()),
    )
    .unwrap();
    assert_eq!(entry.name, "Tool");
    assert_eq!(entry.target, InstalledAppCatalogTarget::Path(r"C:\Tools\Tool.EXE".to_string()));
    assert!(classify_catalog_record("Tool", r"C:\Tools\Tool.exe", None).is_none());
    assert!(classify_catalog_record("Docs", "https://docs.python.org/", None).is_none());
    assert!(classify_catalog_record("  ", "A!B", None).is_none());
}

#[test]
fn app_paths_entries_are_unquoted_and_named() {
    let entry = classify_app_paths_entry(
        " Discord ",
        r#""C:\Apps\Discord.exe""#,
        Some(r"C:\Apps\Discord.exe".to_string()),
    )
    .unwrap();
    assert_eq!(entry.name, "Discord");
    assert!(classify_app_paths_entry("", r"C:\Apps\Discord.exe", Some(r"C:\Apps\Discord.exe".to_string())).is_none());
    assert_eq!(app_paths_display_name("discord.exe", r"C:\x\Other.exe"), "discord");
    assert_eq!(app_paths_display_name("", r"C:\x\Other.exe"), "Other");
}

#[test]
fn quotes_and_verbatim_prefixes_are_stripped() {
    assert_eq!(unquote_wrapped_text("\"a b\""), "a b");
    assert_eq!(unquote_wrapped_text("\""), "\"");
    assert_eq!(unquote_wrapped_text("plain"), "plain");
    assert_eq!(strip_windows_verbatim_prefix(r"\\?\UNC\server\share\x"), r"\\server\share\x");
    assert_eq!(strip_windows_verbatim_prefix(r"\\?\C:\x"), r"C:\x");
    assert_eq!(strip_windows_verbatim_prefix(r"C:\x"), r"C:\x");
}

#[test]
fn application_ids_without_a_family_are_refused() {
    assert_eq!(
        package_family_name_from_aumid("  !App"),
        Err("Invalid AUMID (missing package family name):   !App".to_string())
    );
    assert_eq!(package_family_name_from_aumid(" Family "), Ok("Family".to_string()));
}

fn no_facts() -> StartMenuFileFacts {
    StartMenuFileFacts { existing_file: None, shortcut: None, existing_target: None }
}

#[test]
fn test_classify_start_menu_entry_accepts_resolved_shortcut_without_args() {
    let facts = StartMenuFileFacts {
        existing_file: Some(r"C:\Temp\start-menu\RustDesk.lnk".to_string()),
        shortcut: Some((r"C:\Temp\start-menu\RustDesk.exe".to_string(), Vec::new())),
        existing_target: Some(r"C:\Temp\start-menu\RustDesk.exe".to_string()),
    };
    let entry = classify_start_menu_entry(r"C:\Temp\start-menu\RustDesk.lnk", facts).unwrap();
    assert_eq!(entry.name, "RustDesk");
    assert_eq!(entry.target, InstalledAppCatalogTarget::Path(r"C:\Temp\start-menu\RustDesk.exe".to_string()));
    assert_eq!(entry.source, InstalledAppCatalogSource::WindowsStartMenu);
}

#[test]
fn test_classify_start_menu_entry_rejects_shortcut_with_args() {
    let facts = StartMenuFileFacts {
        existing_file: Some(r"C:\Temp\start-menu-args\Launcher.lnk".to_string()),
        shortcut: Some((
            r"C:\Temp\start-menu-args\Launcher.exe".to_string(),
            vec!["--profile".to_string(), "default".to_string()],
        )),
        existing_target: Some(r"C:\Temp\start-menu-args\Launcher.exe".to_string()),
    };
    assert!(classify_start_menu_entry(r"C:\Temp\start-menu-args\Launcher.lnk", facts).is_none());
}

#[test]
fn test_classify_start_menu_entry_accepts_direct_exe() {
    let exe_path = r"C:\Temp\codex-start-menu-direct-1.exe";
    let facts = StartMenuFileFacts { existing_file: Some(exe_path.to_string()), shortcut: None, existing_target: None };
    let entry = classify_start_menu_entry(exe_path, facts).unwrap();
    assert_eq!(entry.name, "codex-start-menu-direct-1");
    assert_eq!(entry.target, InstalledAppCatalogTarget::Path(exe_path.to_string()));
}

#[test]
fn test_classify_start_menu_entry_rejects_non_launch_safe_files() {
    let url = StartMenuFileFacts { existing_file: Some(r"C:\Temp\bad\Docs.url".to_string()), shortcut: None, existing_target: None };
    assert!(classify_start_menu_entry(r"C:\Temp\bad\Docs.url", url).is_none());
    let broken = StartMenuFileFacts { existing_file: Some(r"C:\Temp\bad\Broken.lnk".to_string()), shortcut: None, existing_target: None };
    assert!(classify_start_menu_entry(r"C:\Temp\bad\Broken.lnk", broken).is_none());
    let uninstall = StartMenuFileFacts {
        existing_file: Some(r"C:\Temp\bad\Uninstall Tool.exe".to_string()),
        shortcut: None,
        existing_target: None,
    };
    assert!(classify_start_menu_entry(r"C:\Temp\bad\Uninstall Tool.exe", uninstall).is_none());
}

#[test]
fn start_menu_exe_must_exist_and_be_absolute() {
    assert!(classify_start_menu_entry(r"C:\Temp\Tool.exe", no_facts()).is_none());
    let relative = StartMenuFileFacts { existing_file: Some(r"Tool.exe".to_string()), shortcut: None, existing_target: None };
    assert!(classify_start_menu_entry("Tool.exe", relative).is_none());
    let upper = StartMenuFileFacts { existing_file: Some(r"C:\Temp\TOOL.EXE".to_string()), shortcut: None, existing_target: None };
    assert_eq!(classify_start_menu_entry(r"C:\Temp\ TOOL .EXE", upper).unwrap().name, "TOOL");
}

#[test]
fn test_classify_catalog_record_accepts_absolute_exe_path() {
    let exe_path = r"C:\Users\me\AppData\Local\Temp\codex-start-app-1.exe";
    let normalized = r"C:\Users\me\AppData\Local\Temp\codex-start-app-1.exe".to_string();
    let entry = classify_catalog_record("Tool", exe_path, Some(normalized.clone())).unwrap();
    assert_eq!(entry.name, "Tool");
    assert_eq!(entry.target, InstalledAppCatalogTarget::Path(normalized));
    assert_eq!(entry.source, InstalledAppCatalogSource::WindowsAppsFolder);
}

#[test]
fn test_classify_app_paths_entry_accepts_valid_absolute_exe() {
    let exe_path = r"C:\Users\me\AppData\Local\Temp\codex-app-paths-1.exe";
    let normalized = exe_path.to_string();
    let entry = classify_app_paths_entry("Discord", &format!("\"{}\"", exe_path), Some(normalized.clone())).unwrap();
    assert_eq!(entry.name, "Discord");
    assert_eq!(entry.target, InstalledAppCatalogTarget::Path(normalized));
    assert_eq!(entry.source, InstalledAppCatalogSource::WindowsAppPaths);
}

#[test]
fn supported_exe_paths_are_absolute_existing_exe_files() {
    assert!(is_supported_absolute_exe_path(r"C:\Tools\app.EXE", true));
    assert!(!is_supported_absolute_exe_path(r"C:\Tools\app.exe", false));
    assert!(!is_supported_absolute_exe_path(r"Tools\app.exe", true));
    assert!(!is_supported_absolute_exe_path(r"C:\Tools\app.lnk", true));
    assert!(is_supported_absolute_exe_path(r"\\server\share\app.exe", true));
}
