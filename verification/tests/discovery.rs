use cpu_affinity_tool::catalog::{
    InstalledAppCatalogEntry, InstalledAppCatalogSource, InstalledAppCatalogTarget,
};
use cpu_affinity_tool::discovery::{
    app_from_installed_entry, apps_from_dropped_paths, start_dropped_paths, step_dropped_paths, DroppedFile,
    DroppedPathsAction,
};

#[test]
fn test_installed_aumid_entry_converts_to_installed_app() {
    let app = app_from_installed_entry(
        InstalledAppCatalogEntry::new_aumid(
            "Spotify".to_string(),
            "SpotifyAB.SpotifyMusic_zpdnekdrzrea0!Spotify".to_string(),
            InstalledAppCatalogSource::WindowsAppsFolder,
        ),
        None,
    )
    .unwrap();

    assert!(app.is_installed_target());
    assert_eq!(app.name, "Spotify");
    assert_eq!(
        app.installed_aumid(),
        Some("SpotifyAB.SpotifyMusic_zpdnekdrzrea0!Spotify")
    );
    assert!(app.additional_processes.is_empty());
}

#[test]
fn test_installed_path_entry_keeps_catalog_name_and_tracks_primary_process() {
    let path = r"C:\Tools\Sample.exe".to_string();
    let app = app_from_installed_entry(
        InstalledAppCatalogEntry::new_path(
            "Catalog Name".to_string(),
            path.clone(),
            InstalledAppCatalogSource::WindowsAppPaths,
        ),
        Some(Ok((path.clone(), Vec::new()))),
    )
    .unwrap();

    assert!(app.is_path_target());
    assert_eq!(app.name, "Catalog Name");
    assert_eq!(app.bin_path(), Some(r"C:\Tools\Sample.exe"));
    assert_eq!(app.additional_processes, vec!["Sample.exe".to_string()]);
}

#[test]
fn test_apps_from_dropped_paths_stops_after_first_parse_error() {
    let discovered = apps_from_dropped_paths(vec![
        DroppedFile {
            path: r"C:\Tools\Sample.exe".to_string(),
            resolved: Ok((r"C:\Tools\Sample.exe".to_string(), Vec::new())),
        },
        DroppedFile {
            path: r"C:\Tools\NoExtension".to_string(),
            resolved: Err(r#"Failed to get file extension for "C:\\Tools\\NoExtension""#.to_string()),
        },
        DroppedFile {
            path: r"C:\Tools\NeverParsed.exe".to_string(),
            resolved: Ok((r"C:\Tools\NeverParsed.exe".to_string(), Vec::new())),
        },
    ]);

    assert_eq!(discovered.apps.len(), 1);
    assert_eq!(discovered.apps[0].bin_path(), Some(r"C:\Tools\Sample.exe"));
    assert!(discovered
        .first_error
        .as_deref()
        .is_some_and(|error| error.contains("Failed to get file extension")));
}

#[test]
fn test_catalog_source_contracts_match_picker_expectations() {
    assert_eq!(
        InstalledAppCatalogSource::WindowsAppsFolder.label(),
        "AppsFolder"
    );
    assert_eq!(
        InstalledAppCatalogSource::LinuxDesktopEntry.label(),
        "Desktop entry"
    );
    assert!(
        InstalledAppCatalogSource::WindowsAppsFolder.picker_priority()
            < InstalledAppCatalogSource::WindowsStartMenu.picker_priority()
    );
    assert!(InstalledAppCatalogSource::LinuxPathExecutable.hide_until_query());
    assert!(!InstalledAppCatalogSource::LinuxDesktopEntry.hide_until_query());
}

#[test]
fn test_catalog_entry_builders_populate_detail_from_target() {
    let aumid = InstalledAppCatalogEntry::new_aumid(
        "Store App".to_string(),
        "Package!App".to_string(),
        InstalledAppCatalogSource::WindowsAppsFolder,
    );
    assert_eq!(aumid.detail, "Package!App");
    assert_eq!(
        aumid.target,
        InstalledAppCatalogTarget::Aumid("Package!App".to_string())
    );

    let path = InstalledAppCatalogEntry::new_path(
        "Tool".to_string(),
        r"C:\Tools\Tool.exe".to_string(),
        InstalledAppCatalogSource::WindowsAppPaths,
    )
    .with_detail("Resolved Tool".to_string());
    assert_eq!(path.detail, "Resolved Tool");
    assert_eq!(
        path.target,
        InstalledAppCatalogTarget::Path(r"C:\Tools\Tool.exe".to_string())
    );
}

#[test]
fn dropped_files_all_resolved_report_no_error_and_default_names() {
    let discovered = apps_from_dropped_paths(vec![DroppedFile {
        path: r"C:\Games\game.launcher.lnk".to_string(),
        resolved: Ok((r"D:\Game\Game.exe".to_string(), vec!["-fast".to_string()])),
    }]);
    assert_eq!(discovered.first_error, None);
    assert_eq!(discovered.apps.len(), 1);
    assert_eq!(discovered.apps[0].name, "game");
    assert_eq!(discovered.apps[0].args, vec!["-fast".to_string()]);
    assert_eq!(discovered.apps[0].additional_processes, vec!["Game.exe".to_string()]);
}

#[test]
fn picker_path_entry_reports_resolution_error() {
    let result = app_from_installed_entry(
        InstalledAppCatalogEntry::new_path(
            "Broken".to_string(),
            r"C:\x\broken".to_string(),
            InstalledAppCatalogSource::WindowsStartMenu,
        ),
        Some(Err("cannot resolve".to_string())),
    );
    assert_eq!(result.err(), Some("cannot resolve".to_string()));
}

#[test]
fn catalog_priorities_and_labels() {
    assert_eq!(InstalledAppCatalogSource::WindowsStartMenu.label(), "Start Menu");
    assert_eq!(InstalledAppCatalogSource::WindowsAppPaths.label(), "App Paths");
    assert_eq!(InstalledAppCatalogSource::LinuxPathExecutable.label(), "PATH executable");
    assert_eq!(InstalledAppCatalogSource::LinuxDesktopEntry.picker_priority(), 0);
    assert_eq!(InstalledAppCatalogSource::WindowsStartMenu.picker_priority(), 1);
    assert_eq!(InstalledAppCatalogSource::WindowsAppPaths.picker_priority(), 2);
    assert!(!InstalledAppCatalogSource::WindowsAppsFolder.hide_until_query());
}

#[test]
fn dropped_path_scan_never_parses_after_first_error() {
    let paths = vec![
        r"C:\Tools\Sample.exe".to_string(),
        r"C:\Tools\NoExtension".to_string(),
        r"C:\Tools\NeverParsed.exe".to_string(),
    ];
    let mut asked: Vec<String> = Vec::new();
    let (mut scan, mut action) = start_dropped_paths(paths);
    let error = loop {
        match action {
            DroppedPathsAction::Finish(e) => break e,
            DroppedPathsAction::Parse(p) => {
                asked.push(p.clone());
                let parsed = if p.ends_with(".exe") {
                    Ok((p.clone(), Vec::new()))
                } else {
                    Err(format!("Failed to get file extension for {p:?}"))
                };
                let (s, a) = step_dropped_paths(scan, parsed);
                scan = s;
                action = a;
            }
        }
    };
    assert_eq!(asked, vec![r"C:\Tools\Sample.exe".to_string(), r"C:\Tools\NoExtension".to_string()]);
    assert_eq!(scan.apps.len(), 1);
    assert_eq!(scan.apps[0].bin_path(), Some(r"C:\Tools\Sample.exe"));
    assert!(error.is_some_and(|e| e.contains("Failed to get file extension")));
}
