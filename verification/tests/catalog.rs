use cpu_affinity_tool::catalog::{
    InstalledAppCatalogEntry, InstalledAppCatalogSource, InstalledAppCatalogTarget,
};
use cpu_affinity_tool::catalog_merge::{
    dedup_catalog_entries, merge_catalog_results, merge_catalog_sources,
    normalize_existing_windows_path, sort_catalog_entries, target_identity, IdentifiedEntry,
};
use cpu_affinity_tool::powershell_json::{appx_package_record, apps_folder_records};
use cpu_affinity_tool::shell::{
    app_paths_display_name, appx_package_runtime_info, classify_catalog_record,
    strip_windows_verbatim_prefix,
};

const SPOTIFY: &str = "SpotifyAB.SpotifyMusic_zpdnekdrzrea0!Spotify";

#[test]
fn test_strip_windows_verbatim_prefix_handles_local_and_unc_forms() {
    assert_eq!(strip_windows_verbatim_prefix(r"\\?\C:\Tools\app.exe"), r"C:\Tools\app.exe");
    assert_eq!(
        strip_windows_verbatim_prefix(r"\\?\UNC\server\share\tool.exe"),
        r"\\server\share\tool.exe"
    );
}

#[test]
fn test_normalize_existing_windows_path_keeps_missing_path_unchanged() {
    let missing = r"C:\definitely-missing-codex-test-path.exe";
    assert_eq!(normalize_existing_windows_path(missing, None), missing);
    assert_eq!(
        normalize_existing_windows_path(r"c:\tools\x.exe", Some(r"\\?\C:\Tools\X.exe".to_string())),
        r"C:\Tools\X.exe"
    );
}

#[test]
fn test_app_paths_display_name_falls_back_to_exe_stem() {
    assert_eq!(app_paths_display_name("Discord.exe", r"C:\Tools\Discord.exe"), "Discord");
}

/// The library's half of the AppX JSON parse: the record, then its runtime facts.
fn parse_appx_json(json: &str, aumid: &str) -> Result<cpu_affinity_tool::catalog::InstalledPackageRuntimeInfo, String> {
    let (family, location) = appx_package_record(json.as_bytes(), aumid)?;
    appx_package_runtime_info(family, location, aumid)
}

#[test]
fn test_parse_apps_folder_json_rejects_unsupported_records() {
    let json = r#"[{"Name":"Docs","Path":"https://docs.python.org/"},{"Name":"Help","Path":"http://support.steampowered.com/"},{"Name":"Shortcut","Path":"Chrome"}]"#;
    let records = apps_folder_records(json.as_bytes()).unwrap();
    assert_eq!(records.len(), 3);
    let entries: Vec<InstalledAppCatalogEntry> = records
        .iter()
        .filter_map(|(name, path)| classify_catalog_record(name, path, None))
        .collect();
    assert!(entries.is_empty());
}

#[test]
fn test_parse_appx_package_runtime_info_json_parses_install_root() {
    let json = r#"{"PackageFamilyName":"SpotifyAB.SpotifyMusic_zpdnekdrzrea0","InstallLocation":"C:\\Program Files\\WindowsApps\\SpotifyAB.SpotifyMusic_1.2.3.4_x64__zpdnekdrzrea0"}"#;
    let info = parse_appx_json(json, SPOTIFY).unwrap();

    assert_eq!(info.aumid, SPOTIFY);
    assert_eq!(info.package_family_name, "SpotifyAB.SpotifyMusic_zpdnekdrzrea0");
    assert_eq!(
        info.install_root,
        r"C:\Program Files\WindowsApps\SpotifyAB.SpotifyMusic_1.2.3.4_x64__zpdnekdrzrea0"
    );
}

#[test]
fn test_parse_appx_package_runtime_info_json_rejects_invalid_install_root() {
    let json = r#"{"PackageFamilyName":"SpotifyAB.SpotifyMusic_zpdnekdrzrea0","InstallLocation":""}"#;
    let err = parse_appx_json(json, SPOTIFY).unwrap_err();

    assert!(err.contains("InstallLocation"));
    assert_eq!(
        appx_package_runtime_info("  ".to_string(), r"C:\x".to_string(), SPOTIFY),
        Err(format!("Package metadata for {SPOTIFY} is missing PackageFamilyName"))
    );
    assert!(appx_package_runtime_info("F".to_string(), "relative\\dir".to_string(), SPOTIFY).is_err());
    assert_eq!(
        appx_package_runtime_info("F".to_string(), " C:/Apps/F ".to_string(), SPOTIFY)
            .unwrap()
            .install_root,
        "C:/Apps/F"
    );
}

fn entry(name: &str, target: InstalledAppCatalogTarget) -> IdentifiedEntry {
    let identity = target_identity(&target, None);
    (
        InstalledAppCatalogEntry {
            name: name.to_string(),
            target,
            source: InstalledAppCatalogSource::WindowsAppsFolder,
            detail: String::new(),
        },
        identity,
    )
}

fn names(entries: &[IdentifiedEntry]) -> Vec<&str> {
    entries.iter().map(|(e, _)| e.name.as_str()).collect()
}

#[test]
fn test_target_identity_normalizes_aumid_and_path() {
    assert_eq!(
        target_identity(&InstalledAppCatalogTarget::Aumid("Test.App!Main".into()), None),
        "aumid:test.app!main"
    );
    assert_eq!(
        target_identity(
            &InstalledAppCatalogTarget::Path(r"c:\tools\discord.exe".into()),
            Some(r"\\?\C:\Tools\Discord.exe".to_string())
        ),
        r"path:c:\tools\discord.exe"
    );
}

#[test]
fn test_merge_catalog_sources_dedups_by_target_identity_and_keeps_precedence_order() {
    let path = r"C:\Tools\Discord.exe";
    let merged = merge_catalog_sources(
        vec![
            entry("Spotify", InstalledAppCatalogTarget::Aumid(SPOTIFY.into())),
            entry("Friendly Discord", InstalledAppCatalogTarget::Path(path.into())),
        ],
        vec![entry("Start Menu Discord", InstalledAppCatalogTarget::Path(path.into()))],
    );
    let merged = merge_catalog_sources(
        merged,
        vec![
            entry(
                "Duplicate Spotify",
                InstalledAppCatalogTarget::Aumid("spotifyab.spotifymusic_zpdnekdrzrea0!spotify".into()),
            ),
            entry("Discord", InstalledAppCatalogTarget::Path(r"c:\tools\discord.exe".into())),
        ],
    );

    assert_eq!(merged.len(), 2);
    assert_eq!(names(&merged), vec!["Friendly Discord", "Spotify"]);
}

#[test]
fn test_dedup_catalog_entries_collapses_duplicates_inside_one_source() {
    let entries = vec![
        entry("Discord", InstalledAppCatalogTarget::Path(r"C:\Tools\Discord.exe".into())),
        entry("Discord Duplicate", InstalledAppCatalogTarget::Path(r"c:\tools\DISCORD.exe".into())),
    ];
    let deduped = dedup_catalog_entries(entries);
    assert_eq!(names(&deduped), vec!["Discord"]);
}

#[test]
fn sorting_is_by_lowercase_name_and_keeps_ties_in_order() {
    let sorted = sort_catalog_entries(vec![
        entry("beta", InstalledAppCatalogTarget::Aumid("a!1".into())),
        entry("Alpha", InstalledAppCatalogTarget::Aumid("a!2".into())),
        entry("BETA", InstalledAppCatalogTarget::Aumid("a!3".into())),
        entry("alpha2", InstalledAppCatalogTarget::Aumid("a!4".into())),
    ]);
    assert_eq!(names(&sorted), vec!["Alpha", "alpha2", "beta", "BETA"]);
}

#[test]
fn merged_results_prefer_earlier_sources_and_report_all_failures() {
    let merged = merge_catalog_results(
        Err("powershell failed".to_string()),
        Ok(vec![entry("Zed", InstalledAppCatalogTarget::Aumid("z!1".into()))]),
        Ok(vec![
            entry("Zed again", InstalledAppCatalogTarget::Aumid("Z!1".into())),
            entry("Amp", InstalledAppCatalogTarget::Path(r"C:\amp.exe".into())),
        ]),
    )
    .unwrap();
    assert_eq!(names(&merged), vec!["Amp", "Zed"]);

    assert_eq!(
        merge_catalog_results(Err("a".into()), Err("b".into()), Err("c".into())).unwrap_err(),
        "Failed to enumerate installed apps from AppsFolder (a), Start Menu (b), App Paths (c)"
    );
}

#[test]
fn apps_folder_json_accepts_single_record_and_reports_shapes() {
    let one = apps_folder_records(br#"{"Name":"Tool","Path":"C:\\Tools\\Tool.exe","Extra":1}"#).unwrap();
    assert_eq!(one, vec![("Tool".to_string(), r"C:\Tools\Tool.exe".to_string())]);
    assert_eq!(
        apps_folder_records(b"42"),
        Err("Unexpected PowerShell JSON shape for AppsFolder enumeration".to_string())
    );
    assert_eq!(
        apps_folder_records(br#"[{"Name":"A","Path":"p"},{"Name":"B"}]"#),
        Err("Invalid AppsFolder record: member `Path` is missing or not a string".to_string())
    );
    assert!(apps_folder_records(b"{not json").unwrap_err().starts_with("Failed to parse AppsFolder JSON: "));
    assert_eq!(apps_folder_records(b"[]"), Ok(Vec::new()));
}

#[test]
fn appx_json_takes_first_array_record_and_reports_missing_package() {
    let json = br#"[{"PackageFamilyName":"F","InstallLocation":"C:\\A"},{"PackageFamilyName":"G","InstallLocation":"C:\\B"}]"#;
    assert_eq!(appx_package_record(json, "F!App"), Ok(("F".to_string(), r"C:\A".to_string())));
    assert_eq!(appx_package_record(b"[]", "F!App"), Err("Package metadata not found for F!App".to_string()));
    assert_eq!(
        appx_package_record(b"true", "F!App"),
        Err("Unexpected PowerShell JSON shape for Get-AppxPackage".to_string())
    );
    assert_eq!(
        appx_package_record(br#"{"PackageFamilyName":3,"InstallLocation":"x"}"#, "F!App"),
        Err("Invalid AppX package record: member `PackageFamilyName` is missing or not a string".to_string())
    );
}
