use cpu_affinity_tool::catalog::InstalledAppCatalogTarget;
use cpu_affinity_tool::desktop_entry::{
    desktop_catalog_entries, desktop_exec_command, desktop_exec_tokens, parse_desktop_entry,
    strip_exec_field_codes, DesktopEntry, DesktopFile,
};

#[test]
fn test_strip_exec_field_codes_handles_desktop_placeholders() {
    assert_eq!(strip_exec_field_codes("%u"), None);
    assert_eq!(strip_exec_field_codes("--profile=%k"), Some("--profile=".to_string()));
    assert_eq!(strip_exec_field_codes("100%%"), Some("100%".to_string()));
}

#[test]
fn test_desktop_exec_tokens_drop_field_codes() {
    let tokens = desktop_exec_tokens(r#"flatpak run app.id --arg %u --title="Hello %c""#).unwrap();
    assert_eq!(
        tokens,
        vec![
            "flatpak".to_string(),
            "run".to_string(),
            "app.id".to_string(),
            "--arg".to_string(),
            "--title=Hello".to_string(),
        ]
    );
}

#[test]
fn unknown_codes_and_a_trailing_percent_are_kept() {
    assert_eq!(strip_exec_field_codes("50%x"), Some("50%x".to_string()));
    assert_eq!(strip_exec_field_codes("  done% "), Some("done%".to_string()));
    assert_eq!(desktop_exec_tokens("%f %U"), Err("Exec is empty".to_string()));
    assert_eq!(
        desktop_exec_tokens(r#"app "unclosed"#),
        Ok(vec![r#"app "unclosed"#.to_string()])
    );
}

#[test]
fn env_invocations_run_the_command_after_the_assignments() {
    assert_eq!(
        desktop_exec_command("env FOO=1 BAR=2 /usr/bin/app --x %f"),
        Ok(("/usr/bin/app".to_string(), vec!["--x".to_string()]))
    );
    assert_eq!(
        desktop_exec_command("env -u X=1 app"),
        Ok(("-u".to_string(), vec!["X=1".to_string(), "app".to_string()]))
    );
    assert_eq!(
        desktop_exec_command("env A=1"),
        Err("desktop Exec= only contained env assignments".to_string())
    );
    assert_eq!(
        desktop_exec_command("firefox %u"),
        Ok(("firefox".to_string(), Vec::new()))
    );
}

#[test]
fn desktop_entry_is_read_from_its_section_only() {
    let content = "# comment\n[Other]\nName=Wrong\nExec=wrong\n[desktop entry]\nName = Editor \nName=Second\nExec=editor %F\r\nType=Application\nHidden=TRUE\nNoDisplay=no\n";
    let entry = parse_desktop_entry(content).unwrap();
    assert_eq!(
        entry,
        DesktopEntry {
            name: "Editor".to_string(),
            exec_value: "editor %F".to_string(),
            hidden: true,
            no_display: false,
            entry_type: Some("Application".to_string()),
        }
    );
    assert_eq!(parse_desktop_entry("[Desktop Entry]\nExec=x").unwrap().name, "Unknown");
    assert_eq!(
        parse_desktop_entry("[Desktop Entry]\nName=x\n"),
        Err("Exec= not found in .desktop".to_string())
    );
}

fn file(path: &str, content: &str, exec_resolves: bool) -> DesktopFile {
    DesktopFile {
        path: path.to_string(),
        entry: parse_desktop_entry(content),
        exec_resolves,
    }
}

#[test]
fn desktop_catalog_offers_visible_applications_once_sorted_by_name() {
    let entries = desktop_catalog_entries(vec![
        file("/a/zed.desktop", "[Desktop Entry]\nName=Zed\nExec=zed\n", true),
        file("/a/hidden.desktop", "[Desktop Entry]\nName=Hidden\nExec=h\nHidden=true\n", true),
        file("/a/link.desktop", "[Desktop Entry]\nName=Link\nExec=l\nType=Link\n", true),
        file("/a/missing.desktop", "[Desktop Entry]\nName=Missing\nExec=m\n", false),
        file("/a/broken.desktop", "[Desktop Entry]\nName=Broken\n", true),
        file("/a/amp.desktop", "[Desktop Entry]\nName=amp\nExec=amp\n", true),
        file("/A/AMP.desktop", "[Desktop Entry]\nName=AMP\nExec=amp\n", true),
    ]);
    let listed: Vec<(&str, &InstalledAppCatalogTarget)> =
        entries.iter().map(|(e, _)| (e.name.as_str(), &e.target)).collect();
    assert_eq!(
        listed,
        vec![
            ("amp", &InstalledAppCatalogTarget::Path("/a/amp.desktop".to_string())),
            ("Zed", &InstalledAppCatalogTarget::Path("/a/zed.desktop".to_string())),
        ]
    );
}
