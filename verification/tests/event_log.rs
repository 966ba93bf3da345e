use cpu_affinity_tool::event_log::{
    application_error_from_values, failure_fields, failure_from_fields, hresult_from_win32,
    is_query_complete_error, is_scalar, matches_executable_path, normalize_windows_path, parse_exception_code,
    render_paths, sanitized_basename, EventSystemValues, NamedEventData, ERROR_NO_MORE_ITEMS,
    ERROR_TIMEOUT, EVT_VARIANT_TYPE_ARRAY,
};

const ERROR_ACCESS_DENIED: u32 = 5;
const EVT_VAR_TYPE_UINT16: i32 = 6;

#[test]
fn query_completion_accepts_end_of_results_and_zero_timeout() {
    assert!(is_query_complete_error(hresult_from_win32(ERROR_NO_MORE_ITEMS)));
    assert!(is_query_complete_error(hresult_from_win32(ERROR_TIMEOUT)));
    assert!(!is_query_complete_error(hresult_from_win32(ERROR_ACCESS_DENIED)));
}

#[test]
fn parses_the_application_error_access_violation_code() {
    assert_eq!(parse_exception_code("c0000005"), Some(0xc000_0005));
    assert_eq!(parse_exception_code("0xC0000005"), Some(0xc000_0005));
    assert_eq!(parse_exception_code("not-a-code"), None);
}

fn valid_system(version: u8) -> EventSystemValues {
    EventSystemValues {
        provider: "Application Error".to_string(),
        event_id: 1000,
        version,
        event_record_id: 42,
        timestamp_utc: "2026-08-29T12:00:00.000Z".to_string(),
    }
}

#[test]
fn accepts_complete_named_values_for_the_current_executable() {
    let result = application_error_from_values(
        valid_system(1),
        NamedEventData {
            app_name: Some("cpu-affinity-tool.exe".to_string()),
            app_path: Some(r"C:\Tools\cpu-affinity-tool.exe".to_string()),
            faulting_module_name: Some("kernelbase.dll".to_string()),
            faulting_module_path: None,
            exception_code: Some("c0000005".to_string()),
        },
        &[],
        r"C:\Tools\cpu-affinity-tool.exe",
    )
    .unwrap();

    assert_eq!(result.event_record_id, 42);
    assert_eq!(result.exception_code, 0xc000_0005);
    assert_eq!(result.faulting_module, "kernelbase.dll");
}

#[test]
fn accepts_only_the_known_version_zero_positional_layout() {
    let mut positional = vec![Some(String::new()); 15];
    positional[0] = Some("cpu-affinity-tool.exe".to_string());
    positional[3] = Some("ntdll.dll".to_string());
    positional[6] = Some("0xc0000005".to_string());
    positional[10] = Some(r"C:\Tools\cpu-affinity-tool.exe".to_string());
    positional[11] = Some(r"C:\Windows\System32\ntdll.dll".to_string());

    assert!(application_error_from_values(
        valid_system(0),
        NamedEventData::default(),
        &positional,
        r"C:\Tools\cpu-affinity-tool.exe",
    )
    .is_some());
    assert!(application_error_from_values(
        valid_system(1),
        NamedEventData::default(),
        &positional,
        r"C:\Tools\cpu-affinity-tool.exe",
    )
    .is_none());

    let mut malformed = positional[..15].to_vec();
    malformed[14] = None;
    assert!(application_error_from_values(
        valid_system(0),
        NamedEventData::default(),
        &malformed,
        r"C:\Tools\cpu-affinity-tool.exe",
    )
    .is_none());

    positional.push(Some("unexpected extra data".to_string()));
    assert!(application_error_from_values(
        valid_system(0),
        NamedEventData::default(),
        &positional,
        r"C:\Tools\cpu-affinity-tool.exe",
    )
    .is_none());
}

#[test]
fn only_renders_named_event_1000_fields_from_the_event_root() {
    let paths = render_paths();
    assert_eq!(paths.len(), 5);
    assert!(paths
        .iter()
        .all(|path| path.starts_with("Event/EventData/Data[@Name='")));
    assert!(paths.contains(&"Event/EventData/Data[@Name='AppPath']"));
    assert!(paths.contains(&"Event/EventData/Data[@Name='ModuleName']"));
    assert!(paths.contains(&"Event/EventData/Data[@Name='ModulePath']"));
}

#[test]
fn scalar_type_check_ignores_count_but_rejects_arrays() {
    let scalar_with_zero_count_type = EVT_VAR_TYPE_UINT16 as u32;
    let array_type = EVT_VAR_TYPE_UINT16 as u32 | EVT_VARIANT_TYPE_ARRAY;

    assert!(is_scalar(scalar_with_zero_count_type, EVT_VAR_TYPE_UINT16));
    assert!(!is_scalar(array_type, EVT_VAR_TYPE_UINT16));
}

#[test]
fn rejects_a_matching_filename_at_a_different_path() {
    let result = application_error_from_values(
        valid_system(0),
        NamedEventData {
            app_name: Some("cpu-affinity-tool.exe".to_string()),
            app_path: Some(r"D:\Other\cpu-affinity-tool.exe".to_string()),
            faulting_module_name: Some("ntdll.dll".to_string()),
            faulting_module_path: None,
            exception_code: Some("c0000005".to_string()),
        },
        &[],
        r"C:\Tools\cpu-affinity-tool.exe",
    );

    assert!(result.is_none());
}

#[test]
fn strips_control_and_bidirectional_characters_from_module_basename() {
    let result = application_error_from_values(
        valid_system(1),
        NamedEventData {
            app_name: Some("cpu-affinity-tool.exe".to_string()),
            app_path: Some(r"C:\Tools\cpu-affinity-tool.exe".to_string()),
            faulting_module_name: Some("C:\\Windows\\kernel\u{200b}\u{202e}base.dll\n".to_string()),
            faulting_module_path: None,
            exception_code: Some("c0000005".to_string()),
        },
        &[],
        r"C:\Tools\cpu-affinity-tool.exe",
    )
    .unwrap();

    assert_eq!(result.faulting_module, "kernelbase.dll");
}

// Further cases of this library.

#[test]
fn hresult_values_match_the_win32_mapping() {
    assert_eq!(hresult_from_win32(ERROR_NO_MORE_ITEMS), 0x8007_0103u32 as i32);
    assert_eq!(hresult_from_win32(0), 0);
    assert_eq!(hresult_from_win32(0x8000_4005), 0x8000_4005u32 as i32);
}

#[test]
fn exception_codes_need_exactly_eight_hex_digits() {
    assert_eq!(parse_exception_code("0X0000ffFF"), Some(0xffff));
    assert_eq!(parse_exception_code("c000005"), None);
    assert_eq!(parse_exception_code("0xc00000050"), None);
    assert_eq!(parse_exception_code("0x"), None);
}

#[test]
fn windows_paths_are_normalized_for_comparison() {
    assert_eq!(
        normalize_windows_path(r"  \\?\C:/Tools/app.exe\\ "),
        Some(r"C:\Tools\app.exe".to_string())
    );
    assert_eq!(normalize_windows_path(r"C:relative"), None);
    assert_eq!(normalize_windows_path(r"\\.\pipe\x:y"), None);
    assert_eq!(normalize_windows_path("no drive"), None);
    assert_eq!(
        normalize_windows_path(r"\\server\share\a:b"),
        Some(r"\\server\share\a:b".to_string())
    );
}

#[test]
fn module_basenames_fall_back_to_the_module_path() {
    assert_eq!(sanitized_basename("\u{200b}"), None);
    assert_eq!(sanitized_basename("C:/x/y.dll"), Some("y.dll".to_string()));
    let system = valid_system(1);
    let fields = failure_fields(
        &system,
        NamedEventData {
            app_name: Some("APP.EXE".to_string()),
            app_path: Some(r"c:\tools\app.exe".to_string()),
            faulting_module_name: Some("\u{feff}".to_string()),
            faulting_module_path: Some(r"C:\Windows\mod.dll".to_string()),
            exception_code: Some("80000003".to_string()),
        },
        &[],
    )
    .unwrap();
    let failure = failure_from_fields(system, fields, r"C:\Tools\app.exe", None).unwrap();
    assert_eq!(failure.faulting_module, "mod.dll");
    assert_eq!(failure.exception_code, 0x8000_0003);
    assert_eq!(failure.timestamp_utc, "2026-08-29T12:00:00.000Z");
}

#[test]
fn canonical_paths_decide_when_both_are_known() {
    let system = valid_system(1);
    let fields = failure_fields(
        &system,
        NamedEventData {
            app_name: Some("app.exe".to_string()),
            app_path: Some(r"C:\Link\app.exe".to_string()),
            faulting_module_name: Some("m.dll".to_string()),
            faulting_module_path: None,
            exception_code: Some("c0000005".to_string()),
        },
        &[],
    )
    .unwrap();
    let failure = failure_from_fields(
        system,
        fields,
        r"C:\Tools\app.exe",
        Some((r"C:\Tools\app.exe".to_string(), r"C:\Tools\app.exe".to_string())),
    );
    assert!(failure.is_some());
}

#[test]
fn records_of_another_provider_or_without_timestamp_are_ignored() {
    let mut system = valid_system(1);
    system.provider = "Other".to_string();
    let named = NamedEventData {
        app_name: Some("a.exe".to_string()),
        app_path: Some(r"C:\a.exe".to_string()),
        faulting_module_name: Some("m.dll".to_string()),
        faulting_module_path: None,
        exception_code: Some("c0000005".to_string()),
    };
    assert!(failure_fields(&system, named.clone(), &[]).is_none());
    let mut system = valid_system(1);
    system.timestamp_utc = String::new();
    assert!(failure_fields(&system, named, &[]).is_none());
}

#[test]
fn executable_path_comparison_folds_unicode_case() {
    assert!(matches_executable_path(r"C:\Spiele\ÄPFEL.EXE", r"c:\spiele\äpfel.exe", None));
    assert!(!matches_executable_path(r"C:\Spiele\Äpfel.exe", r"C:\Spiele\Apfel.exe", None));
}

#[test]
fn executable_path_comparison_is_ordinal_not_lowercase_folding() {
    // The Kelvin sign lower-cases to `k` but is not the same letter in an ordinal comparison.
    assert!(!matches_executable_path("C:\\Tools\\\u{212A}ey.exe", r"C:\Tools\key.exe", None));
    assert!(matches_executable_path(r"C:\Tools\KEY.EXE", r"c:\tools\key.exe", None));
}
