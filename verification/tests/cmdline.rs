use cpu_affinity_tool::cmdline::{build_command_line, quote_arg_windows};

#[test]
fn test_quote_arg_windows_handles_embedded_quotes() {
    let arg = r#"say "hello""#;
    let quoted = quote_arg_windows(arg);
    let exe = r"C:\Tools\app.exe";
    let cmdline = format!("{} {}", quote_arg_windows(exe), quoted);
    assert_eq!(quoted, r#""say \"hello\"""#);
    assert_eq!(cmdline, r#"C:\Tools\app.exe "say \"hello\"""#);
}

#[test]
fn test_build_command_line_roundtrips_spaces_quotes_and_trailing_backslashes() {
    let exe = r"C:\Program Files\Test App\app.exe";
    let args = vec![
        "simple".to_string(),
        "two words".to_string(),
        "embedded \"quote\"".to_string(),
        r#"C:\Path With Space\folder\"#.to_string(),
    ];

    let cmdline = build_command_line(exe, &args);

    assert_eq!(
        cmdline,
        r#""C:\Program Files\Test App\app.exe" simple "two words" "embedded \"quote\"" "C:\Path With Space\folder\\""#
    );
}

#[test]
fn quoting_leaves_plain_arguments_and_marks_empty_ones() {
    assert_eq!(quote_arg_windows(""), "\"\"");
    assert_eq!(quote_arg_windows(r"C:\plain\path"), r"C:\plain\path");
    assert_eq!(quote_arg_windows("tab\there"), "\"tab\there\"");
    assert_eq!(quote_arg_windows(r#"a\\"b"#), r#""a\\\\\"b""#);
    assert_eq!(quote_arg_windows(r"end with space\ "), r#""end with space\ ""#);
}

#[test]
fn command_line_without_arguments_is_the_quoted_executable() {
    assert_eq!(build_command_line(r"C:\a b\x.exe", &Vec::new()), r#""C:\a b\x.exe""#);
    assert_eq!(build_command_line(r"C:\x.exe", &vec![String::new()]), r#"C:\x.exe """#);
}
