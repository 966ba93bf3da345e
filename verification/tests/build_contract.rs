use cpu_affinity_tool::build_contract::{
    cargo_lock_has_package, invalid_winres_manifest_metadata_keys, rust_code_without_comments_and_literals,
    rust_source_has_attribute, rust_source_has_global_allocator, strip_unquoted_hash_comment, text_lines_of,
    toml_has_dependency, toml_table_has_exact_key, yaml_named_step, yaml_step_has_active_text,
};

#[test]
fn contract_parsers_scope_exact_keys_and_named_steps() {
    let cargo_toml = r#"
[profile.release]
debug-assertions = false
strip = "symbols"

[profile.dev]
debug = true
"#;
    assert!(!toml_table_has_exact_key(cargo_toml, "profile.release", "debug"));
    assert!(toml_table_has_exact_key(
        "[profile.release]\ndebug = \"line-tables-only\"",
        "profile.release",
        "debug"
    ));
    assert!(toml_table_has_exact_key(
        "[profile.release] # production profile\ndebug = \"line-tables-only\" # symbols",
        "profile.release",
        "debug"
    ));
    assert!(!toml_table_has_exact_key(
        "[profile.release]\nstrip = \"symbols\"\n[profile.dev] # another table\ndebug = true",
        "profile.release",
        "debug"
    ));

    let workflow = r#"
steps:
  - name: Unrelated step
    run: echo CARGO_PROFILE_RELEASE_DEBUG
  - name: Build Windows release binary
    run: ./scripts/build-windows-release.ps1
next-job:
  steps:
    - name: Later step
      run: echo target/release/cpu_affinity_tool.pdb
"#;
    let build_step = yaml_named_step(workflow, "Build Windows release binary").unwrap();
    assert!(yaml_step_has_active_text(&build_step, "build-windows-release.ps1"));
    assert!(!yaml_step_has_active_text(&build_step, "CARGO_PROFILE_RELEASE_DEBUG"));
    assert!(!yaml_step_has_active_text(&build_step, "cpu_affinity_tool.pdb"));

    let commented_workflow = r#"
steps:
  - name: Build Windows release binary
    # run: ./scripts/build-windows-release.ps1
    run: echo skipped
"#;
    let commented_step = yaml_named_step(commented_workflow, "Build Windows release binary").unwrap();
    assert!(!yaml_step_has_active_text(&commented_step, "./scripts/build-windows-release.ps1"));

    let inert_rust = "// #[global_allocator]\n/* outer /* #[global_allocator] */ comment */\nconst COOKED: &str = \"#[global_allocator]\";\nconst RAW: &str = r#\"#[global_allocator]\"#;\nconst RAW_BYTES: &[u8] = br#\"#[global_allocator]\"#;";
    assert!(!rust_source_has_global_allocator(inert_rust));
    assert!(rust_source_has_global_allocator(
        "# /* an attribute comment */ [ global_allocator ]\nstatic ALLOCATOR: System = System;"
    ));
}

#[test]
fn winres_metadata_allows_non_manifest_keys() {
    let cargo_toml = r#"
[package.metadata.winres]
FileDescription = "CPU Affinity Tool"
LegalCopyright = "MIT"

[dependencies]
manifest = "not a winres metadata key"
"#;

    assert!(invalid_winres_manifest_metadata_keys(cargo_toml).is_empty());
}

#[test]
fn winres_metadata_rejects_manifest_embedding_keys() {
    let cargo_toml = r#"
[package.metadata.winres]
manifest = "app.manifest"
manifest_file = "app.manifest"

[package.metadata.other]
manifest = "unrelated"
"#;

    assert_eq!(
        invalid_winres_manifest_metadata_keys(cargo_toml),
        vec!["manifest".to_string(), "manifest_file".to_string()]
    );
}

#[test]
fn lines_follow_str_lines() {
    let lines: Vec<String> = text_lines_of("a\r\nb\n\nc\r").into_iter().map(|l| l.into_iter().collect()).collect();
    assert_eq!(lines, vec!["a".to_string(), "b".to_string(), String::new(), "c\r".to_string()]);
    assert!(text_lines_of("").is_empty());
    assert_eq!(text_lines_of("x\n").len(), 1);
}

#[test]
fn hash_comments_respect_quotes_and_escapes() {
    assert_eq!(strip_unquoted_hash_comment("key = 1 # note"), "key = 1 ");
    assert_eq!(strip_unquoted_hash_comment("key = \"a # b\" # c"), "key = \"a # b\" ");
    assert_eq!(strip_unquoted_hash_comment("key = 'a # b'"), "key = 'a # b'");
    assert_eq!(strip_unquoted_hash_comment("key = \"a \\\" # b\" # c"), "key = \"a \\\" # b\" ");
}

#[test]
fn quoted_table_keys_are_recognised() {
    assert!(toml_table_has_exact_key("[profile.release]\n\"debug\" = 1", "profile.release", "debug"));
    assert!(toml_table_has_exact_key("[profile.release]\n'debug' = 1", "profile.release", "debug"));
    assert!(!toml_table_has_exact_key("[profile.release]\ndebug-assertions = 1", "profile.release", "debug"));
}

#[test]
fn dependency_tables_include_target_specific_ones() {
    let toml = "[dependencies]\nserde = \"1\"\n[target.'cfg(windows)'.dependencies]\nmimalloc = \"0.1\"\n[features]\nfoo = []";
    assert!(toml_has_dependency(toml, "serde"));
    assert!(toml_has_dependency(toml, "mimalloc"));
    assert!(!toml_has_dependency(toml, "foo"));
    assert!(!toml_has_dependency("[dev-dependencies]\nfoo = \"1\"", "foo"));
}

#[test]
fn lock_packages_are_found_by_name() {
    let lock = "[[package]]\nname = \"mimalloc\"\nversion = \"0.1\"\n\n[[package]]\nname = \"serde\"\n\n[metadata]\nname = \"libmimalloc-sys\"";
    assert!(cargo_lock_has_package(lock, "mimalloc"));
    assert!(cargo_lock_has_package(lock, "serde"));
    assert!(!cargo_lock_has_package(lock, "libmimalloc-sys"));
}

#[test]
fn missing_step_is_none_and_step_ends_at_next_item() {
    assert_eq!(yaml_named_step("steps:\n  - name: A\n    run: a\n", "B"), None);
    let step = yaml_named_step("steps:\n  - name: A\n    run: a\n\n    with: x\n  - name: B\n    run: b\n", "A").unwrap();
    assert_eq!(step, "  - name: A\n    run: a\n\n    with: x");
}

#[test]
fn lexer_blanks_comments_and_literals() {
    let code = rust_code_without_comments_and_literals(b"a // x\nb /* c /* d */ e */ f \"g\\\"h\" 'i' '\\n' 'a> r##\"j\"#k\"## z");
    assert_eq!(String::from_utf8(code).unwrap(), "a  \nb   f       'a>   z");
    assert!(!rust_source_has_attribute("let s = b\"#[test]\";", "#[test]"));
    assert!(rust_source_has_attribute("#\t[ test ]\nfn f() {}", "#[test]"));
    assert!(!rust_source_has_attribute("", "#[test]"));
}
