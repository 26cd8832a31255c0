use lowfat::commands::plugin::scaffold::{
    already_exists_message, created_lines, manifest_toml, sample_file_name, scaffold_lf,
    FILTER_FILE, MANIFEST_FILE, SAMPLES_DIR, SAMPLE_PLACEHOLDER,
};

#[test]
fn scaffold_is_a_level_scaled_head() {
    let expected = r#"#!/usr/bin/env lowfat-filter
# mytool-compact — compact mytool output for LLM contexts
#
# Rules match (subcommand, level) top-down; first match wins.
# Levels: ultra (~10 lines) · full (~30) · lite (~60).
# Ops: keep /re/ · drop /re/ · head N · tail N · else "text".
# Escape hatches: `shell: <cmd>` and `python: |` when ops aren't enough.

*, ultra:
    head 10

*, lite:
    head 60

*:
    head 30
"#;
    assert_eq!(scaffold_lf("mytool-compact", "mytool"), expected);
}

#[test]
fn manifest_names_plugin_and_command() {
    assert_eq!(
        manifest_toml("kubectl-lean", "kubectl"),
        "[plugin]\nname = \"kubectl-lean\"\ncommands = [\"kubectl\"]\n"
    );
}

#[test]
fn sample_file_follows_the_naming_convention() {
    assert_eq!(sample_file_name("kubectl"), "kubectl-output-full.txt");
}

#[test]
fn scaffold_file_names() {
    assert_eq!(MANIFEST_FILE, "lowfat.toml");
    assert_eq!(FILTER_FILE, "filter.lf");
    assert_eq!(SAMPLES_DIR, "samples");
    assert_eq!(
        SAMPLE_PLACEHOLDER,
        "# Paste real command output here.\n# Filename convention: <command>-<subcommand>-<level>.txt\n# Run: lowfat plugin bench <name>\n"
    );
}

#[test]
fn existing_plugin_is_refused() {
    assert_eq!(
        already_exists_message("/p/kubectl/kubectl-lean"),
        "plugin already exists: /p/kubectl/kubectl-lean"
    );
}

#[test]
fn creation_report() {
    assert_eq!(
        created_lines("kubectl-lean", "kubectl", "/p/kubectl/kubectl-lean", "/p/kubectl/kubectl-lean/filter.lf"),
        vec![
            "lowfat: created plugin 'kubectl-lean'".to_string(),
            "  /p/kubectl/kubectl-lean".to_string(),
            "  edit: /p/kubectl/kubectl-lean/filter.lf".to_string(),
            "  bench: lowfat plugin bench kubectl-lean".to_string(),
            "  test: lowfat kubectl <args>".to_string(),
        ]
    );
}
