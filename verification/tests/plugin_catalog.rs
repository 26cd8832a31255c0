use lowfat::commands::plugin::catalog::{
    find_plugin, info_report, list_lines, trusted_message, untrusted_message, InfoReport,
    PluginEntry,
};

fn entry(category: &str, name: &str, version: Option<&str>, commands: &[&str]) -> PluginEntry {
    PluginEntry {
        category: category.to_string(),
        name: name.to_string(),
        version: version.map(|v| v.to_string()),
        description: None,
        author: None,
        commands: commands.iter().map(|c| c.to_string()).collect(),
        entry: "filter.lf".to_string(),
        base_dir: format!("/home/u/.lowfat/plugins/{category}/{name}"),
    }
}

#[test]
fn list_without_plugins_names_the_directory() {
    let lines = list_lines(&vec![], "/home/u/.lowfat/plugins");
    assert_eq!(
        lines,
        vec![
            "No community plugins installed.".to_string(),
            "  Plugin dir: /home/u/.lowfat/plugins".to_string(),
        ]
    );
}

#[test]
fn list_one_line_per_plugin() {
    let plugins = vec![
        entry("git", "git-compact", Some("1.2.0"), &["git"]),
        entry("cargo", "cargo-quiet", None, &["cargo", "rustc"]),
    ];
    let lines = list_lines(&plugins, "/ignored");
    assert_eq!(
        lines,
        vec![
            "Community plugins:".to_string(),
            "".to_string(),
            "  git/git-compact v1.2.0 — commands: [git]".to_string(),
            "  cargo/cargo-quiet v? — commands: [cargo, rustc]".to_string(),
        ]
    );
}

#[test]
fn list_plugin_without_commands() {
    let lines = list_lines(&vec![entry("x", "y", Some("0.1"), &[])], "/d");
    assert_eq!(lines[2], "  x/y v0.1 — commands: []");
}

#[test]
fn find_plugin_first_match_wins() {
    let plugins = vec![
        entry("a", "dup", Some("1"), &["a"]),
        entry("b", "other", None, &["b"]),
        entry("c", "dup", Some("2"), &["c"]),
    ];
    assert_eq!(find_plugin(&plugins, "dup"), Some(0));
    assert_eq!(find_plugin(&plugins, "other"), Some(1));
    assert_eq!(find_plugin(&plugins, "missing"), None);
    assert_eq!(find_plugin(&plugins, "du"), None);
}

#[test]
fn info_of_a_known_plugin() {
    let mut p = entry("docker", "docker-compact", Some("0.3.1"), &["docker", "podman"]);
    p.description = Some("Compact docker output".to_string());
    let plugins = vec![entry("git", "git-compact", None, &["git"]), p];
    let report = info_report(&plugins, "docker-compact");
    assert_eq!(
        report,
        InfoReport::Found(vec![
            "Plugin: docker-compact".to_string(),
            "  Version:     0.3.1".to_string(),
            "  Description: Compact docker output".to_string(),
            "  Author:      -".to_string(),
            "  Category:    docker".to_string(),
            "  Entry:       filter.lf".to_string(),
            "  Commands:    docker, podman".to_string(),
            "  Path:        /home/u/.lowfat/plugins/docker/docker-compact".to_string(),
        ])
    );
}

#[test]
fn info_of_a_plugin_without_version() {
    let plugins = vec![entry("git", "git-compact", None, &["git"])];
    match info_report(&plugins, "git-compact") {
        InfoReport::Found(lines) => assert_eq!(lines[1], "  Version:     ?"),
        InfoReport::NotFound(_) => panic!("plugin should be found"),
    }
}

#[test]
fn info_of_an_unknown_plugin() {
    let plugins = vec![entry("git", "git-compact", None, &["git"])];
    assert_eq!(
        info_report(&plugins, "nope"),
        InfoReport::NotFound("lowfat: plugin not found: nope".to_string())
    );
}

#[test]
fn trust_messages() {
    assert_eq!(trusted_message("git-compact"), "lowfat: plugin 'git-compact' is now trusted");
    assert_eq!(untrusted_message("git-compact"), "lowfat: trust revoked for plugin 'git-compact'");
}
