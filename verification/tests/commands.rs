use lowfat::commands::info::{run as info_run, InfoView};
use lowfat::commands::stats::{run as stats_run, StatsView};
use lowfat::EmbeddedPlugin;

#[test]
fn info_config_flag_wins_over_command() {
    assert_eq!(info_run(Some("git"), true), InfoView::Config);
    assert_eq!(info_run(None, true), InfoView::Config);
}

#[test]
fn info_command_shows_its_pipeline() {
    assert_eq!(info_run(Some("git"), false), InfoView::Pipeline("git".to_string()));
}

#[test]
fn info_bare_shows_overview() {
    assert_eq!(info_run(None, false), InfoView::Overview);
}

#[test]
fn stats_audit_flag_keeps_limit() {
    assert_eq!(stats_run(true, 25), StatsView::Audit { limit: 25 });
}

#[test]
fn stats_bare_shows_gain() {
    assert_eq!(stats_run(false, 25), StatsView::Gain);
}

#[test]
fn embedded_plugin_holds_its_texts() {
    let p = EmbeddedPlugin {
        category: "git",
        name: "git-compact",
        manifest: "[plugin]\nname = \"git-compact\"\n",
        filter_lf: "*:\n    head 30\n",
    };
    assert_eq!(p.category, "git");
    assert_eq!(p.name, "git-compact");
    assert!(p.manifest.contains("git-compact"));
    assert!(p.filter_lf.ends_with("head 30\n"));
}
