use lowfat::commands::plugin::doctor::{
    prewarm_failure, render_status, Doctor, DoctorAction, PluginStatus, NOTHING_TO_CHECK,
};
use lowfat::commands::plugin::lf::{Op, Rule, RuleSet};

fn rules_with_scripts(scripts: usize, plain: usize) -> RuleSet {
    let mut rules = Vec::new();
    for i in 0..scripts {
        rules.push(Rule { ops: vec![Op::Python(format!("# /// script\n# {i}\n"))] });
    }
    for _ in 0..plain {
        rules.push(Rule { ops: vec![Op::Other] });
    }
    RuleSet { defines: vec![], rules }
}

#[test]
fn status_lines_pad_names_to_24() {
    assert_eq!(render_status("git-compact", &PluginStatus::Shell), "  git-compact              ok (shell)");
    assert_eq!(
        render_status("a-very-long-plugin-name-indeed", &PluginStatus::Ready { rules: 3 }),
        "  a-very-long-plugin-name-indeed ok (.lf, 3 rules)"
    );
}

#[test]
fn status_line_texts() {
    let n = "p";
    let pad = "  p                        ";
    assert_eq!(render_status(n, &PluginStatus::EntryMissing("/x/filter.lf".into())), format!("{pad}x entry not found: /x/filter.lf"));
    assert_eq!(render_status(n, &PluginStatus::Unreadable("denied".into())), format!("{pad}x cannot read: denied"));
    assert_eq!(render_status(n, &PluginStatus::ParseError("line 3".into())), format!("{pad}x parse error: line 3"));
    assert_eq!(render_status(n, &PluginStatus::NeedsUv { bodies: 2 }), format!("{pad}! needs uv to resolve 2 PEP 723 body(ies)"));
    assert_eq!(
        render_status(n, &PluginStatus::PrewarmFailed { body: 10, error: "uv: boom".into() }),
        format!("{pad}x PEP 723 body #10: uv: boom")
    );
    assert_eq!(
        render_status(n, &PluginStatus::Warmed { rules: 1204, bodies: 0 }),
        format!("{pad}ok (.lf, 1204 rules, 0 uv env(s) cached)")
    );
}

#[test]
fn missing_entry_counts_but_is_not_ready() {
    let mut d = Doctor::new(true);
    let (action, line) = d.plugin("p".into(), "/x/filter.lf".into(), false, true, true);
    assert_eq!(action, DoctorAction::NextPlugin);
    assert_eq!(line.unwrap(), "  p                        x entry not found: /x/filter.lf");
    assert_eq!((d.tally.ready, d.tally.total, d.tally.needs_uv), (0, 1, false));
}

#[test]
fn shell_entry_is_ready() {
    let mut d = Doctor::new(false);
    let (action, line) = d.plugin("sh".into(), "/x/filter.sh".into(), true, true, false);
    assert_eq!(action, DoctorAction::NextPlugin);
    assert_eq!(line.unwrap(), "  sh                       ok (shell)");
    assert_eq!((d.tally.ready, d.tally.total, d.tally.needs_uv), (1, 1, true));
}

#[test]
fn lf_without_scripts_is_ready() {
    let mut d = Doctor::new(false);
    assert_eq!(d.plugin("lf".into(), "e".into(), true, false, true), (DoctorAction::ReadAndParse, None));
    let (action, line) = d.parsed(&rules_with_scripts(0, 4));
    assert_eq!(action, DoctorAction::NextPlugin);
    assert_eq!(line.unwrap(), "  lf                       ok (.lf, 4 rules)");
    assert_eq!((d.tally.ready, d.tally.total), (1, 1));
}

#[test]
fn read_and_parse_failures() {
    let mut d = Doctor::new(true);
    d.plugin("a".into(), "e".into(), true, false, true);
    let (_, line) = d.read_failed("No such file".into());
    assert_eq!(line.unwrap(), "  a                        x cannot read: No such file");
    d.plugin("b".into(), "e".into(), true, false, true);
    let (_, line) = d.parse_failed("bad rule".into());
    assert_eq!(line.unwrap(), "  b                        x parse error: bad rule");
    assert_eq!((d.tally.ready, d.tally.total), (0, 2));
}

#[test]
fn scripts_without_uv_need_uv() {
    let mut d = Doctor::new(false);
    d.plugin("py".into(), "e".into(), true, true, true);
    let (action, line) = d.parsed(&rules_with_scripts(2, 1));
    assert_eq!(action, DoctorAction::NextPlugin);
    assert_eq!(line.unwrap(), "  py                       ! needs uv to resolve 2 PEP 723 body(ies)");
    assert_eq!((d.tally.ready, d.tally.prewarmed), (0, 0));
}

#[test]
fn scripts_are_prewarmed_in_turn() {
    let mut d = Doctor::new(true);
    d.plugin("py".into(), "e".into(), true, false, true);
    let (action, line) = d.parsed(&rules_with_scripts(2, 1));
    assert_eq!(action, DoctorAction::Prewarm("# /// script\n# 0\n".into()));
    assert!(line.is_none());
    let (action, line) = d.prewarm_succeeded();
    assert_eq!(action, DoctorAction::Prewarm("# /// script\n# 1\n".into()));
    assert!(line.is_none());
    let (action, line) = d.prewarm_succeeded();
    assert_eq!(action, DoctorAction::NextPlugin);
    assert_eq!(line.unwrap(), "  py                       ok (.lf, 3 rules, 2 uv env(s) cached)");
    assert_eq!((d.tally.ready, d.tally.total, d.tally.prewarmed), (1, 1, 2));
}

#[test]
fn first_failed_prewarm_stops_the_plugin() {
    let mut d = Doctor::new(true);
    d.plugin("py".into(), "e".into(), true, false, true);
    d.parsed(&rules_with_scripts(3, 0));
    d.prewarm_succeeded();
    let (action, line) = d.prewarm_failed("uv: resolution failed".into());
    assert_eq!(action, DoctorAction::NextPlugin);
    assert_eq!(line.unwrap(), "  py                       x PEP 723 body #2: uv: resolution failed");
    assert_eq!((d.tally.ready, d.tally.total, d.tally.prewarmed), (0, 1, 1));
}

#[test]
fn summary_with_everything_available() {
    let mut d = Doctor::new(true);
    d.plugin("sh".into(), "e".into(), true, false, false);
    assert_eq!(
        d.summary(true),
        vec!["".to_string(), "  1/1 plugins ready, 0 uv env(s) warmed.".to_string()]
    );
}

#[test]
fn summary_warns_about_missing_tools() {
    let mut d = Doctor::new(false);
    d.plugin("sh".into(), "e".into(), true, true, false);
    d.plugin("gone".into(), "e".into(), false, false, false);
    assert_eq!(
        d.summary(false),
        vec![
            "".to_string(),
            "  1/2 plugins ready, 0 uv env(s) warmed.".to_string(),
            "".to_string(),
            "  ! uv not on PATH — required by at least one plugin.".to_string(),
            "    install: curl -LsSf https://astral.sh/uv/install.sh | sh".to_string(),
            "    or:      brew install uv".to_string(),
            "".to_string(),
            "  ! python3 not on PATH — `python:` blocks will fail.".to_string(),
        ]
    );
}

#[test]
fn uv_requirement_of_missing_entry_is_ignored() {
    let mut d = Doctor::new(false);
    d.plugin("gone".into(), "e".into(), false, true, false);
    assert_eq!(d.summary(true).len(), 2);
}

#[test]
fn nothing_to_check() {
    assert_eq!(NOTHING_TO_CHECK, "No community plugins to check.");
}

#[test]
fn prewarm_success_is_no_failure() {
    assert_eq!(prewarm_failure(true, "error: whatever"), None);
}

#[test]
fn prewarm_uv_error_reports_first_line() {
    assert_eq!(
        prewarm_failure(false, "  error: No solution found when resolving script dependencies \r\n  detail\n"),
        Some("uv: error: No solution found when resolving script dependencies".to_string())
    );
}

#[test]
fn prewarm_script_traceback_is_no_failure() {
    assert_eq!(
        prewarm_failure(false, "Traceback (most recent call last):\nValueError: error: bad\n"),
        None
    );
}

#[test]
fn prewarm_other_exit_is_no_failure() {
    assert_eq!(prewarm_failure(false, "warning: slow\n"), None);
    assert_eq!(prewarm_failure(false, ""), None);
}

#[test]
fn prewarm_error_on_later_line() {
    assert_eq!(
        prewarm_failure(false, "\nerror: x"),
        Some("uv: ".to_string())
    );
}
