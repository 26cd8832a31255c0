use lowfat::commands::plugin::lf::{
    collect_pep723_bodies, has_script_metadata, walk_ops, Define, Op, Rule, RuleSet,
};

const SCRIPT: &str = "# /// script\n# dependencies = [\"rich\"]\n# ///\nimport rich\n";

#[test]
fn header_on_first_line() {
    assert!(has_script_metadata(SCRIPT));
}

#[test]
fn header_after_leading_whitespace_on_a_later_line() {
    assert!(has_script_metadata("import sys\n   \t# /// script\n"));
    assert!(has_script_metadata("x = 1\r\n  # /// script\r\n"));
}

#[test]
fn header_after_unicode_whitespace() {
    assert!(has_script_metadata("\u{3000}\u{a0}# /// script"));
}

#[test]
fn no_header() {
    assert!(!has_script_metadata(""));
    assert!(!has_script_metadata("print('hi')\n"));
    assert!(!has_script_metadata("x = 1  # /// script\n"));
    assert!(!has_script_metadata("#/// script\n"));
    assert!(!has_script_metadata("# /// scrip"));
}

#[test]
fn walk_descends_into_split() {
    let ops = vec![
        Op::Other,
        Op::Python("print(1)".to_string()),
        Op::Split {
            pre: vec![Op::Python(SCRIPT.to_string())],
            post: vec![Op::Split { pre: vec![], post: vec![Op::Python(format!("  {SCRIPT}"))] }],
        },
    ];
    let mut out = vec!["kept".to_string()];
    walk_ops(&ops, &mut out);
    assert_eq!(out, vec!["kept".to_string(), SCRIPT.to_string(), format!("  {SCRIPT}")]);
}

#[test]
fn collect_takes_definitions_before_rules() {
    let rs = RuleSet {
        defines: vec![Define { ops: vec![Op::Python("# /// script\nA".to_string())] }],
        rules: vec![
            Rule { ops: vec![Op::Python("# /// script\nB".to_string()), Op::Other] },
            Rule { ops: vec![Op::Python("plain".to_string())] },
            Rule { ops: vec![Op::Python("# /// script\nC".to_string())] },
        ],
    };
    assert_eq!(
        collect_pep723_bodies(&rs),
        vec!["# /// script\nA".to_string(), "# /// script\nB".to_string(), "# /// script\nC".to_string()]
    );
}

#[test]
fn collect_from_empty_rule_set() {
    let rs = RuleSet { defines: vec![], rules: vec![Rule { ops: vec![Op::Other] }] };
    assert!(collect_pep723_bodies(&rs).is_empty());
}
