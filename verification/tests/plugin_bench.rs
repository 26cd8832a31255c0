use lowfat::commands::plugin::bench::{
    bench_header, bench_samples, level_from_name, parse_sample_name, select_samples,
    split_file_name, BenchError, Level, SampleSpec,
};

fn names(v: &[&str]) -> Vec<String> {
    v.iter().map(|s| s.to_string()).collect()
}

#[test]
fn sample_name_with_three_pieces() {
    assert_eq!(
        parse_sample_name("git-status-full"),
        SampleSpec { command: "git".into(), subcommand: "status".into(), level: Level::Full }
    );
}

#[test]
fn sample_name_level_is_the_last_piece() {
    assert_eq!(
        parse_sample_name("git-log-oneline-ultra"),
        SampleSpec { command: "git".into(), subcommand: "log".into(), level: Level::Ultra }
    );
    assert_eq!(parse_sample_name("docker-ps-lite").level, Level::Lite);
    assert_eq!(parse_sample_name("docker-ps-weird").level, Level::Full);
}

#[test]
fn sample_name_with_fewer_pieces() {
    assert_eq!(
        parse_sample_name("ls"),
        SampleSpec { command: "ls".into(), subcommand: "".into(), level: Level::Full }
    );
    assert_eq!(
        parse_sample_name("ls-ultra"),
        SampleSpec { command: "ls".into(), subcommand: "ultra".into(), level: Level::Full }
    );
    assert_eq!(
        parse_sample_name("-"),
        SampleSpec { command: "".into(), subcommand: "".into(), level: Level::Full }
    );
}

#[test]
fn level_names() {
    assert_eq!(level_from_name("lite"), Level::Lite);
    assert_eq!(level_from_name("ultra"), Level::Ultra);
    assert_eq!(level_from_name("full"), Level::Full);
    assert_eq!(level_from_name("LITE"), Level::Full);
    assert_eq!(level_from_name(""), Level::Full);
}

#[test]
fn file_name_parts() {
    assert_eq!(split_file_name("git-status-full.txt"), ("git-status-full".into(), Some("txt".into())));
    assert_eq!(split_file_name("a.b.txt"), ("a.b".into(), Some("txt".into())));
    assert_eq!(split_file_name("README"), ("README".into(), None));
    assert_eq!(split_file_name(".txt"), (".txt".into(), None));
    assert_eq!(split_file_name("a."), ("a".into(), Some("".into())));
    assert_eq!(split_file_name(".."), ("..".into(), None));
}

#[test]
fn samples_are_txt_files_in_path_order() {
    let selected = select_samples(&names(&[
        "git-status-full.txt",
        "notes.md",
        "git-diff-ultra.txt",
        ".txt",
        "git-diff-full.txt",
        "Z-upper.txt",
        "txt",
    ]));
    assert_eq!(
        selected,
        names(&["Z-upper.txt", "git-diff-full.txt", "git-diff-ultra.txt", "git-status-full.txt"])
    );
}

#[test]
fn samples_order_by_code_point() {
    let selected = select_samples(&names(&["é.txt", "z.txt", "a-b.txt", "a.txt"]));
    assert_eq!(selected, names(&["a-b.txt", "a.txt", "z.txt", "é.txt"]));
}

#[test]
fn bench_samples_read_their_names() {
    let got = bench_samples(&names(&["git-status-full.txt", "readme.md", "git-diff-ultra.txt"]), "/s").unwrap();
    assert_eq!(got.len(), 2);
    assert_eq!(got[0].file, "git-diff-ultra.txt");
    assert_eq!(got[0].stem, "git-diff-ultra");
    assert_eq!(got[0].spec, SampleSpec { command: "git".into(), subcommand: "diff".into(), level: Level::Ultra });
    assert_eq!(got[1].stem, "git-status-full");
}

#[test]
fn bench_without_txt_samples() {
    let err = bench_samples(&names(&["readme.md"]), "/p/samples").unwrap_err();
    assert_eq!(err, BenchError::NoSamples("/p/samples".into()));
    assert_eq!(err.message(), "no .txt sample files in /p/samples");
}

#[test]
fn bench_error_messages() {
    assert_eq!(
        BenchError::PluginNotFound("x".into()).message(),
        "plugin not found: x (install it to ~/.lowfat/plugins/ first)"
    );
    assert_eq!(
        BenchError::NoSamplesDir("x".into()).message(),
        "no samples/ directory in plugin 'x' — add .txt files with sample command output"
    );
}

#[test]
fn bench_heading() {
    assert_eq!(bench_header("git-compact"), "Benchmark: git-compact");
}

#[test]
fn scaffolded_sample_is_benchmarked() {
    let file = lowfat::commands::plugin::scaffold::sample_file_name("kubectl");
    let got = bench_samples(&vec![file.clone()], "/s").unwrap();
    assert_eq!(got.len(), 1);
    assert_eq!(got[0].file, file);
    assert_eq!(
        got[0].spec,
        SampleSpec { command: "kubectl".into(), subcommand: "output".into(), level: Level::Full }
    );
}
