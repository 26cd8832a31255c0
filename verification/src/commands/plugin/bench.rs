use vstd::prelude::*;
use crate::text::{
    chars_of, lemma_precedes_asymmetric, lemma_precedes_transitive, lemma_split_on_last_piece,
    lemma_split_on_nonempty, lemma_split_on_without_sep,
    precedes, precedes_exec, push, same_text, split_on, split_text, views,
};

verus! {

broadcast use vstd::string::group_string_axioms;

/// A compression level.
#[derive(Debug, Clone, Copy, PartialEq, Eq, Structural)]
pub enum Level {
    Lite,
    Full,
    Ultra,
}

/// The level a sample's name ends with: `lite` and `ultra` name theirs,
/// anything else means `full`.
pub open spec fn level_named(s: Seq<char>) -> Level {
    if s == "lite"@ {
        Level::Lite
    } else if s == "ultra"@ {
        Level::Ultra
    } else {
        Level::Full
    }
}

/// The level named by `s`, `full` unless `s` is `lite` or `ultra`.
pub fn level_from_name(s: &str) -> (level: Level)
    ensures
        level == level_named(s@),
{
    if same_text(s, "lite") {
        Level::Lite
    } else if same_text(s, "ultra") {
        Level::Ultra
    } else {
        Level::Full
    }
}

/// What a sample's file name says: the command, the subcommand and the level
/// at which its output is filtered.
#[derive(Debug, PartialEq, Eq)]
pub struct SampleSpec {
    pub command: String,
    pub subcommand: String,
    pub level: Level,
}

/// The pieces of a sample name, `-` separated.
pub open spec fn sample_parts(stem: Seq<char>) -> Seq<Seq<char>> {
    split_on(stem, '-')
}

/// The subcommand a sample name gives: its second piece, if any.
pub open spec fn sample_subcommand(stem: Seq<char>) -> Seq<char> {
    let parts = sample_parts(stem);
    if parts.len() >= 2 {
        parts[1]
    } else {
        Seq::empty()
    }
}

/// The level a sample name gives: that of its last piece when there are
/// three or more, `full` otherwise.
pub open spec fn sample_level(stem: Seq<char>) -> Level {
    let parts = sample_parts(stem);
    if parts.len() >= 3 {
        level_named(parts.last())
    } else {
        Level::Full
    }
}

/// Reads a sample name such as `git-status-full`: command `git`,
/// subcommand `status`, level `full`. With one piece there is no
/// subcommand, and with fewer than three the level is `full`.
pub fn parse_sample_name(stem: &str) -> (spec: SampleSpec)
    ensures
        spec.command@ == sample_parts(stem@)[0],
        spec.subcommand@ == sample_subcommand(stem@),
        spec.level == sample_level(stem@),
{
    let parts = split_text(stem, '-');
    proof {
        lemma_split_on_nonempty(stem@, '-');
        assert(views(parts@)[0] == parts@[0]@);
    }
    let n = parts.len();
    let command = parts[0].clone();
    if n == 1 {
        return SampleSpec { command, subcommand: String::new(), level: Level::Full };
    }
    let subcommand = parts[1].clone();
    assert(views(parts@)[1] == parts@[1]@);
    if n == 2 {
        return SampleSpec { command, subcommand, level: Level::Full };
    }
    assert(views(parts@).last() == parts@[n - 1]@);
    let level = level_from_name(parts[n - 1].as_str());
    SampleSpec { command, subcommand, level }
}

/// The position of the last `.` before position `j`, or -1.
pub open spec fn last_dot(s: Seq<char>, j: int) -> int
    decreases j,
{
    if j <= 0 || j > s.len() {
        -1
    } else if s[j - 1] == '.' {
        j - 1
    } else {
        last_dot(s, j - 1)
    }
}

/// A file name has an extension when it has a `.` other than a leading one.
pub open spec fn has_extension(name: Seq<char>) -> bool {
    name != ".."@ && last_dot(name, name.len() as int) > 0
}

/// The extension of a file name, as `Path::extension` gives it: what
/// follows the last `.`, unless that `.` is the name's first character.
pub open spec fn extension(name: Seq<char>) -> Option<Seq<char>> {
    if has_extension(name) {
        Some(name.skip(last_dot(name, name.len() as int) + 1))
    } else {
        None
    }
}

/// The stem of a file name, as `Path::file_stem` gives it: the name
/// without its extension and the `.` before it.
pub open spec fn file_stem(name: Seq<char>) -> Seq<char> {
    if has_extension(name) {
        name.take(last_dot(name, name.len() as int))
    } else {
        name
    }
}

/// Splits a file name into its stem and extension.
pub fn split_file_name(name: &str) -> (parts: (String, Option<String>))
    ensures
        parts.0@ == file_stem(name@),
        match parts.1 {
            Some(ext) => extension(name@) == Some(ext@),
            None => extension(name@) is None,
        },
{
    let c = chars_of(name);
    let n = c.len();
    let mut j: usize = n;
    while j > 0 && c[j - 1] != '.'
        invariant
            j <= n,
            n == c@.len(),
            c@ == name@,
            last_dot(name@, n as int) == last_dot(name@, j as int),
        decreases j,
    {
        j = j - 1;
    }
    if j <= 1 || same_text(name, "..") {
        return (name.to_owned(), None);
    }
    let d = j - 1;
    let stem = name.substring_char(0, d).to_owned();
    let ext = name.substring_char(d + 1, n).to_owned();
    assert(stem@ =~= name@.take(d as int));
    assert(ext@ =~= name@.skip(d + 1));
    (stem, Some(ext))
}

/// A sample file is a `.txt` file.
pub open spec fn is_sample_file(name: Seq<char>) -> bool {
    extension(name) == Some("txt"@)
}

/// The sample files among `names`, in their order.
pub open spec fn sample_files(names: Seq<Seq<char>>) -> Seq<Seq<char>>
    decreases names.len(),
{
    if names.len() == 0 {
        Seq::empty()
    } else if is_sample_file(names.last()) {
        sample_files(names.drop_last()).push(names.last())
    } else {
        sample_files(names.drop_last())
    }
}

/// No name comes before an earlier one.
pub open spec fn is_sorted(names: Seq<Seq<char>>) -> bool {
    forall|i: int, j: int| 0 <= i < j < names.len() ==> !precedes(names[j], names[i])
}

/// The `.txt` files among the names in a plugin's `samples/` directory, in
/// the order of their paths.
pub fn select_samples(names: &Vec<String>) -> (samples: Vec<String>)
    ensures
        views(samples@).to_multiset() == sample_files(views(names@)).to_multiset(),
        is_sorted(views(samples@)),
{
    let mut samples: Vec<String> = Vec::new();
    let n = names.len();
    let ghost all = views(names@);
    assert(views(samples@) =~= sample_files(all.take(0)));
    for i in 0..n
        invariant
            n == names@.len(),
            all == views(names@),
            views(samples@).to_multiset() == sample_files(all.take(i as int)).to_multiset(),
            is_sorted(views(samples@)),
    {
        assert(all.take(i + 1).drop_last() =~= all.take(i as int));
        assert(all.take(i + 1).last() == names@[i as int]@);
        let (_, ext) = split_file_name(names[i].as_str());
        let keep = match &ext {
            Some(e) => same_text(e.as_str(), "txt"),
            None => false,
        };
        if keep {
            let name = names[i].clone();
            let ghost x = name@;
            let ghost before = views(samples@);
            let m = samples.len();
            let mut p: usize = 0;
            while p < m && !precedes_exec(name.as_str(), samples[p].as_str())
                invariant
                    p <= m,
                    m == samples@.len(),
                    before == views(samples@),
                    x == name@,
                    forall|k: int| 0 <= k < p ==> !precedes(x, before[k]),
                decreases m - p,
            {
                p = p + 1;
            }
            samples.insert(p, name);
            let ghost after = views(samples@);
            assert(after =~= before.insert(p as int, x));
            proof {
                vstd::seq_lib::to_multiset_insert(before, p as int, x);
                vstd::seq_lib::to_multiset_build(sample_files(all.take(i as int)), x);
            }
            assert(after.to_multiset() == before.to_multiset().insert(x));
            assert(sample_files(all.take(i + 1)) == sample_files(all.take(i as int)).push(x));
            assert(sample_files(all.take(i + 1)).to_multiset() == sample_files(
                all.take(i as int),
            ).to_multiset().insert(x));
            assert forall|a: int, b: int| 0 <= a < b < after.len() implies !precedes(
                after[b],
                after[a],
            ) by {
                if b < p {
                } else if a > p {
                    assert(after[a] == before[a - 1]);
                    assert(after[b] == before[b - 1]);
                } else if b == p {
                    assert(after[a] == before[a]);
                } else if a == p {
                    assert(after[b] == before[b - 1]);
                    assert(precedes(x, before[p as int]));
                    if precedes(before[b - 1], x) {
                        if b - 1 == p {
                            lemma_precedes_asymmetric(x, before[p as int]);
                        } else {
                            lemma_precedes_transitive(before[b - 1], x, before[p as int]);
                        }
                    }
                } else {
                    assert(after[a] == before[a]);
                    assert(after[b] == before[b - 1]);
                }
            }
        } else {
            assert(sample_files(all.take(i + 1)) == sample_files(all.take(i as int)));
        }
    }
    assert(all.take(n as int) =~= all);
    samples
}

/// Why `lowfat plugin bench` cannot run.
#[derive(Debug, PartialEq, Eq)]
pub enum BenchError {
    /// No installed plugin has the name.
    PluginNotFound(String),
    /// The plugin has no `samples/` directory.
    NoSamplesDir(String),
    /// The plugin's `samples/` directory (as displayed) holds no `.txt` file.
    NoSamples(String),
}

impl BenchError {
    /// The text of the error.
    pub open spec fn text(self) -> Seq<char> {
        match self {
            BenchError::PluginNotFound(name) => "plugin not found: "@ + name@
                + " (install it to ~/.lowfat/plugins/ first)"@,
            BenchError::NoSamplesDir(name) => "no samples/ directory in plugin '"@ + name@
                + "' — add .txt files with sample command output"@,
            BenchError::NoSamples(dir) => "no .txt sample files in "@ + dir@,
        }
    }

    /// The message the error is reported with.
    pub fn message(&self) -> (msg: String)
        ensures
            msg@ == self.text(),
    {
        let mut msg = String::new();
        match self {
            BenchError::PluginNotFound(name) => {
                push(&mut msg, "plugin not found: ");
                push(&mut msg, name.as_str());
                push(&mut msg, " (install it to ~/.lowfat/plugins/ first)");
            },
            BenchError::NoSamplesDir(name) => {
                push(&mut msg, "no samples/ directory in plugin '");
                push(&mut msg, name.as_str());
                push(&mut msg, "' — add .txt files with sample command output");
            },
            BenchError::NoSamples(dir) => {
                push(&mut msg, "no .txt sample files in ");
                push(&mut msg, dir.as_str());
            },
        }
        msg
    }
}

/// The heading of a benchmark run.
pub fn bench_header(name: &str) -> (line: String)
    ensures
        line@ == "Benchmark: "@ + name@,
{
    let mut line = String::new();
    push(&mut line, "Benchmark: ");
    push(&mut line, name);
    line
}

/// A sample to benchmark: its file name, its stem, and what the stem says.
#[derive(Debug, PartialEq, Eq)]
pub struct BenchSample {
    pub file: String,
    pub stem: String,
    pub spec: SampleSpec,
}

/// The samples to benchmark, given the file names in a plugin's `samples/`
/// directory (displayed as `samples_dir`): its `.txt` files in the order of
/// their paths, each read for its command, subcommand and level. Without a
/// `.txt` file there is nothing to benchmark.
pub fn bench_samples(file_names: &Vec<String>, samples_dir: &str) -> (r: Result<
    Vec<BenchSample>,
    BenchError,
>)
    ensures
        r is Err <==> sample_files(views(file_names@)).len() == 0,
        r matches Err(e) ==> e.text() == "no .txt sample files in "@ + samples_dir@,
        r matches Ok(v) ==> {
            let files = Seq::new(v@.len(), |k: int| v@[k].file@);
            &&& files.to_multiset() == sample_files(views(file_names@)).to_multiset()
            &&& is_sorted(files)
            &&& forall|k: int|
                #![trigger v@[k]]
                0 <= k < v@.len() ==> {
                    let stem = v@[k].stem@;
                    &&& stem == file_stem(v@[k].file@)
                    &&& v@[k].spec.command@ == sample_parts(stem)[0]
                    &&& v@[k].spec.subcommand@ == sample_subcommand(stem)
                    &&& v@[k].spec.level == sample_level(stem)
                }
        },
{
    let files = select_samples(file_names);
    proof {
        vstd::seq_lib::to_multiset_len(views(files@));
        vstd::seq_lib::to_multiset_len(sample_files(views(file_names@)));
    }
    if files.len() == 0 {
        let mut dir = String::new();
        push(&mut dir, samples_dir);
        return Err(BenchError::NoSamples(dir));
    }
    let mut v: Vec<BenchSample> = Vec::new();
    let n = files.len();
    for i in 0..n
        invariant
            n == files@.len(),
            v@.len() == i,
            forall|k: int|
                #![trigger v@[k]]
                0 <= k < i ==> {
                    let stem = v@[k].stem@;
                    &&& v@[k].file@ == files@[k]@
                    &&& stem == file_stem(v@[k].file@)
                    &&& v@[k].spec.command@ == sample_parts(stem)[0]
                    &&& v@[k].spec.subcommand@ == sample_subcommand(stem)
                    &&& v@[k].spec.level == sample_level(stem)
                },
    {
        let (stem, _) = split_file_name(files[i].as_str());
        let spec = parse_sample_name(stem.as_str());
        v.push(BenchSample { file: files[i].clone(), stem, spec });
    }
    assert forall|k: int| 0 <= k < n implies Seq::new(v@.len(), |k: int| v@[k].file@)[k] == views(
        files@,
    )[k] by {
        assert(v@[k].file@ == files@[k]@);
    }
    assert(Seq::new(v@.len(), |k: int| v@[k].file@) =~= views(files@));
    Ok(v)
}

/// A freshly scaffolded plugin can be benchmarked at once: the sample file
/// `lowfat plugin new` writes for a command (one without `-`, as the naming
/// convention `<command>-<subcommand>-<level>.txt` asks) is picked up as a
/// sample and read back as that command, subcommand `output`, level `full`.
pub proof fn lemma_scaffolded_sample_is_benchmarked(command: Seq<char>)
    requires
        forall|i: int| 0 <= i < command.len() ==> command[i] != '-',
    ensures
        is_sample_file(command + "-output-full.txt"@),
        file_stem(command + "-output-full.txt"@) == command + "-output-full"@,
        sample_parts(command + "-output-full"@)[0] == command,
        sample_subcommand(command + "-output-full"@) == "output"@,
        sample_level(command + "-output-full"@) == Level::Full,
{
    reveal_strlit("-output-full.txt");
    reveal_strlit("-output-full");
    reveal_strlit("output");
    reveal_strlit("full");
    reveal_strlit("txt");
    reveal_strlit("lite");
    reveal_strlit("ultra");
    reveal_strlit("..");
    let file = command + "-output-full.txt"@;
    let n = file.len() as int;
    assert(file[n - 1] == 't');
    assert(file[n - 2] == 'x');
    assert(file[n - 3] == 't');
    assert(file[n - 4] == '.');
    assert(last_dot(file, n - 3) == n - 4);
    assert(last_dot(file, n - 2) == n - 4);
    assert(last_dot(file, n - 1) == n - 4);
    assert(last_dot(file, n) == n - 4);
    assert(file != ".."@) by {
        assert(file.len() != 2);
    }
    assert(file.skip(n - 3) =~= "txt"@);
    let stem = command + "-output-full"@;
    assert(file.take(n - 4) =~= stem);
    let output = seq!['o', 'u', 't', 'p', 'u', 't'];
    let full = seq!['f', 'u', 'l', 'l'];
    assert(stem =~= command + seq!['-'] + output + seq!['-'] + full);
    lemma_split_on_without_sep(command, '-');
    lemma_split_on_last_piece(command, output, '-');
    lemma_split_on_last_piece(command + seq!['-'] + output, full, '-');
    assert(sample_parts(stem) =~= seq![command, output, full]);
    assert(output =~= "output"@);
    assert(full =~= "full"@);
}

} // verus!
