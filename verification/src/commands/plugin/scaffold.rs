use vstd::prelude::*;
use crate::text::{push, views};

verus! {

/// The manifest file of a plugin.
pub const MANIFEST_FILE: &'static str = "lowfat.toml";

/// The filter rules of a plugin.
pub const FILTER_FILE: &'static str = "filter.lf";

/// The directory of sample command outputs inside a plugin.
pub const SAMPLES_DIR: &'static str = "samples";

/// What a freshly scaffolded sample file holds.
pub const SAMPLE_PLACEHOLDER: &'static str = "# Paste real command output here.\n# Filename convention: <command>-<subcommand>-<level>.txt\n# Run: lowfat plugin bench <name>\n";

/// The `lowfat.toml` of a new plugin. It needs no `[runtime]` table: the
/// entry point is found by itself (`filter.lf` wins over `filter.sh`).
pub fn manifest_toml(name: &str, command: &str) -> (toml: String)
    ensures
        toml@ == "[plugin]\nname = \""@ + name@ + "\"\ncommands = [\""@ + command@ + "\"]\n"@,
{
    let mut toml = String::new();
    push(&mut toml, "[plugin]\nname = \"");
    push(&mut toml, name);
    push(&mut toml, "\"\ncommands = [\"");
    push(&mut toml, command);
    push(&mut toml, "\"]\n");
    toml
}

/// A starter `filter.lf`: a head scaled by level, the safe default
/// (10 lines at `ultra`, 60 at `lite`, 30 otherwise).
pub fn scaffold_lf(name: &str, command: &str) -> (lf: String)
    ensures
        lf@ == "#!/usr/bin/env lowfat-filter\n# "@ + name@ + " — compact "@ + command@
            + " output for LLM contexts\n#\n# Rules match (subcommand, level) top-down; first match wins.\n# Levels: ultra (~10 lines) · full (~30) · lite (~60).\n# Ops: keep /re/ · drop /re/ · head N · tail N · else \"text\".\n# Escape hatches: `shell: <cmd>` and `python: |` when ops aren't enough.\n\n*, ultra:\n    head 10\n\n*, lite:\n    head 60\n\n*:\n    head 30\n"@,
{
    let mut lf = String::new();
    push(&mut lf, "#!/usr/bin/env lowfat-filter\n# ");
    push(&mut lf, name);
    push(&mut lf, " — compact ");
    push(&mut lf, command);
    push(
        &mut lf,
        " output for LLM contexts\n#\n# Rules match (subcommand, level) top-down; first match wins.\n# Levels: ultra (~10 lines) · full (~30) · lite (~60).\n# Ops: keep /re/ · drop /re/ · head N · tail N · else \"text\".\n# Escape hatches: `shell: <cmd>` and `python: |` when ops aren't enough.\n\n*, ultra:\n    head 10\n\n*, lite:\n    head 60\n\n*:\n    head 30\n",
    );
    lf
}

/// The name of the sample file scaffolded for `command`.
pub fn sample_file_name(command: &str) -> (file: String)
    ensures
        file@ == command@ + "-output-full.txt"@,
{
    let mut file = String::new();
    push(&mut file, command);
    push(&mut file, "-output-full.txt");
    file
}

/// The complaint when the plugin's directory is already there.
pub fn already_exists_message(plugin_dir: &str) -> (msg: String)
    ensures
        msg@ == "plugin already exists: "@ + plugin_dir@,
{
    let mut msg = String::new();
    push(&mut msg, "plugin already exists: ");
    push(&mut msg, plugin_dir);
    msg
}

/// What `lowfat plugin new` prints once the plugin is scaffolded.
pub open spec fn created_output(
    name: Seq<char>,
    command: Seq<char>,
    plugin_dir: Seq<char>,
    filter_path: Seq<char>,
) -> Seq<Seq<char>> {
    seq![
        "lowfat: created plugin '"@ + name + "'"@,
        "  "@ + plugin_dir,
        "  edit: "@ + filter_path,
        "  bench: lowfat plugin bench "@ + name,
        "  test: lowfat "@ + command + " <args>"@,
    ]
}

fn line3(a: &str, b: &str, c: &str) -> (line: String)
    ensures
        line@ == a@ + b@ + c@,
{
    let mut line = String::new();
    push(&mut line, a);
    push(&mut line, b);
    push(&mut line, c);
    line
}

/// The lines `lowfat plugin new` prints after creating the plugin.
pub fn created_lines(name: &str, command: &str, plugin_dir: &str, filter_path: &str) -> (lines:
    Vec<String>)
    ensures
        views(lines@) == created_output(name@, command@, plugin_dir@, filter_path@),
{
    let mut lines: Vec<String> = Vec::new();
    lines.push(line3("lowfat: created plugin '", name, "'"));
    lines.push(line3("  ", plugin_dir, ""));
    lines.push(line3("  edit: ", filter_path, ""));
    lines.push(line3("  bench: lowfat plugin bench ", name, ""));
    lines.push(line3("  test: lowfat ", command, " <args>"));
    proof {
        reveal_strlit("");
    }
    assert(views(lines@) =~= created_output(name@, command@, plugin_dir@, filter_path@));
    lines
}

} // verus!
