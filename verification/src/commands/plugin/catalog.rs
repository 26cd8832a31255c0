use vstd::prelude::*;
use crate::text::{
    contains, join, join_strings, lemma_contains_within, lemma_join_contains_items, lemma_join_len,
    push, total_len, views,
};

verus! {

broadcast use vstd::string::group_string_axioms;

/// What the plugin commands read of a discovered plugin: its manifest's
/// fields, the entry file it resolves to and the directory it lives in.
pub struct PluginEntry {
    /// The directory the plugin sits under (`git`, `docker`, ...).
    pub category: String,
    pub name: String,
    pub version: Option<String>,
    pub description: Option<String>,
    pub author: Option<String>,
    /// The commands the plugin filters.
    pub commands: Vec<String>,
    /// The entry file, as the manifest's runtime resolves it.
    pub entry: String,
    /// The plugin's directory, as displayed.
    pub base_dir: String,
}

/// The text of an optional field, or `default` when it is absent.
pub open spec fn text_or(field: Option<String>, default: Seq<char>) -> Seq<char> {
    match field {
        Some(s) => s@,
        None => default,
    }
}

fn push_or(out: &mut String, field: &Option<String>, default: &str)
    ensures
        final(out)@ == old(out)@ + text_or(*field, default@),
{
    match field {
        Some(s) => push(out, s.as_str()),
        None => push(out, default),
    }
}

/// Finds the first plugin named `name`; the first match wins.
pub fn find_plugin(plugins: &Vec<PluginEntry>, name: &str) -> (found: Option<usize>)
    ensures
        match found {
            Some(i) => i < plugins@.len() && plugins@[i as int].name@ == name@ && forall|j: int|
                0 <= j < i ==> plugins@[j].name@ != name@,
            None => forall|j: int| 0 <= j < plugins@.len() ==> plugins@[j].name@ != name@,
        },
{
    let target = name.to_owned();
    let n = plugins.len();
    for i in 0..n
        invariant
            n == plugins@.len(),
            target@ == name@,
            forall|j: int| 0 <= j < i ==> plugins@[j].name@ != name@,
    {
        if plugins[i].name == target {
            return Some(i);
        }
    }
    None
}

/// The line `lowfat plugin list` prints for one plugin.
pub open spec fn list_line(p: PluginEntry) -> Seq<char> {
    "  "@ + p.category@ + "/"@ + p.name@ + " v"@ + text_or(p.version, "?"@) + " — commands: ["@
        + join(views(p.commands@), ", "@) + "]"@
}

/// What `lowfat plugin list` prints, line by line.
pub open spec fn list_output(plugins: Seq<PluginEntry>, plugin_dir: Seq<char>) -> Seq<Seq<char>> {
    if plugins.len() == 0 {
        seq!["No community plugins installed."@, "  Plugin dir: "@ + plugin_dir]
    } else {
        seq!["Community plugins:"@, ""@] + Seq::new(plugins.len(), |i: int| list_line(plugins[i]))
    }
}

fn list_line_of(p: &PluginEntry) -> (line: String)
    ensures
        line@ == list_line(*p),
{
    let mut line = String::new();
    push(&mut line, "  ");
    push(&mut line, p.category.as_str());
    push(&mut line, "/");
    push(&mut line, p.name.as_str());
    push(&mut line, " v");
    push_or(&mut line, &p.version, "?");
    push(&mut line, " — commands: [");
    let cmds = join_strings(&p.commands, ", ");
    push(&mut line, cmds.as_str());
    push(&mut line, "]");
    line
}

/// The lines of `lowfat plugin list` for the discovered plugins.
pub fn list_lines(plugins: &Vec<PluginEntry>, plugin_dir: &str) -> (lines: Vec<String>)
    ensures
        views(lines@) == list_output(plugins@, plugin_dir@),
{
    let mut lines: Vec<String> = Vec::new();
    if plugins.len() == 0 {
        lines.push("No community plugins installed.".to_owned());
        let mut dir_line = String::new();
        push(&mut dir_line, "  Plugin dir: ");
        push(&mut dir_line, plugin_dir);
        lines.push(dir_line);
        assert(views(lines@) =~= list_output(plugins@, plugin_dir@));
        return lines;
    }
    lines.push("Community plugins:".to_owned());
    lines.push("".to_owned());
    let n = plugins.len();
    for i in 0..n
        invariant
            n == plugins@.len(),
            n > 0,
            views(lines@) == seq!["Community plugins:"@, ""@] + Seq::new(
                i as nat,
                |k: int| list_line(plugins@[k]),
            ),
    {
        let ghost prev = views(lines@);
        let line = list_line_of(&plugins[i]);
        lines.push(line);
        assert(views(lines@) =~= prev.push(list_line(plugins@[i as int])));
        assert(views(lines@) =~= seq!["Community plugins:"@, ""@] + Seq::new(
            (i + 1) as nat,
            |k: int| list_line(plugins@[k]),
        ));
    }
    assert(views(lines@) =~= list_output(plugins@, plugin_dir@));
    lines
}

/// What `lowfat plugin info <name>` reports.
#[derive(Debug, PartialEq, Eq)]
pub enum InfoReport {
    /// The plugin was found: the lines to print on standard output.
    Found(Vec<String>),
    /// No plugin has that name: the line to print on standard error.
    NotFound(String),
}

/// The lines `lowfat plugin info` prints for a plugin.
pub open spec fn info_output(p: PluginEntry) -> Seq<Seq<char>> {
    seq![
        "Plugin: "@ + p.name@,
        "  Version:     "@ + text_or(p.version, "?"@),
        "  Description: "@ + text_or(p.description, "-"@),
        "  Author:      "@ + text_or(p.author, "-"@),
        "  Category:    "@ + p.category@,
        "  Entry:       "@ + p.entry@,
        "  Commands:    "@ + join(views(p.commands@), ", "@),
        "  Path:        "@ + p.base_dir@,
    ]
}

fn labelled(label: &str, value: &str) -> (line: String)
    ensures
        line@ == label@ + value@,
{
    let mut line = String::new();
    push(&mut line, label);
    push(&mut line, value);
    line
}

fn labelled_or(label: &str, value: &Option<String>, default: &str) -> (line: String)
    ensures
        line@ == label@ + text_or(*value, default@),
{
    let mut line = String::new();
    push(&mut line, label);
    push_or(&mut line, value, default);
    line
}

fn info_lines(p: &PluginEntry) -> (lines: Vec<String>)
    ensures
        views(lines@) == info_output(*p),
{
    let mut lines: Vec<String> = Vec::new();
    lines.push(labelled("Plugin: ", p.name.as_str()));
    lines.push(labelled_or("  Version:     ", &p.version, "?"));
    lines.push(labelled_or("  Description: ", &p.description, "-"));
    lines.push(labelled_or("  Author:      ", &p.author, "-"));
    lines.push(labelled("  Category:    ", p.category.as_str()));
    lines.push(labelled("  Entry:       ", p.entry.as_str()));
    let cmds = join_strings(&p.commands, ", ");
    lines.push(labelled("  Commands:    ", cmds.as_str()));
    lines.push(labelled("  Path:        ", p.base_dir.as_str()));
    assert(views(lines@) =~= info_output(*p));
    lines
}

/// `lowfat plugin info <name>`: the details of the first plugin with that
/// name, or the complaint that there is none.
pub fn info_report(plugins: &Vec<PluginEntry>, name: &str) -> (report: InfoReport)
    ensures
        (report is Found) <==> exists|i: int| 0 <= i < plugins@.len() && plugins@[i].name@ == name@,
        report is Found ==> exists|i: int|
            0 <= i < plugins@.len() && plugins@[i].name@ == name@ && (forall|j: int|
                0 <= j < i ==> plugins@[j].name@ != name@) && views(report->Found_0@)
                == info_output(plugins@[i]),
        report is NotFound ==> report->NotFound_0@ == "lowfat: plugin not found: "@ + name@,
{
    match find_plugin(plugins, name) {
        Some(i) => {
            let lines = info_lines(&plugins[i]);
            assert(views(lines@) == info_output(plugins@[i as int]));
            InfoReport::Found(lines)
        },
        None => InfoReport::NotFound(labelled("lowfat: plugin not found: ", name)),
    }
}

/// What `lowfat plugin trust <name>` prints once the plugin is trusted.
pub fn trusted_message(name: &str) -> (msg: String)
    ensures
        msg@ == "lowfat: plugin '"@ + name@ + "' is now trusted"@,
{
    let mut msg = labelled("lowfat: plugin '", name);
    push(&mut msg, "' is now trusted");
    msg
}

/// What `lowfat plugin untrust <name>` prints once trust is revoked.
pub fn untrusted_message(name: &str) -> (msg: String)
    ensures
        msg@ == "lowfat: trust revoked for plugin '"@ + name@ + "'"@,
{
    let mut msg = labelled("lowfat: trust revoked for plugin '", name);
    push(&mut msg, "'");
    msg
}

/// A plugin's list line shows all its commands, in order, each once between
/// `, ` separators: every command occurs in the line, and the line is as long
/// as its fixed text, category, name and version plus all the commands and
/// the separators between them.
pub proof fn lemma_list_line_shows_every_command(p: PluginEntry)
    ensures
        forall|k: int|
            0 <= k < p.commands@.len() ==> contains(list_line(p), #[trigger] p.commands@[k]@),
        p.commands@.len() > 0 ==> list_line(p).len() == p.category@.len() + p.name@.len()
            + text_or(p.version, "?"@).len() + 20 + total_len(views(p.commands@)) + 2 * (
        p.commands@.len() - 1),
        p.commands@.len() == 0 ==> list_line(p).len() == p.category@.len() + p.name@.len()
            + text_or(p.version, "?"@).len() + 20,
{
    reveal_strlit("  ");
    reveal_strlit("/");
    reveal_strlit(" v");
    reveal_strlit(" — commands: [");
    reveal_strlit("]");
    reveal_strlit(", ");
    let cmds = views(p.commands@);
    let front = "  "@ + p.category@ + "/"@ + p.name@ + " v"@ + text_or(p.version, "?"@)
        + " — commands: ["@;
    assert(list_line(p) == front + join(cmds, ", "@) + "]"@);
    lemma_join_contains_items(cmds, ", "@);
    assert forall|k: int| 0 <= k < p.commands@.len() implies contains(
        list_line(p),
        #[trigger] p.commands@[k]@,
    ) by {
        assert(cmds[k] == p.commands@[k]@);
        lemma_contains_within(front, join(cmds, ", "@), "]"@, cmds[k]);
    }
    if p.commands@.len() > 0 {
        lemma_join_len(cmds, ", "@);
    } else {
        assert(join(cmds, ", "@).len() == 0);
    }
}

/// The details `lowfat plugin info` shows are the manifest's own: each
/// field when the manifest has it, `?` for a missing version and `-` for a
/// missing description or author, and every command of the plugin.
pub proof fn lemma_info_shows_manifest_fields(p: PluginEntry)
    ensures
        info_output(p).len() == 8,
        info_output(p)[0] == "Plugin: "@ + p.name@,
        p.version matches Some(v) ==> info_output(p)[1] == "  Version:     "@ + v@,
        p.version is None ==> info_output(p)[1] == "  Version:     ?"@,
        p.description matches Some(d) ==> info_output(p)[2] == "  Description: "@ + d@,
        p.description is None ==> info_output(p)[2] == "  Description: -"@,
        p.author matches Some(a) ==> info_output(p)[3] == "  Author:      "@ + a@,
        p.author is None ==> info_output(p)[3] == "  Author:      -"@,
        info_output(p)[4] == "  Category:    "@ + p.category@,
        info_output(p)[5] == "  Entry:       "@ + p.entry@,
        forall|k: int|
            0 <= k < p.commands@.len() ==> contains(info_output(p)[6], #[trigger] p.commands@[k]@),
        info_output(p)[7] == "  Path:        "@ + p.base_dir@,
{
    reveal_strlit("  Version:     ");
    reveal_strlit("  Version:     ?");
    reveal_strlit("?");
    reveal_strlit("  Description: ");
    reveal_strlit("  Description: -");
    reveal_strlit("  Author:      ");
    reveal_strlit("  Author:      -");
    reveal_strlit("-");
    assert("  Version:     "@ + "?"@ =~= "  Version:     ?"@);
    assert("  Description: "@ + "-"@ =~= "  Description: -"@);
    assert("  Author:      "@ + "-"@ =~= "  Author:      -"@);
    let cmds = views(p.commands@);
    lemma_join_contains_items(cmds, ", "@);
    assert forall|k: int| 0 <= k < p.commands@.len() implies contains(
        info_output(p)[6],
        #[trigger] p.commands@[k]@,
    ) by {
        assert(cmds[k] == p.commands@[k]@);
        lemma_contains_within("  Commands:    "@, join(cmds, ", "@), Seq::empty(), cmds[k]);
        assert("  Commands:    "@ + join(cmds, ", "@) + Seq::<char>::empty() =~= info_output(p)[6]);
    }
}

} // verus!
