use vstd::prelude::*;
use super::lf::{collect_pep723_bodies, ruleset_bodies, RuleSet};
use crate::text::{
    chars_of, contains, contains_exec, decimal, first_line, pad_right, push, push_decimal,
    push_padded, trim, trimmed_first_line, views,
};

verus! {

broadcast use vstd::string::group_string_axioms;

/// How one plugin fared in `lowfat plugin doctor`.
#[derive(Debug, PartialEq, Eq)]
pub enum PluginStatus {
    /// The entry file is not there; the path that was looked for.
    EntryMissing(String),
    /// A shell entry: nothing to check.
    Shell,
    /// The `.lf` entry could not be read; the reason.
    Unreadable(String),
    /// The `.lf` entry does not parse; the reason.
    ParseError(String),
    /// A `.lf` entry with no script that needs uv.
    Ready { rules: usize },
    /// Scripts declare dependencies but uv is not available.
    NeedsUv { bodies: usize },
    /// uv could not prepare the environment of a script (numbered from 1).
    PrewarmFailed { body: usize, error: String },
    /// Every script's environment is prepared.
    Warmed { rules: usize, bodies: usize },
}

/// What follows the plugin's name on its status line.
pub open spec fn status_text(status: PluginStatus) -> Seq<char> {
    match status {
        PluginStatus::EntryMissing(path) => "x entry not found: "@ + path@,
        PluginStatus::Shell => "ok (shell)"@,
        PluginStatus::Unreadable(e) => "x cannot read: "@ + e@,
        PluginStatus::ParseError(e) => "x parse error: "@ + e@,
        PluginStatus::Ready { rules } => "ok (.lf, "@ + decimal(rules as nat) + " rules)"@,
        PluginStatus::NeedsUv { bodies } => "! needs uv to resolve "@ + decimal(bodies as nat)
            + " PEP 723 body(ies)"@,
        PluginStatus::PrewarmFailed { body, error } => "x PEP 723 body #"@ + decimal(body as nat)
            + ": "@ + error@,
        PluginStatus::Warmed { rules, bodies } => "ok (.lf, "@ + decimal(rules as nat)
            + " rules, "@ + decimal(bodies as nat) + " uv env(s) cached)"@,
    }
}

/// A plugin's status line: its name in a column of 24, then the verdict.
pub open spec fn status_line(name: Seq<char>, status: PluginStatus) -> Seq<char> {
    "  "@ + pad_right(name, 24) + " "@ + status_text(status)
}

/// Renders the status line of plugin `name`.
pub fn render_status(name: &str, status: &PluginStatus) -> (line: String)
    ensures
        line@ == status_line(name@, *status),
{
    let mut line = String::new();
    push(&mut line, "  ");
    push_padded(&mut line, name, 24);
    push(&mut line, " ");
    match status {
        PluginStatus::EntryMissing(path) => {
            push(&mut line, "x entry not found: ");
            push(&mut line, path.as_str());
        },
        PluginStatus::Shell => {
            push(&mut line, "ok (shell)");
        },
        PluginStatus::Unreadable(e) => {
            push(&mut line, "x cannot read: ");
            push(&mut line, e.as_str());
        },
        PluginStatus::ParseError(e) => {
            push(&mut line, "x parse error: ");
            push(&mut line, e.as_str());
        },
        PluginStatus::Ready { rules } => {
            push(&mut line, "ok (.lf, ");
            push_decimal(&mut line, *rules);
            push(&mut line, " rules)");
        },
        PluginStatus::NeedsUv { bodies } => {
            push(&mut line, "! needs uv to resolve ");
            push_decimal(&mut line, *bodies);
            push(&mut line, " PEP 723 body(ies)");
        },
        PluginStatus::PrewarmFailed { body, error } => {
            push(&mut line, "x PEP 723 body #");
            push_decimal(&mut line, *body);
            push(&mut line, ": ");
            push(&mut line, error.as_str());
        },
        PluginStatus::Warmed { rules, bodies } => {
            push(&mut line, "ok (.lf, ");
            push_decimal(&mut line, *rules);
            push(&mut line, " rules, ");
            push_decimal(&mut line, *bodies);
            push(&mut line, " uv env(s) cached)");
        },
    }
    line
}

/// Whether running a script under uv failed for a reason of uv's own, and
/// if so the error: uv's first line of standard error, trimmed. A script
/// that exits non-zero by itself (a Python traceback) is no failure: the
/// environment was resolved all the same.
pub fn prewarm_failure(success: bool, stderr: &str) -> (err: Option<String>)
    ensures
        err is Some <==> !success && contains(stderr@, "error:"@) && !contains(
            stderr@,
            "Traceback"@,
        ),
        err is Some ==> err->0@ == "uv: "@ + trim(first_line(stderr@)),
{
    if success {
        return None;
    }
    let text = chars_of(stderr);
    let error_word = chars_of("error:");
    let traceback = chars_of("Traceback");
    if contains_exec(&text, &error_word) && !contains_exec(&text, &traceback) {
        let mut msg = String::new();
        push(&mut msg, "uv: ");
        let first = trimmed_first_line(stderr);
        push(&mut msg, first.as_str());
        Some(msg)
    } else {
        None
    }
}

/// The counts `lowfat plugin doctor` reports at the end.
pub struct DoctorTally {
    /// Plugins found ready.
    pub ready: usize,
    /// Plugins checked.
    pub total: usize,
    /// Script environments that uv prepared.
    pub prewarmed: usize,
    /// Some plugin whose entry exists declares that it requires uv.
    pub needs_uv: bool,
}

/// Where the check of the current plugin stands.
pub enum DoctorPhase {
    /// No plugin is being checked.
    Idle,
    /// The plugin's `.lf` entry is to be read and parsed.
    Source { name: String },
    /// The plugin's scripts are being prepared under uv, one after the
    /// other; `next` is the one in flight.
    Prewarming { name: String, rules: usize, bodies: Vec<String>, next: usize },
}

/// What the caller is to do next.
#[derive(Debug, PartialEq, Eq)]
pub enum DoctorAction {
    /// Check the next plugin, or finish.
    NextPlugin,
    /// Read the plugin's entry and parse it as `.lf` rules.
    ReadAndParse,
    /// Have uv resolve the dependencies of this script.
    Prewarm(String),
}

/// The decisions of `lowfat plugin doctor`, fed with what the caller finds
/// on disk and gets back from uv.
pub struct Doctor {
    pub tally: DoctorTally,
    pub phase: DoctorPhase,
    /// Whether `uv` is on the `PATH`.
    pub uv_available: bool,
}

/// The name of the plugin being checked.
pub open spec fn phase_name(phase: DoctorPhase) -> Seq<char> {
    match phase {
        DoctorPhase::Idle => Seq::empty(),
        DoctorPhase::Source { name } => name@,
        DoctorPhase::Prewarming { name, .. } => name@,
    }
}

impl Doctor {
    /// No plugin is ever counted ready twice: the ready ones, together with
    /// the one in progress, never outnumber those checked.
    pub open spec fn wf(self) -> bool {
        &&& self.tally.ready + (if self.phase is Idle { 0int } else { 1int }) <= self.tally.total
        &&& self.phase matches DoctorPhase::Prewarming { bodies, next, .. } ==> next < bodies@.len()
    }

    /// A doctor that has checked nothing yet.
    pub fn new(uv_available: bool) -> (d: Doctor)
        ensures
            d.wf(),
            d.phase is Idle,
            d.tally.ready == 0,
            d.tally.total == 0,
            d.tally.prewarmed == 0,
            !d.tally.needs_uv,
            d.uv_available == uv_available,
    {
        Doctor {
            tally: DoctorTally { ready: 0, total: 0, prewarmed: 0, needs_uv: false },
            phase: DoctorPhase::Idle,
            uv_available,
        }
    }

    /// Ends the current plugin with `status`, counting it ready or not.
    fn finish(&mut self, name: &str, status: PluginStatus, ready: bool) -> (out: (
        DoctorAction,
        Option<String>,
    ))
        requires
            old(self).wf(),
            !(old(self).phase is Idle),
        ensures
            final(self).wf(),
            final(self).phase is Idle,
            final(self).uv_available == old(self).uv_available,
            final(self).tally.total == old(self).tally.total,
            final(self).tally.prewarmed == old(self).tally.prewarmed,
            final(self).tally.needs_uv == old(self).tally.needs_uv,
            final(self).tally.ready == old(self).tally.ready + if ready { 1int } else { 0int },
            out.0 is NextPlugin,
            out.1 is Some,
            out.1->0@ == status_line(name@, status),
    {
        let line = render_status(name, &status);
        if ready {
            self.tally.ready = self.tally.ready + 1;
        }
        self.phase = DoctorPhase::Idle;
        (DoctorAction::NextPlugin, Some(line))
    }

    /// Starts on the plugin `name`, given where its entry file is, whether
    /// that file exists, whether the manifest says it requires uv, and
    /// whether the entry is a `.lf` file.
    pub fn plugin(
        &mut self,
        name: String,
        entry: String,
        entry_exists: bool,
        requires_uv: bool,
        is_lf: bool,
    ) -> (out: (DoctorAction, Option<String>))
        requires
            old(self).wf(),
            old(self).phase is Idle,
            old(self).tally.total < usize::MAX,
        ensures
            final(self).wf(),
            final(self).uv_available == old(self).uv_available,
            final(self).tally.total == old(self).tally.total + 1,
            final(self).tally.prewarmed == old(self).tally.prewarmed,
            !entry_exists ==> {
                &&& final(self).phase is Idle
                &&& final(self).tally.ready == old(self).tally.ready
                &&& final(self).tally.needs_uv == old(self).tally.needs_uv
                &&& out.0 is NextPlugin
                &&& out.1 is Some
                &&& out.1->0@ == status_line(name@, PluginStatus::EntryMissing(entry))
            },
            entry_exists ==> final(self).tally.needs_uv == (old(self).tally.needs_uv
                || requires_uv),
            entry_exists && !is_lf ==> {
                &&& final(self).phase is Idle
                &&& final(self).tally.ready == old(self).tally.ready + 1
                &&& out.0 is NextPlugin
                &&& out.1 is Some
                &&& out.1->0@ == status_line(name@, PluginStatus::Shell)
            },
            entry_exists && is_lf ==> {
                &&& final(self).phase is Source
                &&& phase_name(final(self).phase) == name@
                &&& final(self).tally.ready == old(self).tally.ready
                &&& out.0 is ReadAndParse
                &&& out.1 is None
            },
    {
        self.tally.total = self.tally.total + 1;
        if !entry_exists {
            let line = render_status(name.as_str(), &PluginStatus::EntryMissing(entry));
            return (DoctorAction::NextPlugin, Some(line));
        }
        if requires_uv {
            self.tally.needs_uv = true;
        }
        if !is_lf {
            self.phase = DoctorPhase::Source { name: name.clone() };
            return self.finish(name.as_str(), PluginStatus::Shell, true);
        }
        self.phase = DoctorPhase::Source { name };
        (DoctorAction::ReadAndParse, None)
    }

    /// The entry of the current plugin could not be read.
    pub fn read_failed(&mut self, error: String) -> (out: (DoctorAction, Option<String>))
        requires
            old(self).wf(),
            old(self).phase is Source,
        ensures
            final(self).wf(),
            final(self).phase is Idle,
            final(self).uv_available == old(self).uv_available,
            final(self).tally == old(self).tally,
            out.0 is NextPlugin,
            out.1 is Some,
            out.1->0@ == status_line(phase_name(old(self).phase), PluginStatus::Unreadable(error)),
    {
        let name = self.current_name();
        self.finish(name.as_str(), PluginStatus::Unreadable(error), false)
    }

    /// The entry of the current plugin does not parse.
    pub fn parse_failed(&mut self, error: String) -> (out: (DoctorAction, Option<String>))
        requires
            old(self).wf(),
            old(self).phase is Source,
        ensures
            final(self).wf(),
            final(self).phase is Idle,
            final(self).uv_available == old(self).uv_available,
            final(self).tally == old(self).tally,
            out.0 is NextPlugin,
            out.1 is Some,
            out.1->0@ == status_line(phase_name(old(self).phase), PluginStatus::ParseError(error)),
    {
        let name = self.current_name();
        self.finish(name.as_str(), PluginStatus::ParseError(error), false)
    }

    /// The name of the plugin being checked.
    fn current_name(&self) -> (name: String)
        ensures
            name@ == phase_name(self.phase),
    {
        match &self.phase {
            DoctorPhase::Idle => String::new(),
            DoctorPhase::Source { name } => name.clone(),
            DoctorPhase::Prewarming { name, .. } => name.clone(),
        }
    }

    /// The entry of the current plugin parsed into `rs`. Its scripts that
    /// declare inline dependencies are prepared under uv one by one, if
    /// there are any and uv is available.
    pub fn parsed(&mut self, rs: &RuleSet) -> (out: (DoctorAction, Option<String>))
        requires
            old(self).wf(),
            old(self).phase is Source,
        ensures
            final(self).wf(),
            final(self).uv_available == old(self).uv_available,
            final(self).tally.total == old(self).tally.total,
            final(self).tally.prewarmed == old(self).tally.prewarmed,
            final(self).tally.needs_uv == old(self).tally.needs_uv,
            ruleset_bodies(*rs).len() == 0 ==> {
                &&& final(self).phase is Idle
                &&& final(self).tally.ready == old(self).tally.ready + 1
                &&& out.0 is NextPlugin
                &&& out.1 is Some
                &&& out.1->0@ == status_line(
                    phase_name(old(self).phase),
                    PluginStatus::Ready { rules: rs.rules@.len() as usize },
                )
            },
            ruleset_bodies(*rs).len() > 0 && !old(self).uv_available ==> {
                &&& final(self).phase is Idle
                &&& final(self).tally.ready == old(self).tally.ready
                &&& out.0 is NextPlugin
                &&& out.1 is Some
                &&& out.1->0@ == status_line(
                    phase_name(old(self).phase),
                    PluginStatus::NeedsUv { bodies: ruleset_bodies(*rs).len() as usize },
                )
            },
            ruleset_bodies(*rs).len() > 0 && old(self).uv_available ==> {
                &&& final(self).phase is Prewarming
                &&& phase_name(final(self).phase) == phase_name(old(self).phase)
                &&& final(self).phase->Prewarming_rules == rs.rules@.len()
                &&& views(final(self).phase->Prewarming_bodies@) == ruleset_bodies(*rs)
                &&& final(self).phase->Prewarming_next == 0
                &&& final(self).tally.ready == old(self).tally.ready
                &&& out.0 is Prewarm
                &&& out.0->Prewarm_0@ == ruleset_bodies(*rs)[0]
                &&& out.1 is None
            },
    {
        let name = self.current_name();
        let bodies = collect_pep723_bodies(rs);
        let rules = rs.rules.len();
        if bodies.len() == 0 {
            return self.finish(name.as_str(), PluginStatus::Ready { rules }, true);
        }
        if !self.uv_available {
            let count = bodies.len();
            return self.finish(name.as_str(), PluginStatus::NeedsUv { bodies: count }, false);
        }
        let first = bodies[0].clone();
        assert(first@ == views(bodies@)[0]);
        self.phase = DoctorPhase::Prewarming { name, rules, bodies, next: 0 };
        (DoctorAction::Prewarm(first), None)
    }

    /// uv prepared the environment of the script in flight.
    pub fn prewarm_succeeded(&mut self) -> (out: (DoctorAction, Option<String>))
        requires
            old(self).wf(),
            old(self).phase is Prewarming,
            old(self).tally.prewarmed < usize::MAX,
        ensures
            final(self).wf(),
            final(self).uv_available == old(self).uv_available,
            final(self).tally.total == old(self).tally.total,
            final(self).tally.prewarmed == old(self).tally.prewarmed + 1,
            final(self).tally.needs_uv == old(self).tally.needs_uv,
            ({
                let bodies = old(self).phase->Prewarming_bodies;
                let next = old(self).phase->Prewarming_next;
                &&& next + 1 < bodies@.len() ==> {
                    &&& final(self).phase is Prewarming
                    &&& phase_name(final(self).phase) == phase_name(old(self).phase)
                    &&& final(self).phase->Prewarming_rules == old(self).phase->Prewarming_rules
                    &&& final(self).phase->Prewarming_bodies == bodies
                    &&& final(self).phase->Prewarming_next == next + 1
                    &&& final(self).tally.ready == old(self).tally.ready
                    &&& out.0 is Prewarm
                    &&& out.0->Prewarm_0@ == bodies@[next + 1]@
                    &&& out.1 is None
                }
                &&& next + 1 >= bodies@.len() ==> {
                    &&& final(self).phase is Idle
                    &&& final(self).tally.ready == old(self).tally.ready + 1
                    &&& out.0 is NextPlugin
                    &&& out.1 is Some
                    &&& out.1->0@ == status_line(
                        phase_name(old(self).phase),
                        PluginStatus::Warmed {
                            rules: old(self).phase->Prewarming_rules,
                            bodies: bodies@.len() as usize,
                        },
                    )
                }
            }),
    {
        self.tally.prewarmed = self.tally.prewarmed + 1;
        let name = self.current_name();
        let (rules, count, next) = match &self.phase {
            DoctorPhase::Prewarming { rules, bodies, next, .. } => (*rules, bodies.len(), *next),
            _ => (0, 0, 0),
        };
        if next + 1 < count {
            let mut phase = DoctorPhase::Idle;
            std::mem::swap(&mut phase, &mut self.phase);
            match phase {
                DoctorPhase::Prewarming { name, rules, bodies, next } => {
                    let body = bodies[next + 1].clone();
                    self.phase = DoctorPhase::Prewarming { name, rules, bodies, next: next + 1 };
                    (DoctorAction::Prewarm(body), None)
                },
                _ => (DoctorAction::NextPlugin, None),
            }
        } else {
            self.finish(name.as_str(), PluginStatus::Warmed { rules, bodies: count }, true)
        }
    }

    /// uv could not prepare the environment of the script in flight.
    pub fn prewarm_failed(&mut self, error: String) -> (out: (DoctorAction, Option<String>))
        requires
            old(self).wf(),
            old(self).phase is Prewarming,
        ensures
            final(self).wf(),
            final(self).phase is Idle,
            final(self).uv_available == old(self).uv_available,
            final(self).tally == old(self).tally,
            out.0 is NextPlugin,
            out.1 is Some,
            out.1->0@ == status_line(
                phase_name(old(self).phase),
                PluginStatus::PrewarmFailed {
                    body: (old(self).phase->Prewarming_next + 1) as usize,
                    error,
                },
            ),
    {
        let name = self.current_name();
        let next = match &self.phase {
            DoctorPhase::Prewarming { next, bodies, .. } => {
                assert(*next < bodies.len());
                *next
            },
            _ => 0,
        };
        self.finish(name.as_str(), PluginStatus::PrewarmFailed { body: next + 1, error }, false)
    }
    /// What `lowfat plugin doctor` prints after the last plugin.
    pub open spec fn summary_output(self, python_available: bool) -> Seq<Seq<char>> {
        let t = self.tally;
        seq![
            ""@,
            "  "@ + decimal(t.ready as nat) + "/"@ + decimal(t.total as nat)
                + " plugins ready, "@ + decimal(t.prewarmed as nat) + " uv env(s) warmed."@,
        ] + (if t.needs_uv && !self.uv_available {
            seq![
                ""@,
                "  ! uv not on PATH — required by at least one plugin."@,
                "    install: curl -LsSf https://astral.sh/uv/install.sh | sh"@,
                "    or:      brew install uv"@,
            ]
        } else {
            Seq::empty()
        }) + (if !python_available {
            seq![""@, "  ! python3 not on PATH — `python:` blocks will fail."@]
        } else {
            Seq::empty()
        })
    }

    /// The closing lines: the counts, then what is missing from the `PATH`.
    pub fn summary(&self, python_available: bool) -> (lines: Vec<String>)
        ensures
            views(lines@) == self.summary_output(python_available),
    {
        let mut lines: Vec<String> = Vec::new();
        lines.push("".to_owned());
        let mut counts = String::new();
        push(&mut counts, "  ");
        push_decimal(&mut counts, self.tally.ready);
        push(&mut counts, "/");
        push_decimal(&mut counts, self.tally.total);
        push(&mut counts, " plugins ready, ");
        push_decimal(&mut counts, self.tally.prewarmed);
        push(&mut counts, " uv env(s) warmed.");
        lines.push(counts);
        if self.tally.needs_uv && !self.uv_available {
            lines.push("".to_owned());
            lines.push("  ! uv not on PATH — required by at least one plugin.".to_owned());
            lines.push("    install: curl -LsSf https://astral.sh/uv/install.sh | sh".to_owned());
            lines.push("    or:      brew install uv".to_owned());
        }
        if !python_available {
            lines.push("".to_owned());
            lines.push("  ! python3 not on PATH — `python:` blocks will fail.".to_owned());
        }
        assert(views(lines@) =~= self.summary_output(python_available));
        lines
    }
}

/// What `lowfat plugin doctor` prints when there is no plugin.
pub const NOTHING_TO_CHECK: &'static str = "No community plugins to check.";

/// However the checks go, no more plugins are ready than were checked.
pub proof fn lemma_ready_within_total(d: Doctor)
    requires
        d.wf(),
    ensures
        d.tally.ready <= d.tally.total,
{
}

/// The closing report warns about uv only when uv is missing and some
/// plugin needs it, and about python3 only when it is missing: with both
/// on the `PATH` it is the blank line and the counts alone.
pub proof fn lemma_summary_warnings(d: Doctor, python_available: bool)
    ensures
        d.summary_output(python_available).len() == 2 + (if d.tally.needs_uv && !d.uv_available {
            4int
        } else {
            0int
        }) + (if python_available {
            0int
        } else {
            2int
        }),
        d.uv_available && python_available ==> d.summary_output(python_available).len() == 2,
        d.summary_output(python_available)[0] == ""@,
        d.tally.needs_uv && !d.uv_available ==> d.summary_output(python_available)[3]
            == "  ! uv not on PATH — required by at least one plugin."@,
        !(d.tally.needs_uv && !d.uv_available) && !python_available ==> d.summary_output(
            python_available,
        ).subrange(2, 4) == seq![""@, "  ! python3 not on PATH — `python:` blocks will fail."@],
{
    let out = d.summary_output(python_available);
    if !(d.tally.needs_uv && !d.uv_available) && !python_available {
        assert(out.subrange(2, 4) =~= seq![
            ""@,
            "  ! python3 not on PATH — `python:` blocks will fail."@,
        ]);
    }
}

} // verus!
