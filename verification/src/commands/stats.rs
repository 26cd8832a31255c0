use vstd::prelude::*;

verus! {

/// What `lowfat stats` shows, chosen from its arguments.
#[derive(Debug, PartialEq, Eq, Structural)]
pub enum StatsView {
    /// `stats --audit`: the most recent plugin executions, at most `limit`.
    Audit { limit: usize },
    /// bare `stats`: the lifetime token savings.
    Gain,
}

/// `lowfat stats [--audit]`: one place to see what has actually happened.
pub fn run(audit_flag: bool, audit_limit: usize) -> (view: StatsView)
    ensures
        audit_flag ==> view == (StatsView::Audit { limit: audit_limit }),
        !audit_flag ==> view == StatsView::Gain,
{
    if audit_flag {
        StatsView::Audit { limit: audit_limit }
    } else {
        StatsView::Gain
    }
}

} // verus!
