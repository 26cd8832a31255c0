use vstd::prelude::*;

verus! {

/// What `lowfat info` shows, chosen from its arguments.
#[derive(Debug, PartialEq, Eq)]
pub enum InfoView {
    /// `info --config`: the fully resolved configuration.
    Config,
    /// `info <cmd>`: the pipeline that applies to that command.
    Pipeline(String),
    /// bare `info`: the status badge, then the active filter list.
    Overview,
}

/// `lowfat info [cmd] [--config]`: one place to see what is set up.
///
/// The `--config` flag takes precedence over a command name; with neither,
/// the overview is shown.
pub fn run(cmd: Option<&str>, config_flag: bool) -> (view: InfoView)
    ensures
        config_flag ==> view == InfoView::Config,
        !config_flag && cmd is Some ==> view is Pipeline && view->0@ == cmd->0@,
        !config_flag && cmd is None ==> view == InfoView::Overview,
{
    if config_flag {
        return InfoView::Config;
    }
    if let Some(c) = cmd {
        return InfoView::Pipeline(c.to_owned());
    }
    InfoView::Overview
}

} // verus!
