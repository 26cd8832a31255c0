//! Plugins bundled into the binary. They ship as data (a manifest and a
//! `.lf` filter), not code; a plugin of the same name on disk shadows the
//! bundled one.
use vstd::prelude::*;

verus! {

/// A plugin bundled into the binary: where it files, its name, and the text
/// of its two load-bearing files.
pub struct EmbeddedPlugin {
    pub category: &'static str,
    pub name: &'static str,
    pub manifest: &'static str,
    pub filter_lf: &'static str,
}

} // verus!
