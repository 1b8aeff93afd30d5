//! What a run is asked to do.

use crate::report::ReportFilter;
use crate::text::{strip_suffix, without_suffix};
use vstd::prelude::*;
use vstd::string::StringExecFns;

verus! {

/// The settings of a run.
#[derive(Debug, Clone)]
pub struct Args {
    /// Name of the player for which to show the information
    pub player_name: String,
    /// Show items which are not fully researched
    pub missing: bool,
    /// Show items which are fully researched
    pub complete: bool,
}

impl Args {
    /// The filter that the two switches ask for.
    pub fn filter(&self) -> (filter: ReportFilter)
        ensures
            filter == (ReportFilter { show_incomplete: self.missing, show_complete: self.complete }),
    {
        ReportFilter { show_incomplete: self.missing, show_complete: self.complete }
    }

    /// The name of the player's file: the player's name, which may be given
    /// with the ending `.plr` or without it, with that ending exactly once.
    pub fn file_name(&self) -> (name: String)
        ensures
            name@ == without_suffix(self.player_name@, ".plr"@) + ".plr"@,
    {
        let mut name = strip_suffix(self.player_name.as_str(), ".plr");
        name.append(".plr");
        name
    }
}

} // verus!
