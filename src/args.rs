use vstd::prelude::*;

verus! {

/// What the command line asks for.
#[derive(Debug, PartialEq, Eq)]
pub struct Args {
    /// The settings file to read, in place of the usual one.
    pub config: Option<String>,
    /// A report to print; without one the checklist opens for editing.
    pub subcmd: Option<SubCommand>,
}

/// The reports that can be printed in place of the interactive checklist.
#[derive(Debug, Clone, Copy, PartialEq, Eq, Structural)]
pub enum SubCommand {
    /// How many of today's items are done, out of how many.
    Status,
    /// Today's items, one line each.
    Details,
}

} // verus!
