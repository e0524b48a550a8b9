//! Command-line options, as plain flags. Parsing the process arguments is
//! the surrounding program's job.

use vstd::prelude::*;

verus! {

/// The tool's command-line options.
#[derive(Clone, Copy, PartialEq, Eq, Structural, Debug)]
pub struct Args {
    /// Echo every external command's output instead of a progress line.
    pub verbose: bool,
    /// Delete the persisted configuration and exit.
    pub reset: bool,
}

impl Default for Args {
    /// All options off.
    fn default() -> (r: Args)
        ensures
            r == (Args { verbose: false, reset: false }),
    {
        Args { verbose: false, reset: false }
    }
}

} // verus!
