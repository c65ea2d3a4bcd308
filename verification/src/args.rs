//! What the command line asks for.

use vstd::prelude::*;
use vstd::string::StringExecFns;

verus! {

/// The arguments of a run.
#[derive(Debug, Clone, PartialEq, Eq)]
pub struct Args {
    /// The document to process: a path, or `-` for standard input.
    pub lectic: String,
    /// Whether only the reply is written out, and not the document with it.
    pub short: bool,
}

impl Args {
    /// Whether the document is read from standard input: the path is a
    /// single hyphen.
    pub fn reads_stdin(&self) -> (r: bool)
        ensures
            r == (self.lectic@ == "-"@),
    {
        let hyphen = String::from_str("-");
        self.lectic == hyphen
    }
}

} // verus!
