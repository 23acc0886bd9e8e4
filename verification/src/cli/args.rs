//! The arguments of the command line.
use vstd::prelude::*;

verus! {

/// What the command line asks for: the file to read, and whether to run it
/// (the default) or to analyse it.
#[derive(Debug)]
pub struct Cli {
    /// The input file to process
    pub file: String,
    /// Execute the script (default behavior)
    pub execute: bool,
    /// Analyze the script without execution
    pub analyze: bool,
}

} // verus!
