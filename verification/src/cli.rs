//! What the command line asks for.

use vstd::prelude::*;

verus! {

/// The arguments of one run: the file to read, and where output should go.
#[derive(Debug, PartialEq, Eq)]
pub struct Cli {
    /// The path of the source file.
    pub source: String,
    /// A custom output path, if one was given.
    pub output: Option<String>,
}

} // verus!
