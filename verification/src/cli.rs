//! The command line of the editor.
use vstd::prelude::*;

verus! {

/// What the command line gives: the file to open, if any.
#[derive(Debug, Clone)]
pub struct Cli {
    pub path: Option<String>,
}

} // verus!
