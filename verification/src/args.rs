//! What the user asks for on the command line.

use crate::helpers::FilePath;
use vstd::prelude::*;

verus! {

/// The arguments of one session.
#[derive(Clone, Debug)]
pub struct Args {
    /// Run the command on the file that changed and not on the watched path
    /// above it. Only a command with the `{}` placeholder tells the
    /// difference.
    pub recursive: bool,
    /// The command line to run.
    pub command: String,
    /// The paths to watch.
    pub path: Vec<FilePath>,
}

} // verus!
