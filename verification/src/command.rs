//! What the commands that herdr runs leave behind.

use vstd::prelude::*;

verus! {

/// What a finished command left behind.
#[derive(Debug, PartialEq, Eq)]
pub struct CommandOutput {
    /// It exited with success.
    pub success: bool,
    pub stdout: Vec<u8>,
}

} // verus!
