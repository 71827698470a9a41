use vstd::prelude::*;

verus! {

/// What the command line gives.
#[derive(Default, Debug)]
pub struct Args {
    /// The source directory to copy.
    pub dir: String,
    /// The target server.
    pub server: String,
    /// The target folder.
    pub target: String,
}

} // verus!
