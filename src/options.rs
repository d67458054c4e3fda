use vstd::prelude::*;

verus! {

/// What a user asked for on one invocation.
pub struct Opt {
    /// The branch to show, instead of the current one.
    pub branch: Option<String>,
    /// A commit to show, instead of a branch.
    pub commit: Option<String>,
    /// A tag to show, instead of a branch.
    pub tag: Option<String>,
    /// The browser to open; an empty one means printing the URL only.
    pub browser: Option<String>,
    /// The remote to read, instead of `origin`.
    pub remote: Option<String>,
    /// Show the merge requests instead of a reference.
    pub merge_request: bool,
    /// Report each step.
    pub verbose: bool,
}

} // verus!
