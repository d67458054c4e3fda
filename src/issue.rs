use vstd::prelude::*;

verus! {

/// Every way in which producing or opening a repository URL can fail.
#[derive(Debug, Clone, PartialEq, Eq)]
pub enum Issue {
    NotInAGitRepository,
    NoRemoteMatching(String),
    NoRemoteAvailable,
    NotAbleToOpenSystemBrowser,
    BrowserNotAvailable(String),
    UnableToGetRemoteParts,
    UnknownProvider,
}

/// The outcome of a run that went through.
pub struct Success;

/// Process exit status of each failure; success exits with 0.
pub open spec fn exit_code_of(issue: Issue) -> i32 {
    match issue {
        Issue::NotInAGitRepository => 1,
        Issue::NoRemoteMatching(..) => 2,
        Issue::NoRemoteAvailable => 3,
        Issue::NotAbleToOpenSystemBrowser => 4,
        Issue::BrowserNotAvailable(..) => 5,
        Issue::UnableToGetRemoteParts => 6,
        Issue::UnknownProvider => 7,
    }
}

impl Issue {
    pub fn exit_code(&self) -> (code: i32)
        ensures
            code == exit_code_of(*self),
            1 <= code <= 7,
    {
        match self {
            Issue::NotInAGitRepository => 1,
            Issue::NoRemoteMatching(..) => 2,
            Issue::NoRemoteAvailable => 3,
            Issue::NotAbleToOpenSystemBrowser => 4,
            Issue::BrowserNotAvailable(..) => 5,
            Issue::UnableToGetRemoteParts => 6,
            Issue::UnknownProvider => 7,
        }
    }
}

} // verus!
