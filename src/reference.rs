use vstd::prelude::*;

use crate::provider::ViewKind;

verus! {

/// The reference that a URL points at.
#[derive(Clone, Debug, PartialEq, Eq)]
pub enum ReferenceSpec {
    Commit(String),
    Tag(String),
    Branch(String),
}

/// The name or identifier that a reference carries.
pub open spec fn reference_name(reference: ReferenceSpec) -> Seq<char> {
    match reference {
        ReferenceSpec::Commit(sha) => sha@,
        ReferenceSpec::Tag(name) => name@,
        ReferenceSpec::Branch(name) => name@,
    }
}

/// The reference given explicitly, if any: a commit first, then a tag, then a branch.
pub open spec fn explicit_reference_spec(
    commit: Option<String>,
    tag: Option<String>,
    branch: Option<String>,
) -> Option<ReferenceSpec> {
    match commit {
        Some(sha) => Some(ReferenceSpec::Commit(sha)),
        None => match tag {
            Some(name) => Some(ReferenceSpec::Tag(name)),
            None => match branch {
                Some(name) => Some(ReferenceSpec::Branch(name)),
                None => None,
            },
        },
    }
}

pub fn explicit_reference(commit: Option<String>, tag: Option<String>, branch: Option<String>) -> (r:
    Option<ReferenceSpec>)
    ensures
        r == explicit_reference_spec(commit, tag, branch),
{
    match commit {
        Some(sha) => Some(ReferenceSpec::Commit(sha)),
        None => match tag {
            Some(name) => Some(ReferenceSpec::Tag(name)),
            None => match branch {
                Some(name) => Some(ReferenceSpec::Branch(name)),
                None => None,
            },
        },
    }
}

/// Picks the reference to browse: an explicit commit first, then a tag, then a
/// branch, and the current branch when none of them is given.
pub fn resolve_reference(
    commit: Option<String>,
    tag: Option<String>,
    branch: Option<String>,
    current_branch: String,
) -> (r: ReferenceSpec)
    ensures
        r == (match explicit_reference_spec(commit, tag, branch) {
            Some(given) => given,
            None => ReferenceSpec::Branch(current_branch),
        }),
{
    match explicit_reference(commit, tag, branch) {
        Some(given) => given,
        None => ReferenceSpec::Branch(current_branch),
    }
}

/// The view that a request asks for.
pub open spec fn view_spec(reference: ReferenceSpec, merge_request: bool) -> ViewKind {
    if merge_request {
        ViewKind::MergeRequests
    } else if reference is Commit {
        ViewKind::BrowseCommit
    } else {
        ViewKind::BrowseRef
    }
}

/// What follows the view's segment: the reference, or nothing for merge requests.
pub open spec fn tail_spec(reference: ReferenceSpec, merge_request: bool) -> Seq<char> {
    if merge_request {
        Seq::empty()
    } else {
        reference_name(reference)
    }
}

pub fn view_for(reference: &ReferenceSpec, merge_request: bool) -> (v: ViewKind)
    ensures
        v == view_spec(*reference, merge_request),
{
    if merge_request {
        ViewKind::MergeRequests
    } else {
        match reference {
            ReferenceSpec::Commit(..) => ViewKind::BrowseCommit,
            _ => ViewKind::BrowseRef,
        }
    }
}

pub fn tail_for(reference: &ReferenceSpec, merge_request: bool) -> (t: String)
    ensures
        t@ == tail_spec(*reference, merge_request),
{
    if merge_request {
        String::new()
    } else {
        match reference {
            ReferenceSpec::Commit(sha) => sha.clone(),
            ReferenceSpec::Tag(name) => name.clone(),
            ReferenceSpec::Branch(name) => name.clone(),
        }
    }
}

/// The branch to browse when none is given: the one HEAD names, or `master`
/// when HEAD names none.
pub fn branch_or_master(head: Option<String>) -> (r: String)
    ensures
        r@ == (match head {
            Some(name) => name@,
            None => "master"@,
        }),
{
    match head {
        Some(name) => name,
        None => "master".to_owned(),
    }
}

} // verus!
