use vstd::prelude::*;

use crate::issue::Issue;
use crate::provider::{provider_for, provider_of, segment_spec};
use crate::reference::{tail_for, tail_spec, view_for, view_spec, ReferenceSpec};
use crate::remote::{get_remote_parts, parse_remote};
use crate::url::{generate_url, url_spec};

verus! {

pub const DEFAULT_REMOTE_ORIGIN: &'static str = "origin";

/// The URL that a request resolves to, or the first error on the way.
pub open spec fn browse_url_spec(remote_url: Seq<char>, reference: ReferenceSpec, merge_request: bool) -> Result<
    Seq<char>,
    Issue,
> {
    match parse_remote(remote_url) {
        None => Err(Issue::UnableToGetRemoteParts),
        Some((domain, repository)) => match segment_spec(
            provider_of(domain),
            view_spec(reference, merge_request),
        ) {
            None => Err(Issue::UnknownProvider),
            Some(segment) => Ok(
                url_spec(domain, repository, segment, tail_spec(reference, merge_request)),
            ),
        },
    }
}

/// Parses the remote URL, picks the provider's segment for the requested view
/// and builds the web URL.
pub fn browse_url(remote_url: &str, reference: &ReferenceSpec, merge_request: bool) -> (r: Result<
    String,
    Issue,
>)
    ensures
        r is Ok <==> browse_url_spec(remote_url@, *reference, merge_request) is Ok,
        r matches Ok(u) ==> browse_url_spec(remote_url@, *reference, merge_request) == Ok::<
            Seq<char>,
            Issue,
        >(u@),
        r matches Err(e) ==> browse_url_spec(remote_url@, *reference, merge_request) == Err::<
            Seq<char>,
            Issue,
        >(e),
{
    let parts = get_remote_parts(remote_url)?;
    let provider = provider_for(parts.domain.as_str());
    let segment = provider.segment_for(view_for(reference, merge_request))?;
    let tail = tail_for(reference, merge_request);
    Ok(generate_url(parts.domain.as_str(), &parts.repository, &segment, &tail))
}

/// The remote to read: the one given, or `origin`.
pub fn remote_name(remote: Option<String>) -> (r: String)
    ensures
        r@ == (match remote {
            Some(name) => name@,
            None => DEFAULT_REMOTE_ORIGIN@,
        }),
{
    match remote {
        Some(name) => name,
        None => DEFAULT_REMOTE_ORIGIN.to_owned(),
    }
}

/// What to do with a finished URL.
#[derive(Clone, Debug, PartialEq, Eq)]
pub enum BrowserAction {
    /// Write it to standard output only.
    Print,
    /// Hand it to the given browser command.
    OpenWith(String),
    /// Hand it to the system's default browser.
    OpenDefault,
}

/// An empty browser option means printing; any other opens that browser; none
/// opens the default one.
pub fn browser_action(browser: Option<String>) -> (a: BrowserAction)
    ensures
        a == (match browser {
            Some(b) => if b@.len() == 0 {
                BrowserAction::Print
            } else {
                BrowserAction::OpenWith(b)
            },
            None => BrowserAction::OpenDefault,
        }),
{
    match browser {
        Some(b) => if b.as_str().is_empty() {
            BrowserAction::Print
        } else {
            BrowserAction::OpenWith(b)
        },
        None => BrowserAction::OpenDefault,
    }
}

} // verus!
