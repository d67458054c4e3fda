use vstd::prelude::*;

use crate::issue::Issue;

verus! {

pub const GITHUB_HOSTNAME: &'static str = "github.com";

pub const GITLAB_HOSTNAME: &'static str = "gitlab.com";

pub const BITBUCKET_HOSTNAME: &'static str = "bitbucket.org";

pub const GITEA_HOSTNAME: &'static str = "gitea.io";

/// A git hosting service, told apart by its host name alone.
#[derive(Clone, Copy, Debug, PartialEq, Eq, Structural)]
pub enum GitProvider {
    GitHub,
    GitLab,
    Bitbucket,
    Gitea,
    /// Any host outside the four above.
    Unknown,
}

/// Which page of a repository a URL shows.
#[derive(Clone, Copy, Debug, PartialEq, Eq, Structural)]
pub enum ViewKind {
    /// The tree at a branch or tag.
    BrowseRef,
    /// A single commit.
    BrowseCommit,
    /// The list of merge (pull) requests.
    MergeRequests,
}

/// The provider that serves `host`: an exact match on one of four host names.
pub open spec fn provider_of(host: Seq<char>) -> GitProvider {
    if host == GITHUB_HOSTNAME@ {
        GitProvider::GitHub
    } else if host == GITLAB_HOSTNAME@ {
        GitProvider::GitLab
    } else if host == BITBUCKET_HOSTNAME@ {
        GitProvider::Bitbucket
    } else if host == GITEA_HOSTNAME@ {
        GitProvider::Gitea
    } else {
        GitProvider::Unknown
    }
}

/// The path segment of each view on each provider; an unknown host has none
/// for merge requests.
pub open spec fn segment_spec(provider: GitProvider, view: ViewKind) -> Option<Seq<char>> {
    match view {
        ViewKind::BrowseRef => Some(
            if provider is Bitbucket {
                "src"@
            } else {
                "tree"@
            },
        ),
        ViewKind::BrowseCommit => Some(
            if provider is Bitbucket {
                "commits"@
            } else {
                "commit"@
            },
        ),
        ViewKind::MergeRequests => match provider {
            GitProvider::GitHub => Some("pulls"@),
            GitProvider::GitLab => Some("-/merge_requests"@),
            GitProvider::Bitbucket => Some("pull-requests"@),
            GitProvider::Gitea => Some("pulls"@),
            GitProvider::Unknown => None,
        },
    }
}

/// Browse and commit views have a segment on every provider; merge requests
/// have one everywhere but on an unknown host.
pub proof fn lemma_segment_total(provider: GitProvider, view: ViewKind)
    ensures
        segment_spec(provider, view) is None <==> (provider is Unknown && view is MergeRequests),
        !(view is MergeRequests) ==> segment_spec(provider, view) is Some,
{
}

pub fn provider_for(host: &str) -> (p: GitProvider)
    ensures
        p == provider_of(host@),
{
    let h = host.to_owned();
    if h == GITHUB_HOSTNAME.to_owned() {
        GitProvider::GitHub
    } else if h == GITLAB_HOSTNAME.to_owned() {
        GitProvider::GitLab
    } else if h == BITBUCKET_HOSTNAME.to_owned() {
        GitProvider::Bitbucket
    } else if h == GITEA_HOSTNAME.to_owned() {
        GitProvider::Gitea
    } else {
        GitProvider::Unknown
    }
}

impl Default for GitProvider {
    fn default() -> (p: GitProvider)
        ensures
            p is GitHub,
    {
        GitProvider::GitHub
    }
}

impl GitProvider {
    /// The host name of a known provider.
    pub open spec fn host_spec(self) -> Option<Seq<char>> {
        match self {
            GitProvider::GitHub => Some(GITHUB_HOSTNAME@),
            GitProvider::GitLab => Some(GITLAB_HOSTNAME@),
            GitProvider::Bitbucket => Some(BITBUCKET_HOSTNAME@),
            GitProvider::Gitea => Some(GITEA_HOSTNAME@),
            GitProvider::Unknown => None,
        }
    }

    pub fn hostname(&self) -> (r: Option<String>)
        ensures
            r is None <==> self.host_spec() is None,
            r matches Some(h) ==> self.host_spec() == Some(h@),
    {
        match self {
            GitProvider::GitHub => Some(GITHUB_HOSTNAME.to_owned()),
            GitProvider::GitLab => Some(GITLAB_HOSTNAME.to_owned()),
            GitProvider::Bitbucket => Some(BITBUCKET_HOSTNAME.to_owned()),
            GitProvider::Gitea => Some(GITEA_HOSTNAME.to_owned()),
            GitProvider::Unknown => None,
        }
    }

    /// The path segment for `view` on this provider.
    pub fn segment_for(&self, view: ViewKind) -> (r: Result<String, Issue>)
        ensures
            r is Err <==> segment_spec(*self, view) is None,
            r matches Ok(s) ==> segment_spec(*self, view) == Some(s@),
            r matches Err(e) ==> e == Issue::UnknownProvider,
    {
        let seg = match view {
            ViewKind::BrowseRef => match self {
                GitProvider::Bitbucket => "src",
                _ => "tree",
            },
            ViewKind::BrowseCommit => match self {
                GitProvider::Bitbucket => "commits",
                _ => "commit",
            },
            ViewKind::MergeRequests => match self {
                GitProvider::GitHub => "pulls",
                GitProvider::GitLab => "-/merge_requests",
                GitProvider::Bitbucket => "pull-requests",
                GitProvider::Gitea => "pulls",
                GitProvider::Unknown => {
                    return Err(Issue::UnknownProvider);
                },
            },
        };
        Ok(seg.to_owned())
    }
}

/// Where the merge requests of a repository are listed: a path segment and
/// the tail that follows it.
pub struct MergeRequestParts {
    pub path: String,
    pub tail: String,
}

/// The merge request listing for the provider that serves `domain`.
pub fn get_merge_request_parts(domain: &str) -> (r: Result<MergeRequestParts, Issue>)
    ensures
        r is Err <==> provider_of(domain@) is Unknown,
        r matches Err(e) ==> e == Issue::UnknownProvider,
        r matches Ok(parts) ==> segment_spec(provider_of(domain@), ViewKind::MergeRequests) == Some(
            parts.path@,
        ) && parts.tail@.len() == 0,
{
    let provider = provider_for(domain);
    let path = provider.segment_for(ViewKind::MergeRequests)?;
    Ok(MergeRequestParts { path, tail: String::new() })
}

} // verus!
