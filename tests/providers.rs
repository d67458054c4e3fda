use gitweb::provider::{
    provider_for, BITBUCKET_HOSTNAME, GITEA_HOSTNAME, GITHUB_HOSTNAME, GITLAB_HOSTNAME,
};
use gitweb::{get_merge_request_parts, GitProvider, Issue, MergeRequestParts, ViewKind};

#[test]
fn test_get_merge_request_parts_with_github() {
    let MergeRequestParts { path, tail } = get_merge_request_parts(GITHUB_HOSTNAME).unwrap();

    assert_eq!(path, "pulls");
    assert_eq!(tail, "");
}

#[test]
fn test_get_merge_request_parts_with_gitlab() {
    let MergeRequestParts { path, tail } = get_merge_request_parts(GITLAB_HOSTNAME).unwrap();

    assert_eq!(path, "-/merge_requests");
    assert_eq!(tail, "");
}

#[test]
fn test_get_merge_request_parts_with_bitbucket() {
    let MergeRequestParts { path, tail } = get_merge_request_parts(BITBUCKET_HOSTNAME).unwrap();

    assert_eq!(path, "pull-requests");
    assert_eq!(tail, "");
}

#[test]
fn test_get_merge_request_parts_with_gitea() {
    let MergeRequestParts { path, tail } = get_merge_request_parts(GITEA_HOSTNAME).unwrap();

    assert_eq!(path, "pulls");
    assert_eq!(tail, "");
}

#[test]
fn test_get_merge_request_parts_with_unknown_provider() {
    let result = get_merge_request_parts("host.xz");

    assert_eq!(result.err(), Some(Issue::UnknownProvider));
}

#[test]
fn providers_are_matched_by_exact_host() {
    assert_eq!(provider_for("github.com"), GitProvider::GitHub);
    assert_eq!(provider_for("gitlab.com"), GitProvider::GitLab);
    assert_eq!(provider_for("bitbucket.org"), GitProvider::Bitbucket);
    assert_eq!(provider_for("gitea.io"), GitProvider::Gitea);
    assert_eq!(provider_for("host.xz"), GitProvider::Unknown);
    assert_eq!(provider_for("www.github.com"), GitProvider::Unknown);
    assert_eq!(provider_for("GitHub.com"), GitProvider::Unknown);
}

#[test]
fn bitbucket_segments() {
    assert_eq!(GitProvider::Bitbucket.segment_for(ViewKind::BrowseCommit).unwrap(), "commits");
    assert_eq!(GitProvider::Bitbucket.segment_for(ViewKind::BrowseRef).unwrap(), "src");
}

#[test]
fn merge_request_segments() {
    assert_eq!(
        GitProvider::GitLab.segment_for(ViewKind::MergeRequests).unwrap(),
        "-/merge_requests"
    );
    assert_eq!(
        provider_for("host.xz").segment_for(ViewKind::MergeRequests).err(),
        Some(Issue::UnknownProvider)
    );
}

#[test]
fn segment_table_is_total_but_for_unknown_merge_requests() {
    let providers = [
        GitProvider::GitHub,
        GitProvider::GitLab,
        GitProvider::Bitbucket,
        GitProvider::Gitea,
        GitProvider::Unknown,
    ];
    let views = [ViewKind::BrowseRef, ViewKind::BrowseCommit, ViewKind::MergeRequests];
    for p in providers.iter() {
        for v in views.iter() {
            let first = p.segment_for(*v);
            let second = p.segment_for(*v);
            assert_eq!(first, second);
            let fails = *p == GitProvider::Unknown && *v == ViewKind::MergeRequests;
            assert_eq!(first.is_err(), fails);
        }
    }
    assert_eq!(GitProvider::Unknown.segment_for(ViewKind::BrowseRef).unwrap(), "tree");
    assert_eq!(GitProvider::Unknown.segment_for(ViewKind::BrowseCommit).unwrap(), "commit");
    assert_eq!(GitProvider::GitHub.segment_for(ViewKind::BrowseRef).unwrap(), "tree");
    assert_eq!(GitProvider::Gitea.segment_for(ViewKind::BrowseCommit).unwrap(), "commit");
    assert_eq!(GitProvider::Gitea.segment_for(ViewKind::MergeRequests).unwrap(), "pulls");
    assert_eq!(
        GitProvider::Bitbucket.segment_for(ViewKind::MergeRequests).unwrap(),
        "pull-requests"
    );
}

#[test]
fn hostnames_of_known_providers() {
    assert_eq!(GitProvider::GitHub.hostname(), Some("github.com".to_string()));
    assert_eq!(GitProvider::Bitbucket.hostname(), Some("bitbucket.org".to_string()));
    assert_eq!(GitProvider::Unknown.hostname(), None);
    assert_eq!(GitProvider::default(), GitProvider::GitHub);
}
