use gitweb::browse::DEFAULT_REMOTE_ORIGIN;
use gitweb::reference::branch_or_master;
use gitweb::{
    browse_url, browser_action, explicit_reference, generate_url, remote_name, resolve_reference,
    BrowserAction,
    Issue, Logger, ReferenceSpec,
};

fn s(text: &str) -> String {
    text.to_string()
}

#[test]
fn build_joins_the_parts() {
    let url = generate_url("github.com", &s("acme/widget"), &s("tree"), &s("main"));
    assert_eq!(url, "https://github.com/acme/widget/tree/main");
}

#[test]
fn build_is_repeatable() {
    let a = generate_url("gitlab.com", &s("g/r"), &s("-/merge_requests"), &s(""));
    let b = generate_url("gitlab.com", &s("g/r"), &s("-/merge_requests"), &s(""));
    assert_eq!(a, b);
    assert_eq!(a, "https://gitlab.com/g/r/-/merge_requests/");
}

#[test]
fn reference_priority() {
    let r = resolve_reference(Some(s("abc123")), Some(s("v1")), Some(s("dev")), s("main"));
    assert_eq!(r, ReferenceSpec::Commit(s("abc123")));
    let r = resolve_reference(None, Some(s("v1")), Some(s("dev")), s("main"));
    assert_eq!(r, ReferenceSpec::Tag(s("v1")));
    let r = resolve_reference(None, None, Some(s("dev")), s("main"));
    assert_eq!(r, ReferenceSpec::Branch(s("dev")));
    let r = resolve_reference(None, None, None, s("main"));
    assert_eq!(r, ReferenceSpec::Branch(s("main")));
}

#[test]
fn current_branch_falls_back_to_master() {
    assert_eq!(branch_or_master(Some(s("feature"))), "feature");
    assert_eq!(branch_or_master(None), "master");
}

#[test]
fn browse_a_branch() {
    let url = browse_url("git@github.com:acme/widget.git", &ReferenceSpec::Branch(s("main")), false);
    assert_eq!(url.unwrap(), "https://github.com/acme/widget/tree/main");
}

#[test]
fn browse_a_commit_on_bitbucket() {
    let url = browse_url(
        "https://bitbucket.org/team/repo.git",
        &ReferenceSpec::Commit(s("0badc0de")),
        false,
    );
    assert_eq!(url.unwrap(), "https://bitbucket.org/team/repo/commits/0badc0de");
}

#[test]
fn browse_a_tag_on_bitbucket() {
    let url = browse_url("git@bitbucket.org:team/repo.git", &ReferenceSpec::Tag(s("v2")), false);
    assert_eq!(url.unwrap(), "https://bitbucket.org/team/repo/src/v2");
}

#[test]
fn browse_merge_requests_on_gitlab() {
    let url = browse_url(
        "ssh://git@gitlab.com/grp/sub/widget.git",
        &ReferenceSpec::Branch(s("main")),
        true,
    );
    assert_eq!(url.unwrap(), "https://gitlab.com/grp/sub/widget/-/merge_requests/");
}

#[test]
fn unknown_host_browses_like_github() {
    let url = browse_url("ssh://user@host.xz:22/path/to/repo.git/", &ReferenceSpec::Commit(s("f00")), false);
    assert_eq!(url.unwrap(), "https://host.xz/path/to/repo/commit/f00");
}

#[test]
fn unknown_host_has_no_merge_requests() {
    let url = browse_url("https://host.xz/path/to/repo", &ReferenceSpec::Branch(s("main")), true);
    assert_eq!(url.err(), Some(Issue::UnknownProvider));
}

#[test]
fn unparseable_remote_stops_the_pipeline() {
    let url = browse_url("nothing here", &ReferenceSpec::Branch(s("main")), false);
    assert_eq!(url.err(), Some(Issue::UnableToGetRemoteParts));
}

#[test]
fn remote_defaults_to_origin() {
    assert_eq!(remote_name(None), DEFAULT_REMOTE_ORIGIN);
    assert_eq!(remote_name(None), "origin");
    assert_eq!(remote_name(Some(s("upstream"))), "upstream");
}

#[test]
fn browser_choice() {
    assert_eq!(browser_action(Some(s(""))), BrowserAction::Print);
    assert_eq!(browser_action(Some(s("firefox"))), BrowserAction::OpenWith(s("firefox")));
    assert_eq!(browser_action(None), BrowserAction::OpenDefault);
}

#[test]
fn exit_codes() {
    assert_eq!(Issue::NotInAGitRepository.exit_code(), 1);
    assert_eq!(Issue::NoRemoteMatching(s("origin")).exit_code(), 2);
    assert_eq!(Issue::NoRemoteAvailable.exit_code(), 3);
    assert_eq!(Issue::NotAbleToOpenSystemBrowser.exit_code(), 4);
    assert_eq!(Issue::BrowserNotAvailable(s("lynx")).exit_code(), 5);
    assert_eq!(Issue::UnableToGetRemoteParts.exit_code(), 6);
    assert_eq!(Issue::UnknownProvider.exit_code(), 7);
}

#[test]
fn logger_lines() {
    let quiet = Logger::new(false);
    assert_eq!(quiet.verbose_line("hello"), None);
    let loud = Logger::new(true);
    assert_eq!(loud.verbose_line("hello"), Some(s("gitweb: hello")));
}

#[test]
fn explicit_reference_priority() {
    assert_eq!(
        explicit_reference(Some(s("abc")), Some(s("v1")), None),
        Some(ReferenceSpec::Commit(s("abc")))
    );
    assert_eq!(explicit_reference(None, Some(s("v1")), Some(s("dev"))), Some(ReferenceSpec::Tag(s("v1"))));
    assert_eq!(explicit_reference(None, None, Some(s("dev"))), Some(ReferenceSpec::Branch(s("dev"))));
    assert_eq!(explicit_reference(None, None, None), None);
}
