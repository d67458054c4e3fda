use vstd::prelude::*;

use crate::remote::{
    after_credentials, ends_with_git, has_scheme_marker, has_scp_marker, is_canonical_path,
    lemma_scheme_marker_pos_bounds, lemma_scheme_marker_pos_is, scheme_marker_at,
    scheme_marker_pos, scp_colon, uses_scheme,
    parse_remote, port_digits, starts_with_port, strip_prefixes, strip_suffixes,
};
use crate::text::{
    in_class, is_digit, is_scheme_char, lemma_rfind_is, lemma_span_bounds, lemma_span_is,
    rfind_char, span, CharClass,
};

verus! {

/// A host name as a URL carries it: not empty, and free of `:`, `/` and `@`.
pub open spec fn is_plain_host(h: Seq<char>) -> bool {
    h.len() > 0 && forall|k: int| 0 <= k < h.len() ==> #[trigger] h[k] != ':' && h[k] != '/' && h[k]
        != '@'
}

/// A user name as a URL carries it: free of `:`, `/` and `@`.
pub open spec fn is_plain_user(u: Seq<char>) -> bool {
    forall|k: int| 0 <= k < u.len() ==> #[trigger] u[k] != ':' && u[k] != '/' && u[k] != '@'
}

/// A URI scheme such as `ssh` or `https`.
pub open spec fn is_plain_scheme(s: Seq<char>) -> bool {
    s.len() > 0 && forall|k: int| 0 <= k < s.len() ==> is_scheme_char(#[trigger] s[k])
}

/// A port number of one to five digits.
pub open spec fn is_plain_port(p: Seq<char>) -> bool {
    1 <= p.len() <= 5 && forall|k: int| 0 <= k < p.len() ==> is_digit(#[trigger] p[k])
}

/// A repository path, optionally followed by `.git` and then by `/`.
pub open spec fn decorated(path: Seq<char>, git: bool, slash: bool) -> Seq<char> {
    path + (if git {
        seq!['.', 'g', 'i', 't']
    } else {
        Seq::empty()
    }) + (if slash {
        seq!['/']
    } else {
        Seq::empty()
    })
}

/// The SCP-like form `user@host:path`.
pub open spec fn scp_url(user: Seq<char>, host: Seq<char>, path: Seq<char>) -> Seq<char> {
    user + seq!['@'] + host + seq![':'] + path
}

/// `user@`, or nothing.
pub open spec fn user_part(user: Option<Seq<char>>) -> Seq<char> {
    match user {
        Some(u) => u + seq!['@'],
        None => Seq::empty(),
    }
}

/// `:port`, or nothing.
pub open spec fn port_part(port: Option<Seq<char>>) -> Seq<char> {
    match port {
        Some(p) => seq![':'] + p,
        None => Seq::empty(),
    }
}

/// The URI form `scheme://[user@]host[:port]/path`.
pub open spec fn uri_url(
    scheme: Seq<char>,
    user: Option<Seq<char>>,
    host: Seq<char>,
    port: Option<Seq<char>>,
    path: Seq<char>,
) -> Seq<char> {
    scheme + seq![':', '/', '/'] + user_part(user) + host + port_part(port) + seq!['/'] + path
}

proof fn lemma_strip_suffixes_decoration(x: Seq<char>, git: bool, slash: bool)
    ensures
        strip_suffixes(decorated(x, git, slash)) == strip_suffixes(x),
{
    let g = x + (if git {
        seq!['.', 'g', 'i', 't']
    } else {
        Seq::empty()
    });
    let d = decorated(x, git, slash);
    if slash {
        assert(d.len() > 0 && d.last() == '/');
        assert(d.drop_last() =~= g);
        assert(strip_suffixes(d) == strip_suffixes(g));
    } else {
        assert(d =~= g);
    }
    if git {
        assert(g.len() > 0 && g.last() == 't');
        assert(ends_with_git(g));
        assert(g.take(g.len() - 4) =~= x);
        assert(strip_suffixes(g) == strip_suffixes(x));
    } else {
        assert(g =~= x);
    }
}

proof fn lemma_strip_prefixes_canonical(p: Seq<char>)
    requires
        is_canonical_path(p),
    ensures
        strip_prefixes(p) == p,
{
}

/// `: path` loses its `:` and nothing else.
proof fn lemma_colon_path(path: Seq<char>)
    requires
        is_canonical_path(path),
        !starts_with_port(seq![':'] + path),
    ensures
        strip_prefixes(strip_suffixes(seq![':'] + path)) == path,
{
    let x = seq![':'] + path;
    if path.len() > 0 {
        assert(x.last() == path.last());
        if x.len() >= 4 && path.len() >= 4 {
            assert(x[x.len() - 4] == path[path.len() - 4]);
            assert(x[x.len() - 3] == path[path.len() - 3]);
            assert(x[x.len() - 2] == path[path.len() - 2]);
        }
        assert(!ends_with_git(x));
        assert(strip_suffixes(x) == x);
        assert(x.drop_first() =~= path);
    } else {
        assert(x =~= seq![':']);
        assert(x.drop_first() =~= path);
        lemma_span_is(x.drop_first(), CharClass::Digit, 0);
    }
    lemma_strip_prefixes_canonical(path);
}

/// A host followed by `:` or `/` splits right there.
proof fn lemma_host_split(host: Seq<char>, after: Seq<char>)
    requires
        is_plain_host(host),
        after.len() > 0,
        after[0] == ':' || after[0] == '/',
    ensures
        span(host + after, CharClass::Host) == host.len(),
        (host + after).take(host.len() as int) == host,
        (host + after).skip(host.len() as int) == after,
{
    let t = host + after;
    assert forall|k: int| 0 <= k < host.len() implies in_class(#[trigger] t[k], CharClass::Host) by {
        assert(t[k] == host[k]);
    }
    assert(t[host.len() as int] == after[0]);
    lemma_span_is(t, CharClass::Host, host.len() as int);
    assert(t.take(host.len() as int) =~= host);
    assert(t.skip(host.len() as int) =~= after);
}

/// Parsing a URL whose credentials end right before `host` then `after`.
proof fn lemma_parse_from_host(s: Seq<char>, host: Seq<char>, after: Seq<char>)
    requires
        has_scheme_marker(s) || has_scp_marker(s),
        after_credentials(s) == host + after,
        is_plain_host(host),
        after.len() > 0,
        after[0] == ':' || after[0] == '/',
    ensures
        parse_remote(s) == Some((host, strip_prefixes(strip_suffixes(after)))),
{
    lemma_host_split(host, after);
}

proof fn lemma_scp_shape(user: Seq<char>, host: Seq<char>, d: Seq<char>)
    requires
        is_plain_user(user),
        is_plain_host(host),
    ensures
        !uses_scheme(scp_url(user, host, d)),
        has_scp_marker(scp_url(user, host, d)),
        after_credentials(scp_url(user, host, d)) == host + (seq![':'] + d),
{
    let s = scp_url(user, host, d);
    let tail = host + (seq![':'] + d);
    assert(s =~= user + (seq!['@'] + tail));
    let u = user.len() as int;
    assert(s[u] == '@');
    assert forall|k: int| 0 <= k < u implies #[trigger] s[k] == user[k] by {}
    assert forall|k: int| 0 <= k < u implies in_class(#[trigger] s[k], CharClass::Except('@')) by {
        assert(s[k] == user[k]);
    }
    lemma_span_is(s, CharClass::Except('@'), u);
    assert(!uses_scheme(s)) by {
        lemma_scheme_marker_pos_bounds(s);
        let m = scheme_marker_pos(s) as int;
        if m < u {
            assert(scheme_marker_at(s, m));
            if m + 1 < u {
                assert(s[m + 1] == user[m + 1]);
            }
        }
    }
    assert(s.skip(u + 1) =~= tail);
    assert forall|k: int| 0 <= k < host.len() implies in_class(
        #[trigger] tail[k],
        CharClass::Except(':'),
    ) by {
        assert(tail[k] == host[k]);
    }
    assert(tail[host.len() as int] == ':');
    lemma_span_is(tail, CharClass::Except(':'), host.len() as int);
    let c = scp_colon(s);
    assert(c == u + 1 + host.len());
    let head = s.take(c);
    assert(head =~= user + seq!['@'] + host);
    assert forall|k: int| u < k < head.len() implies #[trigger] head[k] != '@' by {
        assert(head[k] == host[k - u - 1]);
    }
    lemma_rfind_is(head, '@', u);
}

/// An SCP-like URL parses to its host and to its path without decoration, as
/// long as the path's first segment is not one to five digits, which reads as a port.
pub proof fn lemma_scp_form(
    user: Seq<char>,
    host: Seq<char>,
    path: Seq<char>,
    git: bool,
    slash: bool,
)
    requires
        is_plain_user(user),
        is_plain_host(host),
        is_canonical_path(path),
        !starts_with_port(seq![':'] + path),
    ensures
        parse_remote(scp_url(user, host, decorated(path, git, slash))) == Some((host, path)),
{
    let d = decorated(path, git, slash);
    let s = scp_url(user, host, d);
    lemma_scp_shape(user, host, d);
    let after = seq![':'] + path;
    assert(seq![':'] + d =~= decorated(after, git, slash));
    lemma_parse_from_host(s, host, seq![':'] + d);
    lemma_strip_suffixes_decoration(after, git, slash);
    lemma_colon_path(path);
}

/// `/path`, `:port/path`: what follows the host in a URI loses all but the path.
proof fn lemma_after_host(port: Option<Seq<char>>, path: Seq<char>)
    requires
        is_canonical_path(path),
        port matches Some(p) ==> is_plain_port(p),
    ensures
        strip_prefixes(strip_suffixes(port_part(port) + seq!['/'] + path)) == path,
{
    let pp = port_part(port);
    let pre = pp + seq!['/'];
    let x = pre + path;
    if path.len() == 0 {
        assert(x =~= pre);
        assert(x.len() > 0 && x.last() == '/');
        assert(x.drop_last() =~= pp);
        assert(strip_suffixes(x) == strip_suffixes(pp));
        assert(strip_prefixes(path) == path);
        match port {
            Some(p) => {
                assert(pp.last() == p.last());
                assert(is_digit(p.last()));
                assert(!ends_with_git(pp));
                assert(strip_suffixes(pp) == pp);
                assert(pp.drop_first() =~= p);
                lemma_span_is(p, CharClass::Digit, p.len() as int);
                assert(starts_with_port(pp));
                assert(pp.skip(p.len() + 1int) =~= path);
                assert(strip_prefixes(pp) == strip_prefixes(path));
            },
            None => {
                assert(pp =~= path);
                assert(strip_suffixes(path) == path);
            },
        }
    } else {
        assert(x.last() == path.last());
        if path.len() >= 4 {
            assert(x[x.len() - 4] == path[path.len() - 4]);
            assert(x[x.len() - 3] == path[path.len() - 3]);
            assert(x[x.len() - 2] == path[path.len() - 2]);
        } else {
            assert(x[x.len() - 1 - path.len()] == '/');
            assert(!ends_with_git(x));
        }
        assert(strip_suffixes(x) == x);
        let y = seq!['/'] + path;
        assert(y.drop_first() =~= path);
        lemma_strip_prefixes_canonical(path);
        assert(strip_prefixes(y) == path);
        match port {
            Some(p) => {
                assert(x.drop_first() =~= p + y);
                assert forall|k: int| 0 <= k < p.len() implies in_class(
                    #[trigger] (p + y)[k],
                    CharClass::Digit,
                ) by {
                    assert((p + y)[k] == p[k]);
                }
                lemma_span_is(p + y, CharClass::Digit, p.len() as int);
                assert(port_digits(x) == p.len());
                assert(x[p.len() + 1int] == '/');
                assert(starts_with_port(x));
                assert(x.skip(p.len() + 1int) =~= y);
            },
            None => {
                assert(x =~= y);
            },
        }
    }
}

proof fn lemma_scheme_shape(scheme: Seq<char>, body: Seq<char>)
    requires
        is_plain_scheme(scheme),
    ensures
        has_scheme_marker(scheme + seq![':', '/', '/'] + body),
        uses_scheme(scheme + seq![':', '/', '/'] + body),
        after_credentials(scheme + seq![':', '/', '/'] + body) == ({
            let authority = body.take(span(body, CharClass::Except('/')) as int);
            body.skip(rfind_char(authority, '@') + 1)
        }),
{
    let s = scheme + seq![':', '/', '/'] + body;
    let m = scheme.len() as int;
    assert forall|k: int| 0 <= k < m implies #[trigger] s[k] == scheme[k] && is_scheme_char(
        s[k],
    ) by {}
    assert(s[m] == ':' && s[m + 1] == '/' && s[m + 2] == '/');
    assert forall|k: int| 0 <= k < m - 1 implies !#[trigger] scheme_marker_at(s, k) by {
        assert(s[k + 1] == scheme[k + 1]);
    }
    assert(scheme_marker_at(s, m - 1));
    lemma_scheme_marker_pos_is(s, m - 1);
    lemma_span_bounds(s, CharClass::Except('@'));
    let at = span(s, CharClass::Except('@')) as int;
    if at <= m - 1 {
        assert(!in_class(s[at], CharClass::Except('@')));
    }
    assert(s.skip(m + 3) =~= body);
}

/// In `[user@]host[:port]/rest`, the credentials end right before the host.
proof fn lemma_authority(
    user: Option<Seq<char>>,
    host: Seq<char>,
    port: Option<Seq<char>>,
    d: Seq<char>,
)
    requires
        user matches Some(u) ==> is_plain_user(u),
        is_plain_host(host),
        port matches Some(p) ==> is_plain_port(p),
    ensures
        ({
            let body = user_part(user) + host + port_part(port) + seq!['/'] + d;
            let authority = body.take(span(body, CharClass::Except('/')) as int);
            body.skip(rfind_char(authority, '@') + 1) == host + (port_part(port) + seq!['/'] + d)
        }),
{
    let up = user_part(user);
    let pp = port_part(port);
    let auth = up + host + pp;
    let body = up + host + pp + seq!['/'] + d;
    let a = auth.len() as int;
    let at = match user {
        Some(u) => u.len() as int,
        None => -1,
    };
    assert forall|k: int| 0 <= k < a implies #[trigger] auth[k] != '/' && (at < k ==> auth[k]
        != '@') by {
        if k < up.len() {
            assert(auth[k] == up[k]);
            if let Some(u) = user {
                if k < u.len() {
                    assert(up[k] == u[k]);
                }
            }
        } else if k < up.len() + host.len() {
            assert(auth[k] == host[k - up.len()]);
        } else {
            assert(auth[k] == pp[k - up.len() - host.len()]);
            if let Some(p) = port {
                if k > up.len() + host.len() {
                    assert(pp[k - up.len() - host.len()] == p[k - up.len() - host.len() - 1]);
                }
            }
        }
    }
    assert(body =~= auth + (seq!['/'] + d));
    assert forall|k: int| 0 <= k < a implies in_class(#[trigger] body[k], CharClass::Except('/')) by {
        assert(body[k] == auth[k]);
    }
    assert(body[a] == '/');
    lemma_span_is(body, CharClass::Except('/'), a);
    assert(body.take(a) =~= auth);
    if let Some(u) = user {
        assert(auth[u.len() as int] == '@');
    }
    lemma_rfind_is(auth, '@', at);
    assert(body.skip(up.len() as int) =~= host + (pp + seq!['/'] + d));
}

/// A URI-form URL has a scheme, and its credentials end right before the host.
proof fn lemma_uri_shape(
    scheme: Seq<char>,
    user: Option<Seq<char>>,
    host: Seq<char>,
    port: Option<Seq<char>>,
    d: Seq<char>,
)
    requires
        is_plain_scheme(scheme),
        user matches Some(u) ==> is_plain_user(u),
        is_plain_host(host),
        port matches Some(p) ==> is_plain_port(p),
    ensures
        has_scheme_marker(uri_url(scheme, user, host, port, d)),
        after_credentials(uri_url(scheme, user, host, port, d)) == host + (port_part(port)
            + seq!['/'] + d),
        (port_part(port) + seq!['/'] + d)[0] == ':' || (port_part(port) + seq!['/'] + d)[0]
            == '/',
{
    let pp = port_part(port);
    let body = user_part(user) + host + pp + seq!['/'] + d;
    assert(uri_url(scheme, user, host, port, d) =~= scheme + seq![':', '/', '/'] + body);
    lemma_scheme_shape(scheme, body);
    lemma_authority(user, host, port, d);
    let after = pp + seq!['/'] + d;
    if port is Some {
        assert(after[0] == pp[0]);
    } else {
        assert(after =~= seq!['/'] + d);
    }
}

/// A URI-form URL parses to its host and to its path without decoration, with
/// or without a user and a port.
pub proof fn lemma_uri_form(
    scheme: Seq<char>,
    user: Option<Seq<char>>,
    host: Seq<char>,
    port: Option<Seq<char>>,
    path: Seq<char>,
    git: bool,
    slash: bool,
)
    requires
        is_plain_scheme(scheme),
        user matches Some(u) ==> is_plain_user(u),
        is_plain_host(host),
        port matches Some(p) ==> is_plain_port(p),
        is_canonical_path(path),
    ensures
        parse_remote(uri_url(scheme, user, host, port, decorated(path, git, slash))) == Some(
            (host, path),
        ),
{
    let d = decorated(path, git, slash);
    let s = uri_url(scheme, user, host, port, d);
    lemma_uri_shape(scheme, user, host, port, d);
    let after = port_part(port) + seq!['/'] + d;
    let x = port_part(port) + seq!['/'] + path;
    assert(after =~= decorated(x, git, slash));
    lemma_parse_from_host(s, host, after);
    lemma_strip_suffixes_decoration(x, git, slash);
    lemma_after_host(port, path);
}

/// Every spelling of one repository's remote gives the same host and path:
/// SCP-like or URI, with or without a user or a port, with or without a
/// trailing `.git` or `/`. An SCP-like path whose first segment is one to five
/// digits is read as a port, so it is left out.
pub proof fn lemma_equivalent_forms(
    host: Seq<char>,
    path: Seq<char>,
    user: Seq<char>,
    scp_git: bool,
    scp_slash: bool,
    scheme: Seq<char>,
    uri_user: Option<Seq<char>>,
    port: Option<Seq<char>>,
    uri_git: bool,
    uri_slash: bool,
    other_scheme: Seq<char>,
    other_user: Option<Seq<char>>,
    other_port: Option<Seq<char>>,
    other_git: bool,
    other_slash: bool,
)
    requires
        is_plain_host(host),
        is_canonical_path(path),
        is_plain_user(user),
        is_plain_scheme(scheme),
        uri_user matches Some(u) ==> is_plain_user(u),
        port matches Some(p) ==> is_plain_port(p),
        is_plain_scheme(other_scheme),
        other_user matches Some(u) ==> is_plain_user(u),
        other_port matches Some(p) ==> is_plain_port(p),
    ensures
        parse_remote(uri_url(scheme, uri_user, host, port, decorated(path, uri_git, uri_slash)))
            == parse_remote(
            uri_url(
                other_scheme,
                other_user,
                host,
                other_port,
                decorated(path, other_git, other_slash),
            ),
        ),
        !starts_with_port(seq![':'] + path) ==> parse_remote(
            scp_url(user, host, decorated(path, scp_git, scp_slash)),
        ) == parse_remote(
            uri_url(scheme, uri_user, host, port, decorated(path, uri_git, uri_slash)),
        ),
        parse_remote(uri_url(scheme, uri_user, host, port, decorated(path, uri_git, uri_slash)))
            == Some((host, path)),
{
    lemma_uri_form(scheme, uri_user, host, port, path, uri_git, uri_slash);
    lemma_uri_form(other_scheme, other_user, host, other_port, path, other_git, other_slash);
    if !starts_with_port(seq![':'] + path) {
        lemma_scp_form(user, host, path, scp_git, scp_slash);
    }
}

} // verus!
