use vstd::prelude::*;

use crate::issue::Issue;
use crate::provider::GITHUB_HOSTNAME;
use crate::text::{
    chars_of, class_has, in_class, is_scheme_char, lemma_span_bounds, rfind_char, rfind_in,
    span, span_end, CharClass,
};

verus! {

/// Where a remote lives: its host, and the repository's path on that host.
pub struct RemoteParts {
    pub domain: String,
    pub repository: String,
}

/// A scheme marker starts at `k`: a scheme character, then `://`.
pub open spec fn scheme_marker_at(s: Seq<char>, k: int) -> bool {
    0 <= k && k + 4 <= s.len() && is_scheme_char(s[k]) && s[k + 1] == ':' && s[k + 2] == '/'
        && s[k + 3] == '/'
}

/// Index of the first scheme marker in `s`, or its length when there is none.
pub open spec fn scheme_marker_pos(s: Seq<char>) -> nat
    decreases s.len(),
{
    if s.len() == 0 || scheme_marker_at(s, 0) {
        0
    } else {
        1 + scheme_marker_pos(s.drop_first())
    }
}

/// `s` holds a `scheme://` marker somewhere.
pub open spec fn has_scheme_marker(s: Seq<char>) -> bool {
    scheme_marker_pos(s) < s.len()
}

/// `s` is read as a URI: it holds a scheme marker, and no `@` comes before it.
pub open spec fn uses_scheme(s: Seq<char>) -> bool {
    has_scheme_marker(s) && scheme_marker_pos(s) < span(s, CharClass::Except('@'))
}

/// `s` has the SCP-like `user@host:` shape: an `@`, and a `:` somewhere after the first one.
pub open spec fn has_scp_marker(s: Seq<char>) -> bool {
    let at = span(s, CharClass::Except('@')) as int;
    at < s.len() && span(s.skip(at + 1), CharClass::Except(':')) < s.len() - at - 1
}

/// Index of the first `:` after the first `@` of `s`: where an SCP-like host ends.
pub open spec fn scp_colon(s: Seq<char>) -> int {
    let at = span(s, CharClass::Except('@')) as int;
    at + 1 + span(s.skip(at + 1), CharClass::Except(':'))
}

/// What follows the scheme and the credentials: the host, then anything after it.
/// Credentials end at the last `@` before the host.
pub open spec fn after_credentials(s: Seq<char>) -> Seq<char> {
    if uses_scheme(s) {
        let body = s.skip(scheme_marker_pos(s) + 4int);
        let authority = body.take(span(body, CharClass::Except('/')) as int);
        body.skip(rfind_char(authority, '@') + 1)
    } else {
        s.skip(rfind_char(s.take(scp_colon(s)), '@') + 1)
    }
}

/// `scheme_marker_pos` is the first position where a marker starts.
pub proof fn lemma_scheme_marker_pos_is(s: Seq<char>, j: int)
    requires
        0 <= j <= s.len(),
        forall|k: int| 0 <= k < j ==> !#[trigger] scheme_marker_at(s, k),
        j == s.len() || scheme_marker_at(s, j),
    ensures
        scheme_marker_pos(s) == j,
    decreases j,
{
    if j > 0 {
        let t = s.drop_first();
        assert(!scheme_marker_at(s, 0));
        assert forall|k: int| 0 <= k < j - 1 implies !#[trigger] scheme_marker_at(t, k) by {
            assert(!scheme_marker_at(s, k + 1));
            if k + 4 <= t.len() {
                assert(t[k] == s[k + 1] && t[k + 1] == s[k + 2] && t[k + 2] == s[k + 3] && t[k
                    + 3] == s[k + 4]);
            }
        }
        if j < s.len() {
            assert(t[j - 1] == s[j] && t[j] == s[j + 1] && t[j + 1] == s[j + 2] && t[j + 2] == s[j
                + 3]);
        }
        lemma_scheme_marker_pos_is(t, j - 1);
    }
}

/// No marker starts before `scheme_marker_pos`, and one starts there unless it is the end.
pub proof fn lemma_scheme_marker_pos_bounds(s: Seq<char>)
    ensures
        scheme_marker_pos(s) <= s.len(),
        forall|k: int| 0 <= k < scheme_marker_pos(s) ==> !#[trigger] scheme_marker_at(s, k),
        scheme_marker_pos(s) == s.len() || scheme_marker_at(s, scheme_marker_pos(s) as int),
    decreases s.len(),
{
    if !(s.len() == 0 || scheme_marker_at(s, 0)) {
        let t = s.drop_first();
        lemma_scheme_marker_pos_bounds(t);
        let m = scheme_marker_pos(t) as int;
        assert forall|k: int| 0 <= k < scheme_marker_pos(s) implies !#[trigger] scheme_marker_at(
            s,
            k,
        ) by {
            if k > 0 {
                assert(!scheme_marker_at(t, k - 1));
                if k + 4 <= s.len() {
                    assert(t[k - 1] == s[k] && t[k] == s[k + 1] && t[k + 1] == s[k + 2] && t[k
                        + 2] == s[k + 3]);
                }
            }
        }
        if m < t.len() {
            assert(t[m] == s[m + 1] && t[m + 1] == s[m + 2] && t[m + 2] == s[m + 3] && t[m + 3]
                == s[m + 4]);
        }
    }
}

/// A scheme marker that is not read as a URI has an `@` before it, and so the
/// URL has the SCP-like shape: a marker of either kind lets parsing through.
pub proof fn lemma_marker_parses(s: Seq<char>)
    ensures
        has_scheme_marker(s) ==> uses_scheme(s) || has_scp_marker(s),
{
    if has_scheme_marker(s) && !uses_scheme(s) {
        lemma_scheme_marker_pos_bounds(s);
        lemma_span_bounds(s, CharClass::Except('@'));
        let m = scheme_marker_pos(s) as int;
        let at = span(s, CharClass::Except('@')) as int;
        assert(at != m);
        let t = s.skip(at + 1);
        lemma_span_bounds(t, CharClass::Except(':'));
        assert(t[m - at] == ':');
        if span(t, CharClass::Except(':')) >= t.len() {
            assert(in_class(t[m - at], CharClass::Except(':')));
        }
    }
}

pub open spec fn ends_with_git(p: Seq<char>) -> bool {
    let n = p.len() as int;
    n >= 4 && p[n - 4] == '.' && p[n - 3] == 'g' && p[n - 2] == 'i' && p[n - 1] == 't'
}

/// Drops trailing `/` and `.git` until neither is left.
pub open spec fn strip_suffixes(p: Seq<char>) -> Seq<char>
    decreases p.len(),
{
    if p.len() > 0 && p.last() == '/' {
        strip_suffixes(p.drop_last())
    } else if ends_with_git(p) {
        strip_suffixes(p.take(p.len() - 4))
    } else {
        p
    }
}

/// Number of digits in a stray port marker that opens `p`.
pub open spec fn port_digits(p: Seq<char>) -> nat {
    span(p.drop_first(), CharClass::Digit)
}

/// `p` opens with a stray port marker: a `:`, one to five digits, then `/` or the end.
pub open spec fn starts_with_port(p: Seq<char>) -> bool {
    let d = port_digits(p) as int;
    p.len() > 0 && p[0] == ':' && 1 <= d <= 5 && d + 1 <= p.len() && (d + 1 == p.len() || p[d
        + 1] == '/')
}

/// Drops leading port markers, `/` and `:` until none is left.
pub open spec fn strip_prefixes(p: Seq<char>) -> Seq<char>
    decreases p.len(),
{
    if starts_with_port(p) {
        strip_prefixes(p.skip(port_digits(p) + 1int))
    } else if p.len() > 0 && (p[0] == '/' || p[0] == ':') {
        strip_prefixes(p.drop_first())
    } else {
        p
    }
}

/// The host and repository path that a remote URL names, or `None` when the URL
/// holds neither a `scheme://` marker nor a `user@host:` one.
pub open spec fn parse_remote(s: Seq<char>) -> Option<(Seq<char>, Seq<char>)> {
    if has_scheme_marker(s) || has_scp_marker(s) {
        let rest = after_credentials(s);
        let h = span(rest, CharClass::Host) as int;
        let host = rest.take(h);
        Some(
            (
                if host.len() == 0 {
                    GITHUB_HOSTNAME@
                } else {
                    host
                },
                strip_prefixes(strip_suffixes(rest.skip(h))),
            ),
        )
    } else {
        None
    }
}

/// A repository path as parsing leaves it: no leading `/` or `:`, no trailing
/// `/`, no trailing `.git`.
pub open spec fn is_canonical_path(p: Seq<char>) -> bool {
    &&& !(p.len() > 0 && (p[0] == '/' || p[0] == ':'))
    &&& !(p.len() > 0 && p.last() == '/')
    &&& !ends_with_git(p)
}

proof fn lemma_strip_suffixes_clean(p: Seq<char>)
    ensures
        strip_suffixes(p).len() <= p.len(),
        strip_suffixes(p) == p.take(strip_suffixes(p).len() as int),
        !(strip_suffixes(p).len() > 0 && strip_suffixes(p).last() == '/'),
        !ends_with_git(strip_suffixes(p)),
    decreases p.len(),
{
    if p.len() > 0 && p.last() == '/' {
        lemma_strip_suffixes_clean(p.drop_last());
        let r = strip_suffixes(p);
        assert(p.drop_last().take(r.len() as int) =~= p.take(r.len() as int));
    } else if ends_with_git(p) {
        let q = p.take(p.len() - 4);
        lemma_strip_suffixes_clean(q);
        let r = strip_suffixes(p);
        assert(q.take(r.len() as int) =~= p.take(r.len() as int));
    } else {
        assert(p.take(p.len() as int) =~= p);
    }
}

proof fn lemma_strip_prefixes_clean(p: Seq<char>)
    ensures
        strip_prefixes(p).len() <= p.len(),
        strip_prefixes(p) == p.skip(p.len() - strip_prefixes(p).len()),
        !(strip_prefixes(p).len() > 0 && (strip_prefixes(p)[0] == '/' || strip_prefixes(p)[0]
            == ':')),
    decreases p.len(),
{
    let r = strip_prefixes(p);
    if starts_with_port(p) {
        let q = p.skip(port_digits(p) + 1int);
        lemma_strip_prefixes_clean(q);
        assert(q.skip(q.len() - r.len()) =~= p.skip(p.len() - r.len()));
    } else if p.len() > 0 && (p[0] == '/' || p[0] == ':') {
        let q = p.drop_first();
        lemma_strip_prefixes_clean(q);
        assert(q.skip(q.len() - r.len()) =~= p.skip(p.len() - r.len()));
    } else {
        assert(p.skip(0) =~= p);
    }
}

/// The path that parsing yields is canonical, and the host is never empty.
pub proof fn lemma_parse_canonical(s: Seq<char>)
    ensures
        parse_remote(s) matches Some((host, path)) ==> host.len() > 0 && is_canonical_path(path),
{
    reveal_strlit("github.com");
    if has_scheme_marker(s) || has_scp_marker(s) {
        let rest = after_credentials(s);
        let h = span(rest, CharClass::Host) as int;
        let t = strip_suffixes(rest.skip(h));
        let r = strip_prefixes(t);
        lemma_strip_suffixes_clean(rest.skip(h));
        lemma_strip_prefixes_clean(t);
        if r.len() > 0 {
            assert(r.last() == t.last());
            if r.len() >= 4 {
                assert(r[r.len() - 4] == t[t.len() - 4]);
                assert(r[r.len() - 3] == t[t.len() - 3]);
                assert(r[r.len() - 2] == t[t.len() - 2]);
            }
        }
    }
}

/// A parsed repository path never opens with a stray port marker such as `:22`.
pub proof fn lemma_no_leading_port(s: Seq<char>)
    ensures
        parse_remote(s) matches Some((_, path)) ==> !starts_with_port(path),
{
    lemma_parse_canonical(s);
}

/// End of `v[b..e]` once trailing `/` and `.git` are dropped.
fn strip_suffixes_end(v: &Vec<char>, b: usize, e: usize) -> (r: usize)
    requires
        b <= e <= v.len(),
    ensures
        b <= r <= e,
        v@.subrange(b as int, r as int) == strip_suffixes(v@.subrange(b as int, e as int)),
{
    let mut i: usize = e;
    while i > b && (v[i - 1] == '/' || (i - b >= 4 && v[i - 4] == '.' && v[i - 3] == 'g' && v[i
        - 2] == 'i' && v[i - 1] == 't'))
        invariant
            b <= i <= e <= v.len(),
            strip_suffixes(v@.subrange(b as int, i as int)) == strip_suffixes(
                v@.subrange(b as int, e as int),
            ),
        decreases i,
    {
        let ghost p = v@.subrange(b as int, i as int);
        if v[i - 1] == '/' {
            assert(p.drop_last() =~= v@.subrange(b as int, i - 1));
            i = i - 1;
        } else {
            assert(p.take(p.len() - 4) =~= v@.subrange(b as int, i - 4));
            i = i - 4;
        }
    }
    i
}

/// Start of `v[b..e]` once leading port markers, `/` and `:` are dropped.
fn strip_prefixes_start(v: &Vec<char>, b: usize, e: usize) -> (r: usize)
    requires
        b <= e <= v.len(),
    ensures
        b <= r <= e,
        v@.subrange(r as int, e as int) == strip_prefixes(v@.subrange(b as int, e as int)),
{
    let mut i: usize = b;
    let mut done = false;
    while !done
        invariant
            b <= i <= e <= v.len(),
            strip_prefixes(v@.subrange(i as int, e as int)) == strip_prefixes(
                v@.subrange(b as int, e as int),
            ),
            done ==> strip_prefixes(v@.subrange(i as int, e as int)) == v@.subrange(
                i as int,
                e as int,
            ),
        decreases e - i + (if done { 0int } else { 1int }),
    {
        let ghost p = v@.subrange(i as int, e as int);
        if i < e && (v[i] == ':' || v[i] == '/') {
            let mut next = i + 1;
            if v[i] == ':' {
                let d_end = span_end(v, i + 1, e, &CharClass::Digit);
                assert(p.drop_first() =~= v@.subrange(i + 1, e as int));
                let d = d_end - (i + 1);
                if 1 <= d && d <= 5 && (d_end == e || v[d_end] == '/') {
                    assert(starts_with_port(p));
                    assert(p.skip(port_digits(p) + 1int) =~= v@.subrange(d_end as int, e as int));
                    next = d_end;
                } else {
                    assert(!starts_with_port(p));
                }
            }
            if next == i + 1 {
                assert(p.drop_first() =~= v@.subrange(i + 1, e as int));
            }
            i = next;
        } else {
            done = true;
        }
    }
    i
}

/// Index of the first scheme marker in `v`, or its length.
fn scheme_marker_in(v: &Vec<char>) -> (r: usize)
    ensures
        r == scheme_marker_pos(v@),
{
    let n = v.len();
    let mut i: usize = 0;
    while i < n && !(n - i >= 4 && class_has(&CharClass::Scheme, v[i]) && v[i + 1] == ':' && v[i
        + 2] == '/' && v[i + 3] == '/')
        invariant
            i <= n == v.len(),
            forall|k: int| 0 <= k < i ==> !#[trigger] scheme_marker_at(v@, k),
        decreases n - i,
    {
        i = i + 1;
    }
    proof {
        lemma_scheme_marker_pos_is(v@, i as int);
    }
    i
}

/// Where the host starts in a remote URL, past its scheme and credentials, or
/// `None` when the URL holds no marker of either kind.
fn credentials_end(v: &Vec<char>) -> (r: Option<usize>)
    ensures
        r is None <==> !has_scheme_marker(v@) && !has_scp_marker(v@),
        r matches Some(i) ==> i <= v.len() && after_credentials(v@) == v@.subrange(
            i as int,
            v.len() as int,
        ),
{
    let n = v.len();
    let ghost s = v@;
    assert(s.subrange(0, n as int) =~= s);
    let m = scheme_marker_in(v);
    let at = span_end(v, 0, n, &CharClass::Except('@'));
    let start: usize;
    proof {
        lemma_scheme_marker_pos_bounds(s);
    }
    if m < n && m < at {
        let b = m + 4;
        let ae = span_end(v, b, n, &CharClass::Except('/'));
        let ghost body = s.skip(b as int);
        assert(body =~= s.subrange(b as int, n as int));
        assert(body.take(ae - b) =~= s.subrange(b as int, ae as int));
        start = match rfind_in(v, b, ae, '@') {
            Some(i) => i + 1,
            None => b,
        };
        assert(body.skip(start - b) =~= s.subrange(start as int, n as int));
    } else {
        proof {
            lemma_marker_parses(s);
        }
        if at == n {
            return None;
        }
        let colon = span_end(v, at + 1, n, &CharClass::Except(':'));
        assert(s.skip(at + 1) =~= s.subrange(at + 1, n as int));
        if colon == n {
            return None;
        }
        assert(s.take(colon as int) =~= s.subrange(0, colon as int));
        start = match rfind_in(v, 0, colon, '@') {
            Some(i) => i + 1,
            None => 0,
        };
        assert(s.skip(start as int) =~= s.subrange(start as int, n as int));
    }
    Some(start)
}

/// Splits a git remote URL into its host and repository path.
pub fn get_remote_parts(url: &str) -> (res: Result<RemoteParts, Issue>)
    ensures
        res is Err <==> parse_remote(url@) is None,
        res is Err <==> !has_scheme_marker(url@) && !has_scp_marker(url@),
        res matches Err(e) ==> e == Issue::UnableToGetRemoteParts,
        res matches Ok(p) ==> parse_remote(url@) == Some((p.domain@, p.repository@)),
        res matches Ok(p) ==> p.domain@.len() > 0 && is_canonical_path(p.repository@),
{
    proof {
        lemma_parse_canonical(url@);
    }
    let v = chars_of(url);
    let n = v.len();
    let ghost s = v@;
    let start = match credentials_end(&v) {
        Some(i) => i,
        None => {
            return Err(Issue::UnableToGetRemoteParts);
        },
    };
    let ghost rest = s.subrange(start as int, n as int);
    assert(after_credentials(s) == rest);
    let he = span_end(&v, start, n, &CharClass::Host);
    let te = strip_suffixes_end(&v, he, n);
    let ps = strip_prefixes_start(&v, he, te);
    assert(rest.take(he - start) =~= s.subrange(start as int, he as int));
    assert(rest.skip(he - start) =~= s.subrange(he as int, n as int));
    let domain = if he == start {
        GITHUB_HOSTNAME.to_owned()
    } else {
        url.substring_char(start, he).to_owned()
    };
    let repository = url.substring_char(ps, te).to_owned();
    Ok(RemoteParts { domain, repository })
}

} // verus!
