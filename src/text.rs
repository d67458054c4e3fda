use vstd::prelude::*;

verus! {

/// A set of characters that a scan runs over.
pub enum CharClass {
    /// Letters, digits, `+`, `-` and `.`: what a URI scheme is made of.
    Scheme,
    /// The ASCII digits.
    Digit,
    /// Every character but the given one.
    Except(char),
    /// Every character that can stand inside a host name: all but `:` and `/`.
    Host,
}

pub open spec fn is_scheme_char(c: char) -> bool {
    ('a' <= c && c <= 'z') || ('A' <= c && c <= 'Z') || ('0' <= c && c <= '9') || c == '+' || c
        == '-' || c == '.'
}

pub open spec fn is_digit(c: char) -> bool {
    '0' <= c && c <= '9'
}

pub open spec fn in_class(c: char, class: CharClass) -> bool {
    match class {
        CharClass::Scheme => is_scheme_char(c),
        CharClass::Digit => is_digit(c),
        CharClass::Except(x) => c != x,
        CharClass::Host => c != ':' && c != '/',
    }
}

/// Length of the longest prefix of `s` whose characters all lie in `class`;
/// with `Except(c)` it is the index of the first `c`, or the length of `s`.
pub open spec fn span(s: Seq<char>, class: CharClass) -> nat
    decreases s.len(),
{
    if s.len() > 0 && in_class(s[0], class) {
        1 + span(s.drop_first(), class)
    } else {
        0
    }
}

/// Index of the last `c` in `s`, or -1 when `s` holds none.
pub open spec fn rfind_char(s: Seq<char>, c: char) -> int
    decreases s.len(),
{
    if s.len() == 0 {
        -1
    } else if s.last() == c {
        s.len() - 1
    } else {
        rfind_char(s.drop_last(), c)
    }
}

/// `span` is the first position whose character leaves the class.
pub proof fn lemma_span_is(s: Seq<char>, class: CharClass, j: int)
    requires
        0 <= j <= s.len(),
        forall|k: int| 0 <= k < j ==> in_class(#[trigger] s[k], class),
        j == s.len() || !in_class(s[j], class),
    ensures
        span(s, class) == j,
    decreases j,
{
    if j > 0 {
        let t = s.drop_first();
        assert forall|k: int| 0 <= k < j - 1 implies in_class(#[trigger] t[k], class) by {
            assert(t[k] == s[k + 1]);
        }
        lemma_span_is(t, class, j - 1);
    }
}

/// `span` never runs past the end, and what it covers is in the class.
pub proof fn lemma_span_bounds(s: Seq<char>, class: CharClass)
    ensures
        span(s, class) <= s.len(),
        forall|k: int| 0 <= k < span(s, class) ==> in_class(#[trigger] s[k], class),
        span(s, class) == s.len() || !in_class(s[span(s, class) as int], class),
    decreases s.len(),
{
    if s.len() > 0 && in_class(s[0], class) {
        let t = s.drop_first();
        lemma_span_bounds(t, class);
        assert forall|k: int| 0 <= k < span(s, class) implies in_class(#[trigger] s[k], class) by {
            if k > 0 {
                assert(s[k] == t[k - 1]);
            }
        }
    }
}

/// `rfind_char` is the last position holding `c`.
pub proof fn lemma_rfind_is(s: Seq<char>, c: char, j: int)
    requires
        -1 <= j < s.len(),
        forall|k: int| j < k < s.len() ==> #[trigger] s[k] != c,
        j == -1 || s[j] == c,
    ensures
        rfind_char(s, c) == j,
    decreases s.len(),
{
    if s.len() > 0 && j < s.len() - 1 {
        let t = s.drop_last();
        assert forall|k: int| j < k < t.len() implies #[trigger] t[k] != c by {
            assert(t[k] == s[k]);
        }
        lemma_rfind_is(t, c, j);
    }
}

pub fn class_has(class: &CharClass, c: char) -> (r: bool)
    ensures
        r == in_class(c, *class),
{
    match class {
        CharClass::Scheme => ('a' <= c && c <= 'z') || ('A' <= c && c <= 'Z') || ('0' <= c && c
            <= '9') || c == '+' || c == '-' || c == '.',
        CharClass::Digit => '0' <= c && c <= '9',
        CharClass::Except(x) => c != *x,
        CharClass::Host => c != ':' && c != '/',
    }
}

/// End of the run of `class` characters that starts at `from` and stops at `to` at the latest.
pub fn span_end(v: &Vec<char>, from: usize, to: usize, class: &CharClass) -> (r: usize)
    requires
        from <= to <= v.len(),
    ensures
        r == from + span(v@.subrange(from as int, to as int), *class),
        from <= r <= to,
{
    let mut i: usize = from;
    while i < to && class_has(class, v[i])
        invariant
            from <= i <= to <= v.len(),
            forall|k: int| from <= k < i ==> in_class(#[trigger] v@[k], *class),
        decreases to - i,
    {
        i = i + 1;
    }
    let ghost s = v@.subrange(from as int, to as int);
    proof {
        assert forall|k: int| 0 <= k < i - from implies in_class(#[trigger] s[k], *class) by {
            assert(s[k] == v@[from + k]);
        }
        lemma_span_is(s, *class, i - from);
    }
    i
}

/// Position of the last `c` in `v[from..to]`, or `None` when that stretch holds none.
pub fn rfind_in(v: &Vec<char>, from: usize, to: usize, c: char) -> (r: Option<usize>)
    requires
        from <= to <= v.len(),
    ensures
        r matches Some(i) ==> from <= i < to && i - from == rfind_char(
            v@.subrange(from as int, to as int),
            c,
        ),
        r is None ==> rfind_char(v@.subrange(from as int, to as int), c) == -1,
{
    let ghost s = v@.subrange(from as int, to as int);
    let mut i: usize = to;
    while i > from && v[i - 1] != c
        invariant
            from <= i <= to <= v.len(),
            forall|k: int| i <= k < to ==> #[trigger] v@[k] != c,
        decreases i,
    {
        i = i - 1;
    }
    proof {
        assert forall|k: int| i - from <= k < s.len() implies #[trigger] s[k] != c by {
            assert(s[k] == v@[from + k]);
        }
    }
    if i == from {
        proof {
            lemma_rfind_is(s, c, -1);
        }
        None
    } else {
        proof {
            assert forall|k: int| i - 1 - from < k < s.len() implies #[trigger] s[k] != c by {
                assert(s[k] == v@[from + k]);
            }
            lemma_rfind_is(s, c, i - 1 - from);
        }
        Some(i - 1)
    }
}

/// The characters of `s`, one element each.
pub fn chars_of(s: &str) -> (v: Vec<char>)
    ensures
        v@ == s@,
{
    let n = s.unicode_len();
    let mut v: Vec<char> = Vec::new();
    let mut i: usize = 0;
    while i < n
        invariant
            i <= n,
            n == s@.len(),
            v@ == s@.subrange(0, i as int),
        decreases n - i,
    {
        v.push(s.get_char(i));
        i = i + 1;
    }
    v
}

} // verus!
