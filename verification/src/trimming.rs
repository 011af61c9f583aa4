//! Removing leading and trailing characters of a kind from text.

use vstd::prelude::*;
use crate::text::{chars_of, string_of_chars, vec_skip, vec_take};
use crate::url_input::{char_is_whitespace, is_unicode_whitespace};

verus! {

/// `t` is `s` without the leading and trailing characters that satisfy `p`.
pub open spec fn is_trimmed(t: Seq<char>, s: Seq<char>, p: spec_fn(char) -> bool) -> bool {
    exists|a: int, b: int| #![trigger s.subrange(a, b)] trim_bounds(s, p, a, b) && t == s.subrange(a, b)
}

/// `s[a..b]` is what remains of `s` once the characters satisfying `p` are taken off both ends.
pub open spec fn trim_bounds(s: Seq<char>, p: spec_fn(char) -> bool, a: int, b: int) -> bool {
    &&& 0 <= a <= b <= s.len()
    &&& forall|i: int| 0 <= i < a ==> p(s[i])
    &&& forall|i: int| b <= i < s.len() ==> p(s[i])
    &&& a < b ==> !p(s[a]) && !p(s[b - 1])
}

/// `t` is `s` without its leading and trailing whitespace (`str::trim`).
pub open spec fn is_trim_of(t: Seq<char>, s: Seq<char>) -> bool {
    is_trimmed(t, s, |c: char| is_unicode_whitespace(c))
}

/// Whether `c` is a single or double quote.
pub open spec fn is_quote(c: char) -> bool {
    c == '\'' || c == '"'
}

/// `t` is `s` without its leading and trailing quotes.
pub open spec fn is_unquoted(t: Seq<char>, s: Seq<char>) -> bool {
    is_trimmed(t, s, |c: char| is_quote(c))
}

/// Text has one trimmed form for a given kind of character.
pub proof fn lemma_trimmed_unique(t: Seq<char>, s: Seq<char>, p: spec_fn(char) -> bool)
    requires
        is_trimmed(t, s, p),
    ensures
        forall|u: Seq<char>| is_trimmed(u, s, p) ==> u == t,
{
    let (a, b) = choose|a: int, b: int| trim_bounds(s, p, a, b) && t == s.subrange(a, b);
    assert forall|u: Seq<char>| is_trimmed(u, s, p) implies u == t by {
        let (c, d) = choose|c: int, d: int| trim_bounds(s, p, c, d) && u == s.subrange(c, d);
        if a < b && c < d {
            assert(a == c);
            assert(b == d);
        } else if a < b {
            assert(!p(s[a]));
        } else if c < d {
            assert(!p(s[c]));
        }
        assert(u =~= t);
    }
}

/// Text has one form without leading and trailing whitespace.
pub proof fn lemma_trim_unique(t: Seq<char>, s: Seq<char>)
    requires
        is_trim_of(t, s),
    ensures
        forall|u: Seq<char>| is_trim_of(u, s) ==> u == t,
{
    lemma_trimmed_unique(t, s, |c: char| is_unicode_whitespace(c));
}

/// The characters `v[a..b]` as a string, for bounds that trim `v` by `p`.
fn trimmed_string(v: &Vec<char>, a: usize, b: usize, p: Ghost<spec_fn(char) -> bool>) -> (r: String)
    requires
        trim_bounds(v@, p@, a as int, b as int),
    ensures
        is_trimmed(r@, v@, p@),
{
    let tail = vec_take(v, b);
    let mid = vec_skip(&tail, a);
    let r = string_of_chars(&mid);
    assert(r@ =~= v@.subrange(a as int, b as int));
    r
}

/// `s` without its leading and trailing whitespace (`str::trim`).
pub fn trim(s: &str) -> (r: String)
    ensures
        is_trim_of(r@, s@),
{
    let ghost p = |c: char| is_unicode_whitespace(c);
    let v = chars_of(s);
    let mut a: usize = 0;
    while a < v.len() && char_is_whitespace(v[a])
        invariant
            v@ == s@,
            p == (|c: char| is_unicode_whitespace(c)),
            a <= v.len(),
            forall|i: int| 0 <= i < a ==> p(s@[i]),
        decreases v.len() - a,
    {
        a = a + 1;
    }
    let mut b: usize = v.len();
    while b > a && char_is_whitespace(v[b - 1])
        invariant
            v@ == s@,
            p == (|c: char| is_unicode_whitespace(c)),
            a <= b <= v.len(),
            a < v.len() ==> !p(s@[a as int]),
            forall|i: int| b <= i < s@.len() ==> p(s@[i]),
        decreases b - a,
    {
        b = b - 1;
    }
    trimmed_string(&v, a, b, Ghost(p))
}

/// `s` without its leading and trailing single and double quotes (`str::trim_matches`).
pub fn trim_quotes(s: &str) -> (r: String)
    ensures
        is_unquoted(r@, s@),
{
    let ghost p = |c: char| is_quote(c);
    let v = chars_of(s);
    let mut a: usize = 0;
    while a < v.len() && (v[a] == '\'' || v[a] == '"')
        invariant
            v@ == s@,
            p == (|c: char| is_quote(c)),
            a <= v.len(),
            forall|i: int| 0 <= i < a ==> p(s@[i]),
        decreases v.len() - a,
    {
        a = a + 1;
    }
    let mut b: usize = v.len();
    while b > a && (v[b - 1] == '\'' || v[b - 1] == '"')
        invariant
            v@ == s@,
            p == (|c: char| is_quote(c)),
            a <= b <= v.len(),
            a < v.len() ==> !p(s@[a as int]),
            forall|i: int| b <= i < s@.len() ==> p(s@[i]),
        decreases b - a,
    {
        b = b - 1;
    }
    trimmed_string(&v, a, b, Ghost(p))
}

} // verus!
