//! Reading the CSS colors that pages report for the browser chrome: which notation a color
//! is written in, and the channels of hexadecimal colors.

use vstd::prelude::*;
use crate::text::{chars_of, string_of_chars, vec_skip, vec_take, seq_starts_with, seq_ends_with,
    vec_starts_with};
use crate::trimming::{is_trim_of, trim, lemma_trim_unique};

verus! {

/// The notations of CSS colors that pages report.
#[derive(Clone, Copy, Debug, PartialEq, Eq, Structural)]
pub enum CssColorNotation {
    /// `#` followed by hexadecimal digits.
    Hex,
    /// `rgb(...)`.
    Rgb,
    /// `rgba(...)`.
    Rgba,
    /// `oklab(...)`.
    Oklab,
    /// `oklch(...)`.
    Oklch,
}

/// What lies between `name(` and the final `)` of `v`, when `v` is written that way.
pub open spec fn function_body(v: Seq<char>, opening: Seq<char>) -> Option<Seq<char>> {
    if seq_starts_with(v, opening) && seq_ends_with(v.skip(opening.len() as int), seq![')']) {
        Some(v.subrange(opening.len() as int, v.len() - 1))
    } else {
        None
    }
}

/// The notation of an already trimmed color and the text it wraps: the digits after `#`,
/// or the arguments inside the parentheses.
pub open spec fn spec_classify(v: Seq<char>) -> Option<(CssColorNotation, Seq<char>)> {
    if seq_starts_with(v, seq!['#']) {
        Some((CssColorNotation::Hex, v.skip(1)))
    } else if function_body(v, "rgb("@) is Some {
        Some((CssColorNotation::Rgb, function_body(v, "rgb("@)->0))
    } else if function_body(v, "rgba("@) is Some {
        Some((CssColorNotation::Rgba, function_body(v, "rgba("@)->0))
    } else if function_body(v, "oklab("@) is Some {
        Some((CssColorNotation::Oklab, function_body(v, "oklab("@)->0))
    } else if function_body(v, "oklch("@) is Some {
        Some((CssColorNotation::Oklch, function_body(v, "oklch("@)->0))
    } else {
        None
    }
}

fn call_body(v: &Vec<char>, opening: &str) -> (r: Option<String>)
    ensures
        match r {
            Some(b) => function_body(v@, opening@) == Some(b@),
            None => function_body(v@, opening@) is None,
        },
{
    let o = chars_of(opening);
    if !vec_starts_with(v, &o) {
        return None;
    }
    let rest = vec_skip(v, o.len());
    if rest.len() == 0 || rest[rest.len() - 1] != ')' {
        proof {
            if seq_ends_with(v@.skip(o@.len() as int), seq![')']) {
                assert(rest@ =~= v@.skip(o@.len() as int));
                assert(rest@[rest@.len() - 1] == v@.skip(o@.len() as int).subrange(rest@.len() - 1, rest@.len() as int)[0]);
            }
        }
        return None;
    }
    let body = vec_take(&rest, rest.len() - 1);
    proof {
        assert(rest@ =~= v@.skip(o@.len() as int));
        assert(v@.skip(o@.len() as int).subrange(rest@.len() - 1, rest@.len() as int) =~= seq![')']);
        assert(body@ =~= v@.subrange(o@.len() as int, v@.len() - 1));
    }
    Some(string_of_chars(&body))
}

/// The notation of a CSS color, after trimming, and the text it wraps; `None` for notations
/// the browser does not read.
pub fn classify_css_color(value: &str) -> (r: Option<(CssColorNotation, String)>)
    ensures
        forall|t: Seq<char>| #[trigger] is_trim_of(t, value@) ==> match r {
            Some((k, body)) => spec_classify(t) == Some((k, body@)),
            None => spec_classify(t) is None,
        },
{
    let trimmed = trim(value);
    proof { lemma_trim_unique(trimmed@, value@); }
    let v = chars_of(trimmed.as_str());
    if v.len() > 0 && v[0] == '#' {
        let rest = vec_skip(&v, 1);
        proof { assert(v@.subrange(0, 1) =~= seq!['#']); }
        return Some((CssColorNotation::Hex, string_of_chars(&rest)));
    }
    proof {
        assert(!seq_starts_with(v@, seq!['#'])) by {
            if seq_starts_with(v@, seq!['#']) {
                assert(v@.subrange(0, 1)[0] == v@[0]);
            }
        }
    }
    match call_body(&v, "rgb(") {
        Some(b) => return Some((CssColorNotation::Rgb, b)),
        None => {},
    }
    match call_body(&v, "rgba(") {
        Some(b) => return Some((CssColorNotation::Rgba, b)),
        None => {},
    }
    match call_body(&v, "oklab(") {
        Some(b) => return Some((CssColorNotation::Oklab, b)),
        None => {},
    }
    match call_body(&v, "oklch(") {
        Some(b) => Some((CssColorNotation::Oklch, b)),
        None => None,
    }
}

/// The value of a hexadecimal digit, or `None` for any other character.
pub open spec fn hex_value(c: char) -> Option<int> {
    if '0' <= c && c <= '9' {
        Some(c as int - '0' as int)
    } else if 'a' <= c && c <= 'f' {
        Some(c as int - 'a' as int + 10)
    } else if 'A' <= c && c <= 'F' {
        Some(c as int - 'A' as int + 10)
    } else {
        None
    }
}

/// Whether every character is a hexadecimal digit.
pub open spec fn all_hex(s: Seq<char>) -> bool {
    forall|i: int| 0 <= i < s.len() ==> (#[trigger] hex_value(s[i])) is Some
}

/// The number the hexadecimal digits of `s` write.
pub open spec fn hex_number(s: Seq<char>) -> int
    decreases s.len(),
{
    if s.len() == 0 {
        0
    } else {
        hex_number(s.drop_last()) * 16 + hex_value(s.last())->0
    }
}

/// `s` with each character written twice, as a three-digit color expands to six.
pub open spec fn doubled(s: Seq<char>) -> Seq<char>
    decreases s.len(),
{
    if s.len() == 0 { seq![] } else { doubled(s.drop_last()) + seq![s.last(), s.last()] }
}

/// The number a color's hexadecimal text stands for, as `u32::from_str_radix(_, 16)` reads the
/// text expanded to six digits: three digits are doubled, six are kept, and one leading `+`
/// is allowed before the digits; any other text stands for none.
pub open spec fn spec_hex_color_number(hex: Seq<char>) -> Option<int> {
    let digits = color_digits(hex);
    if (hex.len() == 3 || hex.len() == 6) && digits.len() > 0 && all_hex(digits) {
        Some(hex_number(digits))
    } else {
        None
    }
}

/// The digits of a color's hexadecimal text once expanded, without a leading `+`.
pub open spec fn color_digits(hex: Seq<char>) -> Seq<char> {
    let expanded = if hex.len() == 3 { doubled(hex) } else { hex };
    if expanded.len() > 0 && expanded[0] == '+' { expanded.skip(1) } else { expanded }
}

/// The red, green and blue channels a color's hexadecimal text stands for.
pub open spec fn spec_hex_rgb(hex: Seq<char>) -> Option<(u8, u8, u8)> {
    match spec_hex_color_number(hex) {
        Some(n) => Some(((n / 65536) as u8, ((n / 256) % 256) as u8, (n % 256) as u8)),
        None => None,
    }
}

proof fn lemma_hex_number_bound(s: Seq<char>)
    requires
        all_hex(s),
    ensures
        0 <= hex_number(s),
        s.len() <= 6 ==> hex_number(s) < 16777216,
        s.len() <= 5 ==> hex_number(s) < 1048576,
    decreases s.len(),
{
    if s.len() > 0 {
        assert(hex_value(s[s.len() - 1]) is Some);
        assert(all_hex(s.drop_last())) by {
            assert forall|i: int| 0 <= i < s.drop_last().len() implies (#[trigger] hex_value(s.drop_last()[i])) is Some by {
                assert(s.drop_last()[i] == s[i]);
            }
        }
        lemma_hex_number_bound(s.drop_last());
        lemma_hex_len_bound(s.drop_last());
        let v = hex_value(s.last())->0;
        assert(0 <= v < 16);
    }
}

proof fn lemma_hex_len_bound(s: Seq<char>)
    requires
        all_hex(s),
    ensures
        s.len() <= 5 ==> hex_number(s) < 1048576,
        s.len() <= 4 ==> hex_number(s) < 65536,
        s.len() <= 3 ==> hex_number(s) < 4096,
        s.len() <= 2 ==> hex_number(s) < 256,
        s.len() <= 1 ==> hex_number(s) < 16,
        0 <= hex_number(s),
    decreases s.len(),
{
    if s.len() > 0 {
        assert(hex_value(s[s.len() - 1]) is Some);
        assert(all_hex(s.drop_last())) by {
            assert forall|i: int| 0 <= i < s.drop_last().len() implies (#[trigger] hex_value(s.drop_last()[i])) is Some by {
                assert(s.drop_last()[i] == s[i]);
            }
        }
        lemma_hex_len_bound(s.drop_last());
    }
}

fn hex_digit_value(c: char) -> (r: Option<u32>)
    ensures
        match r {
            Some(v) => hex_value(c) == Some(v as int),
            None => hex_value(c) is None,
        },
{
    if '0' <= c && c <= '9' {
        Some((c as u32) - ('0' as u32))
    } else if 'a' <= c && c <= 'f' {
        Some((c as u32) - ('a' as u32) + 10)
    } else if 'A' <= c && c <= 'F' {
        Some((c as u32) - ('A' as u32) + 10)
    } else {
        None
    }
}

/// The red, green and blue channels of a color's hexadecimal text (the part after `#`).
pub fn parse_hex_rgb(hex: &str) -> (r: Option<(u8, u8, u8)>)
    ensures
        r == spec_hex_rgb(hex@),
{
    let h = chars_of(hex);
    if h.len() != 3 && h.len() != 6 {
        return None;
    }
    let mut expanded: Vec<char> = Vec::new();
    if h.len() == 3 {
        let mut i: usize = 0;
        while i < 3
            invariant
                h.len() == 3,
                i <= 3,
                expanded@ == doubled(h@.take(i as int)),
                expanded@.len() == 2 * i,
            decreases 3 - i,
        {
            expanded.push(h[i]);
            expanded.push(h[i]);
            proof {
                assert(h@.take(i + 1).drop_last() =~= h@.take(i as int));
            }
            i = i + 1;
        }
        assert(h@.take(3) =~= h@);
    } else {
        expanded = h;
    }
    assert(expanded@ == (if hex@.len() == 3 { doubled(hex@) } else { hex@ }));
    assert(expanded@.len() == 6);
    let start: usize = if expanded.len() > 0 && expanded[0] == '+' { 1 } else { 0 };
    let digits = vec_skip(&expanded, start);
    assert(digits@ == color_digits(hex@));
    if digits.len() == 0 || digits.len() > 6 {
        return None;
    }
    let mut n: u32 = 0;
    let mut i: usize = 0;
    while i < digits.len()
        invariant
            i <= digits.len() <= 6,
            digits@ == color_digits(hex@),
            hex@.len() == 3 || hex@.len() == 6,
            all_hex(digits@.take(i as int)),
            n == hex_number(digits@.take(i as int)),
        decreases digits.len() - i,
    {
        let d = match hex_digit_value(digits[i]) {
            Some(d) => d,
            None => {
                proof {
                    assert(!all_hex(digits@)) by {
                        assert(hex_value(digits@[i as int]) is None);
                    }
                }
                return None;
            },
        };
        proof {
            let t = digits@.take(i + 1);
            assert(t.drop_last() =~= digits@.take(i as int));
            assert(all_hex(t)) by {
                assert forall|k: int| 0 <= k < t.len() implies (#[trigger] hex_value(t[k])) is Some by {
                    if k < i {
                        assert(t[k] == digits@.take(i as int)[k]);
                    }
                }
            }
            lemma_hex_len_bound(digits@.take(i as int));
            assert(i < 6);
        }
        n = n * 16 + d;
        i = i + 1;
    }
    proof {
        assert(digits@.take(digits.len() as int) =~= digits@);
        lemma_hex_number_bound(digits@);
    }
    Some(((n / 65536) as u8, ((n / 256) % 256) as u8, (n % 256) as u8))
}

} // verus!
