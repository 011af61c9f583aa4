//! Short forms of URLs and titles for tiles, tabs, bookmark chips and suggestion rows.

use vstd::prelude::*;
use vstd::utf8::{encode_utf8, decode_utf8, is_char_boundary};
use crate::text::{chars_of, string_of_chars, strip_prefix, seq_starts_with, owned, push_str, vec_take};

verus! {

/// `url` without an `https://` prefix, or else without an `http://` prefix.
pub open spec fn without_scheme(url: Seq<char>) -> Seq<char> {
    if seq_starts_with(url, "https://"@) {
        url.subrange(8, url.len() as int)
    } else if seq_starts_with(url, "http://"@) {
        url.subrange(7, url.len() as int)
    } else {
        url
    }
}

fn strip_scheme(url: &str) -> (r: String)
    ensures
        r@ == without_scheme(url@),
{
    proof {
        reveal_strlit("https://");
        reveal_strlit("http://");
    }
    match strip_prefix(url, "https://") {
        Some(rest) => rest,
        None => match strip_prefix(url, "http://") {
            Some(rest) => rest,
            None => owned(url),
        },
    }
}

/// The characters before the first `/`.
pub open spec fn before_slash(s: Seq<char>) -> Seq<char> {
    if s.contains('/') {
        s.subrange(0, choose|i: int| 0 <= i < s.len() && s[i] == '/' && forall|j: int| 0 <= j < i ==> s[j] != '/')
    } else {
        s
    }
}

/// The host part of a URL, for a tile: the text after the scheme and before the first `/`.
pub fn extract_domain(url: &str) -> (r: String)
    ensures
        r@ == before_slash(without_scheme(url@)),
{
    let rest = strip_scheme(url);
    let v = chars_of(rest.as_str());
    let mut i: usize = 0;
    while i < v.len()
        invariant
            i <= v.len(),
            v@ == rest@,
            rest@ == without_scheme(url@),
            forall|j: int| 0 <= j < i ==> v@[j] != '/',
        decreases v.len() - i,
    {
        if v[i] == '/' {
            proof {
                let k = choose|k: int| 0 <= k < v@.len() && v@[k] == '/' && forall|j: int| 0 <= j < k ==> v@[j] != '/';
                if k < i { assert(v@[k] != '/'); }
                if k > i { assert(v@[i as int] != '/'); }
                assert(v@.contains('/'));
                assert(before_slash(rest@) == rest@.subrange(0, i as int));
            }
            let head = vec_take(&v, i);
            let r = string_of_chars(&head);
            assert(r@ == rest@.subrange(0, i as int));
            assert(rest@ == without_scheme(url@));
            return r;
        }
        i = i + 1;
    }
    assert(!v@.contains('/'));
    rest
}

/// `s` without a leading `www.`.
pub open spec fn without_www(s: Seq<char>) -> Seq<char> {
    if seq_starts_with(s, "www."@) { s.subrange(4, s.len() as int) } else { s }
}

/// The label of a bookmark chip: the URL without scheme and `www.`, cut to 22 characters and
/// an ellipsis when it is longer than 25 bytes and has more than 22 characters.
pub open spec fn spec_truncate_url(url: Seq<char>) -> Seq<char> {
    let s = without_www(without_scheme(url));
    if encode_utf8(s).len() > 25 && s.len() > 22 {
        s.subrange(0, 22) + "..."@
    } else {
        s
    }
}

pub fn truncate_url(url: &str) -> (r: String)
    ensures
        r@ == spec_truncate_url(url@),
{
    let no_scheme = strip_scheme(url);
    proof { reveal_strlit("www."); }
    let stripped = match strip_prefix(no_scheme.as_str(), "www.") {
        Some(rest) => rest,
        None => no_scheme,
    };
    let s = stripped.as_str();
    let bytes = s.as_bytes();
    if bytes.len() > 25 {
        let v = chars_of(s);
        if v.len() > 22 {
            let head = vec_take(&v, 22);
            let mut r = string_of_chars(&head);
            push_str(&mut r, "...");
            return r;
        }
    }
    stripped
}

/// A label cut to `max_chars` characters: longer text keeps its first `max_chars - 1`
/// characters (none when `max_chars` is 0) followed by `...`.
pub open spec fn spec_truncate_label(input: Seq<char>, max_chars: nat) -> Seq<char> {
    if input.len() <= max_chars {
        input
    } else {
        input.take(if max_chars == 0 { 0int } else { max_chars - 1 }) + "..."@
    }
}

pub fn truncate_label(input: &str, max_chars: usize) -> (r: String)
    ensures
        r@ == spec_truncate_label(input@, max_chars as nat),
{
    let chars = crate::text::chars_of(input);
    if chars.len() <= max_chars {
        return crate::text::owned(input);
    }
    let keep = crate::text::vec_take(&chars, max_chars.saturating_sub(1));
    let head = crate::text::string_of_chars(&keep);
    crate::text::concat(head.as_str(), "...")
}

/// The caption of the browser's pane tab for the active tab, given its trimmed title: the
/// title, unless it is blank or `New Tab`; then `New Tab` for the new tab page or a blank
/// address, and the address otherwise.
pub open spec fn spec_tab_caption(trimmed_title: Seq<char>, url: Seq<char>) -> Seq<char> {
    if trimmed_title.len() > 0 && trimmed_title != "New Tab"@ {
        trimmed_title
    } else if url.len() == 0 || url == "glass://newtab"@ {
        "New Tab"@
    } else {
        url
    }
}

/// The caption of the browser's pane tab for a tab with this title and address.
pub fn tab_caption(title: &str, url: &str) -> (r: String)
    ensures
        forall|t: Seq<char>| #[trigger] crate::trimming::is_trim_of(t, title@) ==> r@ == spec_tab_caption(t, url@),
{
    let trimmed = crate::trimming::trim(title);
    proof { crate::trimming::lemma_trim_unique(trimmed@, title@); }
    if !trimmed.as_str().is_empty() && !crate::text::str_eq(trimmed.as_str(), "New Tab") {
        trimmed
    } else if url.is_empty() || crate::text::str_eq(url, "glass://newtab") {
        owned("New Tab")
    } else {
        owned(url)
    }
}

/// A title cut for a narrow place: a title longer than `max_bytes` bytes of UTF-8 keeps its
/// first `keep_chars` characters (all of them when it has fewer) followed by `...`.
pub open spec fn spec_shorten_title(title: Seq<char>, max_bytes: nat, keep_chars: nat) -> Seq<char> {
    if encode_utf8(title).len() > max_bytes {
        title.take(if title.len() < keep_chars { title.len() as int } else { keep_chars as int }) + "..."@
    } else {
        title
    }
}

pub fn shorten_title(title: &str, max_bytes: usize, keep_chars: usize) -> (r: String)
    ensures
        r@ == spec_shorten_title(title@, max_bytes as nat, keep_chars as nat),
{
    if title.as_bytes().len() > max_bytes {
        let v = chars_of(title);
        let keep = if v.len() < keep_chars { v.len() } else { keep_chars };
        let head = vec_take(&v, keep);
        let mut r = string_of_chars(&head);
        push_str(&mut r, "...");
        r
    } else {
        owned(title)
    }
}

/// The title shown on a tab of the tab strip: longer than 24 bytes, it is cut to 21
/// characters and `...`.
pub fn tab_strip_title(title: &str) -> (r: String)
    ensures
        r@ == spec_shorten_title(title@, 24, 21),
{
    shorten_title(title, 24, 21)
}

/// The label of a bookmark chip: a title longer than 20 bytes cut to 17 characters and
/// `...`; for an empty title, the short form of the address.
pub open spec fn spec_bookmark_chip_label(title: Seq<char>, url: Seq<char>) -> Seq<char> {
    if encode_utf8(title).len() > 20 {
        spec_shorten_title(title, 20, 17)
    } else if title.len() == 0 {
        spec_truncate_url(url)
    } else {
        title
    }
}

pub fn bookmark_chip_label(title: &str, url: &str) -> (r: String)
    ensures
        r@ == spec_bookmark_chip_label(title@, url@),
{
    if title.as_bytes().len() > 20 {
        shorten_title(title, 20, 17)
    } else if title.is_empty() {
        truncate_url(url)
    } else {
        owned(title)
    }
}

/// The query as a search row shows it: longer than 80 bytes, its first 77 bytes and `...`.
pub open spec fn spec_search_row_query(query: Seq<char>) -> Seq<char> {
    let bytes = encode_utf8(query);
    if bytes.len() > 80 {
        decode_utf8(bytes.subrange(0, 77)) + "..."@
    } else {
        query
    }
}

/// The text of the suggestion row that searches for `query`.
pub open spec fn spec_search_row_label(query: Seq<char>) -> Seq<char> {
    "Search Google for \""@ + spec_search_row_query(query) + "\""@
}

/// The text of the suggestion row that searches for `query`. A query longer than 80 bytes is
/// cut after its 77th byte, which must end a character.
pub fn search_row_label(query: &str) -> (r: String)
    requires
        encode_utf8(query@).len() > 80 ==> is_char_boundary(encode_utf8(query@), 77),
    ensures
        r@ == spec_search_row_label(query@),
{
    let shown = if query.as_bytes().len() > 80 {
        let (head, _) = query.split_at(77);
        proof {
            vstd::utf8::encode_utf8_decode_utf8(head@);
        }
        crate::text::concat(head, "...")
    } else {
        owned(query)
    };
    let mut r = owned("Search Google for \"");
    push_str(&mut r, shown.as_str());
    push_str(&mut r, "\"");
    r
}

} // verus!
