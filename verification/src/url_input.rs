//! Turning what is typed into the address bar into a URL to load.

use vstd::prelude::*;
use vstd::utf8::encode_utf8;
use crate::text::{owned, chars_of, starts_with, contains_piece, contains_char, seq_starts_with, seq_contains_piece, concat};

verus! {

/// Whether byte `b` is written unchanged by the `application/x-www-form-urlencoded` serializer.
pub open spec fn urlencoded_unchanged(b: u8) -> bool {
    b == 0x2a || b == 0x2d || b == 0x2e || b == 0x5f
        || (0x30 <= b <= 0x39) || (0x41 <= b <= 0x5a) || (0x61 <= b <= 0x7a)
}

/// The uppercase hexadecimal digit for `n` below 16.
pub open spec fn hex_digit(n: u8) -> char {
    if n < 10 { ((n + 48) as u8) as char } else { ((n + 55) as u8) as char }
}

/// The `application/x-www-form-urlencoded` serialization of `bytes`: bytes in the unchanged
/// set stay as they are, a space becomes `+`, any other byte becomes `%` and two uppercase
/// hexadecimal digits.
pub open spec fn form_urlencode(bytes: Seq<u8>) -> Seq<char>
    decreases bytes.len(),
{
    if bytes.len() == 0 {
        seq![]
    } else {
        let b = bytes[0];
        (if urlencoded_unchanged(b) {
            seq![b as char]
        } else if b == 0x20 {
            seq!['+']
        } else {
            seq!['%', hex_digit(b / 16), hex_digit(b % 16)]
        }) + form_urlencode(bytes.drop_first())
    }
}

/// The UTF-8 bytes of `text` serialized as a form value
/// (`url::form_urlencoded::byte_serialize`, collected into a string).
/// The contract states the serializer's whole rule, as the crate's source defines it.
#[verifier::external_body]
pub(crate) fn form_urlencoded_text(text: &str) -> (r: String)
    ensures
        r@ == form_urlencode(encode_utf8(text@)),
{
    url::form_urlencoded::byte_serialize(text.as_bytes()).collect()
}

/// The host and port of `url`, when it parses as a URL with a host: the host as text, its
/// four octets when it is an IPv4 address, and the explicit port.
pub uninterp spec fn url_host(url: Seq<char>) -> Option<(Seq<char>, Option<(u8, u8, u8, u8)>, Option<u16>)>;

/// The host and port of `http://` followed by typed text, which is how typed text is read
/// as an address.
pub open spec fn http_url_host(input: Seq<char>) -> Option<(Seq<char>, Option<(u8, u8, u8, u8)>, Option<u16>)> {
    url_host("http://"@ + input)
}

/// The host and port of a URL.
pub struct UrlHostParts {
    pub host: String,
    pub ipv4: Option<(u8, u8, u8, u8)>,
    pub port: Option<u16>,
}

/// Parses `url` with `url::Url::parse`, and hands back the host (`Url::host_str`), the IPv4
/// octets when `Url::host` is an IPv4 address, and `Url::port`; `None` when it does not
/// parse or has no host. The result is named: how the URL standard parses text is not
/// stated here.
#[verifier::external_body]
fn parse_url_host(url: &str) -> (r: Option<UrlHostParts>)
    ensures
        match r {
            Some(p) => url_host(url@) == Some((p.host@, p.ipv4, p.port)),
            None => url_host(url@) is None,
        },
{
    let url = match url::Url::parse(url) {
        Ok(url) => url,
        Err(_) => return None,
    };
    let host = url.host_str()?.to_string();
    let ipv4 = match url.host() {
        Some(url::Host::Ipv4(address)) => {
            let [a, b, c, d] = address.octets();
            Some((a, b, c, d))
        },
        _ => None,
    };
    Some(UrlHostParts { host, ipv4, port: url.port() })
}

/// Whether `c` has the Unicode `White_Space` property (`char::is_whitespace`).
pub open spec fn is_unicode_whitespace(c: char) -> bool {
    let n = c as u32;
    (0x09 <= n <= 0x0d) || n == 0x20 || n == 0x85 || n == 0xa0 || n == 0x1680
        || (0x2000 <= n <= 0x200a) || n == 0x2028 || n == 0x2029 || n == 0x202f
        || n == 0x205f || n == 0x3000
}

pub(crate) fn char_is_whitespace(c: char) -> (r: bool)
    ensures
        r == is_unicode_whitespace(c),
{
    let n = c as u32;
    (0x09 <= n && n <= 0x0d) || n == 0x20 || n == 0x85 || n == 0xa0 || n == 0x1680
        || (0x2000 <= n && n <= 0x200a) || n == 0x2028 || n == 0x2029 || n == 0x202f
        || n == 0x205f || n == 0x3000
}

/// Whether any character of `s` is whitespace.
pub open spec fn has_whitespace(s: Seq<char>) -> bool {
    exists|i: int| 0 <= i < s.len() && is_unicode_whitespace(s[i])
}

fn any_whitespace(s: &str) -> (r: bool)
    ensures
        r == has_whitespace(s@),
{
    let v = chars_of(s);
    let mut i: usize = 0;
    while i < v.len()
        invariant
            v@ == s@,
            i <= v.len(),
            forall|k: int| 0 <= k < i ==> !is_unicode_whitespace(s@[k]),
        decreases v.len() - i,
    {
        if char_is_whitespace(v[i]) {
            return true;
        }
        i = i + 1;
    }
    false
}

/// ASCII letters folded to lowercase; any other character as it is.
pub open spec fn ascii_fold(c: char) -> int {
    let n = c as int;
    if 65 <= n <= 90 { n + 32 } else { n }
}

/// Whether two texts are equal when ASCII letters are compared without case.
pub open spec fn eq_ignore_ascii_case(a: Seq<char>, b: Seq<char>) -> bool {
    a.len() == b.len() && forall|i: int| 0 <= i < a.len() ==> ascii_fold(a[i]) == ascii_fold(b[i])
}

fn fold_char(c: char) -> (r: u32)
    ensures
        r as int == ascii_fold(c),
{
    let n = c as u32;
    if 65 <= n && n <= 90 { n + 32 } else { n }
}

fn str_eq_ignore_ascii_case(a: &str, b: &str) -> (r: bool)
    ensures
        r == eq_ignore_ascii_case(a@, b@),
{
    let av = chars_of(a);
    let bv = chars_of(b);
    if av.len() != bv.len() {
        return false;
    }
    let mut i: usize = 0;
    while i < av.len()
        invariant
            av@ == a@,
            bv@ == b@,
            av.len() == bv.len(),
            i <= av.len(),
            forall|k: int| 0 <= k < i ==> ascii_fold(a@[k]) == ascii_fold(b@[k]),
        decreases av.len() - i,
    {
        if fold_char(av[i]) != fold_char(bv[i]) {
            return false;
        }
        i = i + 1;
    }
    true
}

/// Whether `input` begins with an `http` or `https` scheme.
pub open spec fn has_http_scheme(input: Seq<char>) -> bool {
    seq_starts_with(input, "http://"@) || seq_starts_with(input, "https://"@)
}

/// Whether typed text reads as an address rather than a search.
pub open spec fn spec_looks_like_url(input: Seq<char>) -> bool {
    if has_http_scheme(input) || seq_contains_piece(input, "://"@) {
        true
    } else if has_whitespace(input) {
        false
    } else {
        match http_url_host(input) {
            None => false,
            Some((host, ipv4, port)) => spec_host_reads_as_address(host, ipv4, port),
        }
    }
}

/// Whether an address should be loaded over plain `http`: a local host, a loopback IPv4
/// address, or a bare name with a port.
pub open spec fn spec_should_use_http(input: Seq<char>) -> bool {
    match http_url_host(input) {
        None => false,
        Some((host, ipv4, port)) => spec_host_wants_http(host, ipv4, port),
    }
}

/// The search engine address that searches for `text`.
pub open spec fn search_url(text: Seq<char>) -> Seq<char> {
    "https://www.google.com/search?q="@ + form_urlencode(encode_utf8(text))
}

/// The URL to load for what was typed.
pub open spec fn spec_text_to_url(text: Seq<char>) -> Seq<char> {
    if has_http_scheme(text) {
        text
    } else if !spec_looks_like_url(text) {
        search_url(text)
    } else if spec_should_use_http(text) {
        "http://"@ + text
    } else {
        "https://"@ + text
    }
}

/// Whether a parsed host reads as an address: a local host, a dotted name, an IPv4
/// address, or a bare name with a port.
pub open spec fn spec_host_reads_as_address(host: Seq<char>, ipv4: Option<(u8, u8, u8, u8)>, port: Option<u16>) -> bool {
    eq_ignore_ascii_case(host, "localhost"@) || host.contains('.') || ipv4 is Some
        || (port is Some && !host.contains('.'))
}

/// Whether a parsed host is loaded over plain `http`: a local host, a loopback IPv4
/// address, or a bare name with a port.
pub open spec fn spec_host_wants_http(host: Seq<char>, ipv4: Option<(u8, u8, u8, u8)>, port: Option<u16>) -> bool {
    if eq_ignore_ascii_case(host, "localhost"@) {
        true
    } else {
        match ipv4 {
            Some(octets) => octets.0 == 127,
            None => port is Some && !host.contains('.'),
        }
    }
}

/// Whether the host of a parsed address reads as an address.
pub fn host_reads_as_address(parts: &UrlHostParts) -> (r: bool)
    ensures
        r == spec_host_reads_as_address(parts.host@, parts.ipv4, parts.port),
{
    let host = parts.host.as_str();
    str_eq_ignore_ascii_case(host, "localhost")
        || contains_char(host, '.')
        || parts.ipv4.is_some()
        || (parts.port.is_some() && !contains_char(host, '.'))
}

/// Whether the host of a parsed address is loaded over plain `http`.
pub fn host_wants_http(parts: &UrlHostParts) -> (r: bool)
    ensures
        r == spec_host_wants_http(parts.host@, parts.ipv4, parts.port),
{
    let host = parts.host.as_str();
    if str_eq_ignore_ascii_case(host, "localhost") {
        return true;
    }
    match parts.ipv4 {
        Some(octets) => octets.0 == 127,
        None => parts.port.is_some() && !contains_char(host, '.'),
    }
}

/// Whether typed text reads as an address rather than a search.
pub fn looks_like_url(input: &str) -> (r: bool)
    ensures
        r == spec_looks_like_url(input@),
{
    if starts_with(input, "http://") || starts_with(input, "https://") {
        return true;
    }
    if contains_piece(input, "://") {
        return true;
    }
    if any_whitespace(input) {
        return false;
    }
    let address = concat("http://", input);
    match parse_url_host(address.as_str()) {
        Some(parts) => host_reads_as_address(&parts),
        None => false,
    }
}

/// Whether an address should be loaded over plain `http`.
pub fn should_use_http_by_default(input: &str) -> (r: bool)
    ensures
        r == spec_should_use_http(input@),
{
    let address = concat("http://", input);
    match parse_url_host(address.as_str()) {
        Some(parts) => host_wants_http(&parts),
        None => false,
    }
}

/// The URL to load for what was typed: the text itself when it has an `http(s)` scheme,
/// a search when it does not read as an address, else the address with a scheme added.
pub fn text_to_url(text: &str) -> (r: String)
    ensures
        r@ == spec_text_to_url(text@),
{
    if starts_with(text, "http://") || starts_with(text, "https://") {
        return owned(text);
    }
    if !looks_like_url(text) {
        let encoded = form_urlencoded_text(text);
        return concat("https://www.google.com/search?q=", encoded.as_str());
    }
    if should_use_http_by_default(text) {
        concat("http://", text)
    } else {
        concat("https://", text)
    }
}

/// The address bar text for a page URL: blank for the new tab page.
pub open spec fn spec_display_url(url: Seq<char>) -> Seq<char> {
    if url == "glass://newtab"@ { seq![] } else { url }
}

pub fn display_url(url: &str) -> (r: String)
    ensures
        r@ == spec_display_url(url@),
{
    if crate::text::str_eq(url, "glass://newtab") {
        String::new()
    } else {
        owned(url)
    }
}

} // verus!
