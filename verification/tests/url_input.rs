use glass_core::url_input::{display_url, looks_like_url, should_use_http_by_default, text_to_url};

#[test]
fn omnibox_localhost_inputs_are_treated_as_urls() {
    assert!(looks_like_url("localhost"));
    assert!(looks_like_url("localhost:3000"));
    assert_eq!(text_to_url("localhost"), "http://localhost");
    assert_eq!(text_to_url("localhost:3000"), "http://localhost:3000");
}

#[test]
fn omnibox_regular_domains_default_to_https() {
    assert!(looks_like_url("example.com"));
    assert_eq!(text_to_url("example.com"), "https://example.com");
}

#[test]
fn omnibox_plain_queries_still_search() {
    assert!(!looks_like_url("rust ownership"));
    assert_eq!(
        text_to_url("rust ownership"),
        "https://www.google.com/search?q=rust+ownership"
    );
}

#[test]
fn browser_view_localhost_inputs_are_treated_as_urls() {
    assert!(looks_like_url("localhost"));
    assert!(looks_like_url("localhost:5173"));
    assert_eq!(text_to_url("localhost"), "http://localhost");
    assert_eq!(text_to_url("localhost:5173"), "http://localhost:5173");
}

#[test]
fn browser_view_regular_domains_default_to_https() {
    assert!(looks_like_url("example.com"));
    assert_eq!(text_to_url("example.com"), "https://example.com");
}

#[test]
fn browser_view_plain_queries_still_search() {
    assert!(!looks_like_url("rust async await"));
    assert_eq!(
        text_to_url("rust async await"),
        "https://www.google.com/search?q=rust+async+await"
    );
}

#[test]
fn explicit_schemes_are_kept_as_typed() {
    assert_eq!(text_to_url("http://example.com/a b"), "http://example.com/a b");
    assert_eq!(text_to_url("https://rust-lang.org"), "https://rust-lang.org");
    assert!(looks_like_url("ftp://files.example.com"));
}

#[test]
fn loopback_and_bare_ports_use_plain_http() {
    assert!(should_use_http_by_default("127.0.0.1:8080"));
    assert!(should_use_http_by_default("LOCALHOST"));
    assert!(should_use_http_by_default("devbox:8000"));
    assert!(!should_use_http_by_default("10.0.0.1"));
    assert!(!should_use_http_by_default("example.com:8443"));
    assert_eq!(text_to_url("127.0.0.1:8080"), "http://127.0.0.1:8080");
    assert_eq!(text_to_url("10.0.0.1"), "https://10.0.0.1");
    assert_eq!(text_to_url("example.com:8443"), "https://example.com:8443");
}

#[test]
fn single_words_search() {
    assert!(!looks_like_url("rust"));
    assert_eq!(text_to_url("rust"), "https://www.google.com/search?q=rust");
}

#[test]
fn search_terms_are_percent_encoded() {
    assert_eq!(
        text_to_url("c++ & rust?"),
        "https://www.google.com/search?q=c%2B%2B+%26+rust%3F"
    );
    assert_eq!(text_to_url("café"), "https://www.google.com/search?q=caf%C3%A9");
}

#[test]
fn new_tab_page_shows_a_blank_address() {
    assert_eq!(display_url("glass://newtab"), "");
    assert_eq!(display_url("https://example.com"), "https://example.com");
}
