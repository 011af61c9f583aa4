use glass_core::bookmarks::BookmarkStore;
use glass_core::history::{BrowserHistory, HistoryEntry};
use glass_core::tab_strip::{ClosedTab, TabEntry, TabStrip};
use glass_core::url_input::text_to_url;

#[test]
fn every_address_bar_url_has_an_http_scheme() {
    for text in ["", "a b", "localhost", "example.com", "http://x", "ftp://y", "127.0.0.1:80", "é"] {
        let url = text_to_url(text);
        assert!(url.starts_with("http://") || url.starts_with("https://"), "{text} -> {url}");
    }
}

#[test]
fn recorded_history_has_distinct_urls_and_lists_the_visit() {
    let mut h = BrowserHistory::with_entries(vec![HistoryEntry {
        url: "https://a.test".to_string(),
        title: "A".to_string(),
        visit_count: 1,
        last_visited_ms: 1,
    }]);
    for (i, url) in ["https://b.test", "https://a.test", "https://b.test"].iter().enumerate() {
        h.record_visit_at(url, "", 10 + i as u64);
    }
    let urls: Vec<&str> = h.entries().iter().map(|e| e.url.as_str()).collect();
    assert_eq!(urls, vec!["https://a.test", "https://b.test"]);
    assert_eq!(h.entries()[1].last_visited_ms, 12);
}

#[test]
fn removing_a_new_bookmark_restores_the_store() {
    let mut store = BookmarkStore::default();
    store.add_bookmark("https://a.test".into(), "A".into(), None, None);
    let before: Vec<String> = store.bookmarks.iter().map(|b| b.url.clone()).collect();
    store.add_bookmark("https://b.test".into(), "B".into(), None, None);
    store.remove_bookmark("https://b.test");
    let after: Vec<String> = store.bookmarks.iter().map(|b| b.url.clone()).collect();
    assert_eq!(before, after);
    assert!(store.find_by_url("https://b.test").is_none());
}

#[test]
fn reopening_gives_back_the_tab_just_closed() {
    let mut strip = TabStrip::new(TabEntry { id: 1, pinned: false });
    let closed = ClosedTab {
        url: "https://x.test".to_string(),
        title: "X".to_string(),
        favicon_url: None,
        is_new_tab_page: false,
        is_pinned: true,
    };
    strip.push_closed_tab(closed.clone());
    assert_eq!(strip.pop_closed_tab(), Some(closed));
    assert_eq!(strip.pop_closed_tab(), None);
}

#[test]
fn pinned_tabs_stay_in_front() {
    let mut strip = TabStrip::new(TabEntry { id: 1, pinned: false });
    for id in 2..6 {
        strip.add_tab(TabEntry { id, pinned: false });
    }
    strip.set_pinned(3, true);
    strip.set_pinned(1, true);
    let pinned: Vec<bool> = strip.tabs().iter().map(|t| t.pinned).collect();
    assert_eq!(pinned, vec![true, true, false, false, false]);
}
