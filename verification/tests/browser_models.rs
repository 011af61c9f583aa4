use glass_core::bookmarks::{BookmarkBar, BookmarkBarVisibility, BookmarkStore};
use glass_core::display::{
    bookmark_chip_label, extract_domain, search_row_label, shorten_title, tab_caption,
    tab_strip_title, truncate_label, truncate_url,
};
use glass_core::downloads::{download_display_name, download_status, DownloadProgress, DownloadStatus};
use glass_core::history::{
    lowered_url_has_prefix, url_matches_query_prefix, BrowserHistory, HistoryEntry, MAX_ENTRIES,
};
use glass_core::new_tab_search::{NewTabSearch, NewTabSuggestion};
use glass_core::omnibox::{OmniboxDropdown, OmniboxSuggestion};
use glass_core::tab_strip::{pinned_tab_rows, ClosedTab, CloseOutcome, TabEntry, TabStrip, MAX_CLOSED_TABS};
use glass_core::trimming::trim;

fn entry(url: &str, title: &str, count: u32, at: u64) -> HistoryEntry {
    HistoryEntry {
        url: url.to_string(),
        title: title.to_string(),
        visit_count: count,
        last_visited_ms: at,
    }
}

#[test]
fn history_counts_revisits_and_keeps_titles() {
    let mut h = BrowserHistory::with_entries(Vec::new());
    h.record_visit_at("https://a.test", "A", 10);
    h.record_visit_at("https://b.test", "B", 20);
    h.record_visit_at("https://a.test", "", 30);
    let e = h.entries();
    assert_eq!(e.len(), 2);
    assert_eq!(e[0], entry("https://a.test", "A", 2, 30));
    assert_eq!(e[1], entry("https://b.test", "B", 1, 20));
    h.record_visit_at("https://b.test", "B2", 40);
    assert_eq!(h.entries()[1].title, "B2");
}

#[test]
fn history_ignores_blank_pages() {
    let mut h = BrowserHistory::with_entries(vec![entry("https://a.test", "A", 1, 1)]);
    h.record_visit_at("", "x", 5);
    h.record_visit_at("about:blank", "x", 5);
    assert_eq!(h.entries().len(), 1);
    h.clear();
    assert!(h.entries().is_empty());
}

#[test]
fn history_drops_the_least_recent_entry_when_full() {
    let mut entries: Vec<HistoryEntry> = (0..MAX_ENTRIES as u64)
        .map(|i| entry(&format!("https://e{i}.test"), "", 1, 1000 + i))
        .collect();
    entries[5].last_visited_ms = 3;
    entries[9].last_visited_ms = 3;
    let mut h = BrowserHistory::with_entries(entries);
    h.record_visit_at("https://new.test", "New", 99_999);
    let e = h.entries();
    assert_eq!(e.len(), MAX_ENTRIES);
    assert_eq!(e[5].url, "https://new.test");
    assert_eq!(e[9].url, "https://e9.test");
    assert!(e.iter().all(|x| x.url != "https://e5.test"));
}

#[test]
fn recorded_visits_are_listed_now() {
    let mut h = BrowserHistory::with_entries(Vec::new());
    h.record_visit("https://now.test", "Now");
    assert_eq!(h.entries().len(), 1);
    assert_eq!(h.entries()[0].url, "https://now.test");
    assert_eq!(h.entries()[0].visit_count, 1);
}

#[test]
fn history_urls_match_queries_by_prefix_ignoring_case() {
    assert!(url_matches_query_prefix("https://GitHub.com/rust", "git"));
    assert!(url_matches_query_prefix("http://docs.rs", "DOCS"));
    assert!(url_matches_query_prefix("https://x.test", "https://x"));
    assert!(!url_matches_query_prefix("https://x.test", "test"));
    assert!(lowered_url_has_prefix("ftp://a", "ftp"));
    assert!(!lowered_url_has_prefix("ftp://a", "a"));
}

#[test]
fn bookmarks_add_once_and_remove_by_url() {
    let mut store = BookmarkStore::default();
    assert!(store.is_empty());
    store.add_bookmark("https://a.test".into(), "A".into(), None, None);
    store.add_bookmark("https://a.test".into(), "Again".into(), None, None);
    assert_eq!(store.bookmarks.len(), 1);
    assert_eq!(store.find_by_url("https://a.test").unwrap().title, "A");
    store.remove_bookmark("https://a.test");
    assert!(store.find_by_url("https://a.test").is_none());
    assert!(store.is_empty());
}

#[test]
fn bookmark_folders_number_up_and_release_their_bookmarks() {
    let mut store = BookmarkStore::default();
    let work = store.add_folder("Work".into());
    let home = store.add_folder("Home".into());
    assert_eq!((work, home), (0, 1));
    assert_eq!(store.next_folder_id(), 2);
    store.add_bookmark("https://w.test".into(), "W".into(), None, Some(work));
    store.add_bookmark("https://t.test".into(), "T".into(), None, None);
    store.move_to_folder("https://t.test", Some(home));
    assert_eq!(store.bookmarks_in_folder(home).len(), 1);
    assert_eq!(store.top_level_bookmarks().len(), 0);
    store.remove_folder(work);
    assert_eq!(store.folders.len(), 1);
    let top = store.top_level_bookmarks();
    assert_eq!(top.len(), 1);
    assert_eq!(top[0].url, "https://w.test");
}

#[test]
fn bookmark_bar_shows_per_visibility_setting() {
    let mut bar = BookmarkBar::new(BookmarkStore::default());
    assert!(!bar.is_visible());
    bar.add_bookmark("https://a.test".into(), "A".into(), None);
    assert!(bar.is_bookmarked("https://a.test"));
    assert!(bar.is_visible());
    bar.set_visibility(BookmarkBarVisibility::NewTabOnly);
    bar.set_active_tab_is_new_tab_page(false);
    assert!(!bar.is_visible());
    assert_eq!(bar.menu_toggle_target(), BookmarkBarVisibility::Always);
    bar.set_active_tab_is_new_tab_page(true);
    assert!(bar.is_visible());
    bar.remove_bookmark("https://a.test");
    assert!(!bar.is_bookmarked("https://a.test"));
    assert_eq!(BookmarkBarVisibility::default(), BookmarkBarVisibility::Always);
}

fn tab(id: u64) -> TabEntry {
    TabEntry { id, pinned: false }
}

fn ids(strip: &TabStrip) -> Vec<u64> {
    strip.tabs().iter().map(|t| t.id).collect()
}

#[test]
fn tabs_open_switch_and_cycle() {
    let mut strip = TabStrip::new(tab(1));
    assert!(strip.add_tab(tab(2)));
    assert_eq!(strip.active_tab_index(), 1);
    assert!(!strip.add_tab(tab(2)));
    assert!(strip.add_tab_in_background(tab(3)));
    assert_eq!(strip.active_tab_index(), 1);
    assert_eq!(strip.next_tab_index(), Some(2));
    assert_eq!(strip.previous_tab_index(), Some(0));
    assert!(strip.switch_to_tab(0));
    assert!(!strip.switch_to_tab(0));
    assert!(!strip.switch_to_tab(9));
    assert_eq!(strip.previous_tab_index(), Some(2));
}

fn closed_page(url: &str) -> ClosedTab {
    ClosedTab {
        url: url.to_string(),
        title: String::new(),
        favicon_url: None,
        is_new_tab_page: false,
        is_pinned: false,
    }
}

#[test]
fn closing_tabs_moves_the_active_tab() {
    let mut strip = TabStrip::new(tab(1));
    strip.add_tab(tab(2));
    strip.add_tab(tab(3));
    assert_eq!(strip.close_tab_at(2, closed_page("https://c.test"), tab(9)), CloseOutcome::Removed { was_active: true });
    assert_eq!(ids(&strip), vec![1, 2]);
    assert_eq!(strip.active_tab_index(), 1);
    assert_eq!(strip.close_tab_at(0, closed_page("https://a.test"), tab(9)), CloseOutcome::Removed { was_active: false });
    assert_eq!(strip.active_tab_index(), 0);
    assert_eq!(strip.close_tab_at(5, closed_page("https://x.test"), tab(9)), CloseOutcome::Ignored);
    assert_eq!(strip.close_tab_at(0, closed_page("https://b.test"), tab(9)), CloseOutcome::Replaced);
    assert_eq!(ids(&strip), vec![9]);
}

#[test]
fn closing_a_tab_keeps_it_for_reopening() {
    let mut strip = TabStrip::new(tab(1));
    strip.add_tab(tab(2));
    strip.close_tab_at(1, closed_page("https://two.test"), tab(9));
    strip.close_tab_at(7, closed_page("https://none.test"), tab(9));
    strip.close_tab_at(0, closed_page("glass://newtab"), tab(9));
    assert_eq!(strip.closed_tabs().len(), 1);
    assert_eq!(strip.closed_tabs()[0].url, "https://two.test");
    strip.close_tab_at(0, closed_page("https://one.test"), tab(8));
    assert_eq!(ids(&strip), vec![8]);
    assert_eq!(strip.pop_closed_tab().map(|c| c.url).as_deref(), Some("https://one.test"));
    assert_eq!(strip.pop_closed_tab().map(|c| c.url).as_deref(), Some("https://two.test"));
    assert_eq!(strip.pop_closed_tab(), None);
}

#[test]
fn pinned_tabs_move_first_and_survive_close_others() {
    let mut strip = TabStrip::new(tab(1));
    strip.add_tab(tab(2));
    strip.add_tab(tab(3));
    strip.set_pinned(2, true);
    assert_eq!(ids(&strip), vec![3, 1, 2]);
    assert_eq!(strip.tabs()[strip.active_tab_index()].id, 3);
    assert_eq!(strip.find_next_unpinned_tab(), Some(1));
    strip.close_other_tabs(2);
    assert_eq!(ids(&strip), vec![3, 2]);
    assert_eq!(strip.tabs()[strip.active_tab_index()].id, 2);
}

#[test]
fn closed_tabs_reopen_last_first_and_are_bounded() {
    let mut strip = TabStrip::new(tab(1));
    let closed = |url: &str| ClosedTab {
        url: url.to_string(),
        title: String::new(),
        favicon_url: None,
        is_new_tab_page: false,
        is_pinned: false,
    };
    strip.push_closed_tab(closed("glass://newtab"));
    strip.push_closed_tab(closed(""));
    assert!(strip.closed_tabs().is_empty());
    for i in 0..(MAX_CLOSED_TABS + 3) {
        strip.push_closed_tab(closed(&format!("https://c{i}.test")));
    }
    assert_eq!(strip.closed_tabs().len(), MAX_CLOSED_TABS);
    assert_eq!(strip.closed_tabs()[0].url, "https://c3.test");
    let last = strip.pop_closed_tab().unwrap();
    assert_eq!(last.url, format!("https://c{}.test", MAX_CLOSED_TABS + 2));
    assert_eq!(strip.closed_tabs().len(), MAX_CLOSED_TABS - 1);
}

#[test]
fn omnibox_lists_search_address_then_history() {
    let mut d = OmniboxDropdown::new();
    assert!(!d.is_open());
    assert_eq!(d.confirmed_url(), None);
    d.build_suggestions(
        "example.com".to_string(),
        vec![("https://example.com/a".to_string(), "A".to_string())],
    );
    assert!(d.is_open());
    assert_eq!(d.suggestions().len(), 3);
    assert_eq!(d.suggestions()[0], OmniboxSuggestion::SearchQuery("example.com".to_string()));
    assert_eq!(d.confirmed_url().as_deref(), Some("https://www.google.com/search?q=example.com"));
    d.move_down();
    assert_eq!(d.confirmed_url().as_deref(), Some("https://example.com"));
    d.move_down();
    d.move_down();
    assert_eq!(d.selected_index(), 0);
    d.move_up();
    assert_eq!(d.selected_index(), 2);
    assert_eq!(d.confirmed_url().as_deref(), Some("https://example.com/a"));
    d.close();
    assert!(!d.is_open());
    assert!(d.suggestions().is_empty());
}

#[test]
fn omnibox_plain_words_get_no_address_row() {
    let mut d = OmniboxDropdown::new();
    d.build_suggestions("rust book".to_string(), Vec::new());
    assert_eq!(d.suggestions().len(), 1);
    assert_eq!(
        d.suggestions()[0].url_or_search(),
        "https://www.google.com/search?q=rust+book"
    );
}

fn suggestion(url: &str) -> NewTabSuggestion {
    NewTabSuggestion {
        url: url.to_string(),
        title: String::new(),
    }
}

#[test]
fn new_tab_search_rows_and_selection() {
    let mut s = NewTabSearch::new();
    assert!(s.set_text("rust".to_string()));
    assert!(!s.set_text("rust".to_string()));
    s.receive_suggestions("old query", vec![suggestion("https://x.test")]);
    assert_eq!(s.row_count(), 1);
    s.receive_suggestions("rust", vec![suggestion("https://rust-lang.org"), suggestion("https://docs.rs")]);
    assert_eq!(s.row_count(), 3);
    s.move_up();
    assert_eq!(s.selected_index, Some(2));
    s.move_down();
    assert_eq!(s.selected_index, Some(0));
    assert_eq!(s.url_for_row(0).as_deref(), Some("https://www.google.com/search?q=rust"));
    assert_eq!(s.url_for_row(1).as_deref(), Some("https://rust-lang.org"));
    assert_eq!(s.url_for_row(3), None);
    s.move_down();
    assert_eq!(s.submit("rust").as_deref(), Some("https://rust-lang.org"));
    assert_eq!(s.text, "");
    assert!(s.suggestions.is_empty());
    assert_eq!(s.selected_index, None);
}

#[test]
fn new_tab_search_submits_trimmed_text_and_ignores_blank() {
    let mut s = NewTabSearch::new();
    assert_eq!(s.submit("   "), None);
    assert_eq!(s.submit("  example.com \n").as_deref(), Some("https://example.com"));
    s.set_text("a".to_string());
    s.cancel();
    assert_eq!(s.row_count(), 1);
    assert!(!s.set_text(String::from("a")));
    assert!(!s.set_text(String::new()));
    assert_eq!(s.row_count(), 0);
}

#[test]
fn trimming_removes_unicode_whitespace_at_both_ends() {
    assert_eq!(trim("\u{3000} a b\t"), "a b");
    assert_eq!(trim(" \n "), "");
}

#[test]
fn domains_and_labels_are_shortened() {
    assert_eq!(extract_domain("https://www.example.com/path?q=1"), "www.example.com");
    assert_eq!(extract_domain("http://a.test"), "a.test");
    assert_eq!(extract_domain("file:///tmp/x"), "file:");
    assert_eq!(truncate_label("Hello world", 5), "Hell...");
    assert_eq!(truncate_label("Hello", 5), "Hello");
    assert_eq!(truncate_label("Hi!", 0), "...");
    assert_eq!(truncate_url("https://www.example.com"), "example.com");
    assert_eq!(
        truncate_url("https://www.example.com/some/long/path"),
        "example.com/some/long/..."
    );
}

fn download(name: &str, path: Option<&str>) -> DownloadProgress {
    DownloadProgress {
        suggested_file_name: name.to_string(),
        full_path: path.map(str::to_string),
        percent_complete: -1,
        total_bytes: 0,
        received_bytes: 512,
        is_in_progress: true,
        is_complete: false,
        is_canceled: false,
        is_interrupted: false,
    }
}

#[test]
fn downloads_are_named_and_given_a_state() {
    assert_eq!(download_display_name(&download("report.pdf", Some("/d/x.pdf"))), "report.pdf");
    assert_eq!(download_display_name(&download("", Some("/d/x.pdf"))), "x.pdf");
    assert_eq!(download_display_name(&download("", Some("/d/.."))), "download");
    assert_eq!(download_display_name(&download("", None)), "download");
    let d = download("a", None);
    assert_eq!(
        download_status(&d),
        DownloadStatus::InProgress {
            percent: 0,
            received_bytes: 512,
            total_bytes: None
        }
    );
    let mut done = d.clone();
    done.is_complete = true;
    done.is_canceled = true;
    assert_eq!(download_status(&done), DownloadStatus::Complete);
    let mut queued = d.clone();
    queued.is_in_progress = false;
    assert_eq!(download_status(&queued), DownloadStatus::Queued);
}

#[test]
fn omnibox_confirms_typed_text_when_the_list_is_closed() {
    let d = OmniboxDropdown::new();
    assert_eq!(d.confirm_target(""), None);
    assert_eq!(d.confirm_target("localhost:8080").as_deref(), Some("http://localhost:8080"));
    let mut open = OmniboxDropdown::new();
    open.build_suggestions("news".to_string(), Vec::new());
    assert_eq!(
        open.confirm_target("ignored").as_deref(),
        Some("https://www.google.com/search?q=news")
    );
}

#[test]
fn pane_tab_caption_prefers_the_page_title() {
    assert_eq!(tab_caption("  Rust  ", "https://rust-lang.org"), "Rust");
    assert_eq!(tab_caption("New Tab", "glass://newtab"), "New Tab");
    assert_eq!(tab_caption(" ", ""), "New Tab");
    assert_eq!(tab_caption("", "https://a.test"), "https://a.test");
}

#[test]
fn tab_strip_title_keeps_short_titles_and_cuts_long_ones() {
    assert_eq!(tab_strip_title("Example Domain"), "Example Domain");
    assert_eq!(tab_strip_title("abcdefghijklmnopqrstuvwx"), "abcdefghijklmnopqrstuvwx");
    assert_eq!(tab_strip_title("abcdefghijklmnopqrstuvwxy"), "abcdefghijklmnopqrstu...");
    assert_eq!(tab_strip_title(""), "");
}

#[test]
fn tab_strip_title_counts_bytes_but_cuts_characters() {
    // Nine two-byte characters are 18 bytes: kept whole.
    assert_eq!(tab_strip_title("ééééééééé"), "ééééééééé");
    // Thirteen two-byte characters are 26 bytes, but fewer than 21 characters: all kept, then the ellipsis.
    assert_eq!(tab_strip_title("ééééééééééééé"), "ééééééééééééé...");
    let long = "é".repeat(30);
    assert_eq!(tab_strip_title(&long), format!("{}...", "é".repeat(21)));
}

#[test]
fn shorten_title_with_zero_kept_characters() {
    assert_eq!(shorten_title("abcdef", 3, 0), "...");
    assert_eq!(shorten_title("abc", 3, 0), "abc");
}

#[test]
fn bookmark_chip_label_cases() {
    assert_eq!(bookmark_chip_label("Rust", "https://www.rust-lang.org/"), "Rust");
    assert_eq!(
        bookmark_chip_label("A rather long bookmark title", "https://example.com"),
        "A rather long boo..."
    );
    assert_eq!(bookmark_chip_label("", "https://www.rust-lang.org/"), "rust-lang.org/");
    assert_eq!(bookmark_chip_label("exactly twenty bytes", "https://example.com"), "exactly twenty bytes");
}

#[test]
fn search_row_label_cases() {
    assert_eq!(search_row_label("cats"), "Search Google for \"cats\"");
    let eighty = "q".repeat(80);
    assert_eq!(search_row_label(&eighty), format!("Search Google for \"{eighty}\""));
    let long = "q".repeat(81);
    assert_eq!(search_row_label(&long), format!("Search Google for \"{}...\"", "q".repeat(77)));
    let mixed = format!("{}é{}", "a".repeat(75), "b".repeat(10));
    assert_eq!(search_row_label(&mixed), format!("Search Google for \"{}é...\"", "a".repeat(75)));
}

#[test]
fn pinned_tabs_are_laid_out_three_to_a_row() {
    assert!(pinned_tab_rows(0).is_empty());
    assert_eq!(pinned_tab_rows(2), vec![vec![0, 1]]);
    assert_eq!(pinned_tab_rows(3), vec![vec![0, 1, 2]]);
    assert_eq!(pinned_tab_rows(7), vec![vec![0, 1, 2], vec![3, 4, 5], vec![6]]);
}

#[test]
fn pinned_count_counts_pinned_tabs() {
    let mut strip = TabStrip::new(tab(1));
    strip.add_tab(tab(2));
    strip.add_tab(tab(3));
    assert_eq!(strip.pinned_count(), 0);
    strip.set_pinned(1, true);
    strip.set_pinned(2, true);
    assert_eq!(strip.pinned_count(), 2);
    assert_eq!(pinned_tab_rows(strip.pinned_count()), vec![vec![0, 1]]);
}
