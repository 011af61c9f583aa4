//! The browser's visit history.

use vstd::prelude::*;
use crate::text::{owned, str_eq, starts_with, strip_prefix, seq_starts_with};

verus! {

/// The most entries a visit adds up to before the least recently visited one is dropped.
pub const MAX_ENTRIES: usize = 2000;

#[derive(Clone, Debug, PartialEq, Eq)]
pub struct HistoryEntry {
    pub url: String,
    pub title: String,
    pub visit_count: u32,
    pub last_visited_ms: u64,
}

/// What a history entry holds: URL, title, visit count and time of the last visit.
pub type EntryView = (Seq<char>, Seq<char>, u32, u64);

pub open spec fn entry_view(e: HistoryEntry) -> EntryView {
    (e.url@, e.title@, e.visit_count, e.last_visited_ms)
}

/// Index `m` holds the earliest last visit, and no earlier index holds one as early.
pub open spec fn is_first_oldest(s: Seq<EntryView>, m: int) -> bool {
    &&& 0 <= m < s.len()
    &&& forall|j: int| 0 <= j < s.len() ==> s[m].3 <= s[j].3
    &&& forall|j: int| 0 <= j < m ==> s[m].3 < s[j].3
}

/// `s` with the element at `m` replaced by the last one, and the last one dropped (`Vec::swap_remove`).
pub open spec fn swap_removed<T>(s: Seq<T>, m: int) -> Seq<T> {
    s.update(m, s.last()).drop_last()
}

/// The URLs are pairwise different.
pub open spec fn urls_distinct(s: Seq<EntryView>) -> bool {
    forall|i: int, j: int| 0 <= i < j < s.len() ==> s[i].0 != s[j].0
}

/// Whether a visit to `url` is recorded at all.
pub open spec fn is_recordable(url: Seq<char>) -> bool {
    url.len() != 0 && url != "about:blank"@
}

/// The first index whose URL is `url`.
pub open spec fn url_index(s: Seq<EntryView>, url: Seq<char>) -> Option<int> {
    crate::search::first_match(s, |e: EntryView| e.0 == url)
}

/// The history after a visit to `url` titled `title` at time `now`, when the URL is already listed at `i`.
pub open spec fn revisited(s: Seq<EntryView>, i: int, title: Seq<char>, now: u64) -> Seq<EntryView> {
    s.update(i, (s[i].0, if title.len() == 0 { s[i].1 } else { title }, (s[i].2 + 1) as u32, now))
}

/// Visits to `url`, when listed, can be counted without overflow.
pub open spec fn can_count_visit(s: Seq<EntryView>, url: Seq<char>) -> bool {
    forall|i: int| 0 <= i < s.len() && (#[trigger] s[i]).0 == url ==> s[i].2 < u32::MAX
}

/// The browser's visit history, in the order URLs were first visited (subject to eviction).
pub struct BrowserHistory {
    entries: Vec<HistoryEntry>,
}

impl View for BrowserHistory {
    type V = Seq<EntryView>;

    closed spec fn view(&self) -> Seq<EntryView> {
        self.entries@.map_values(|e: HistoryEntry| entry_view(e))
    }
}

/// The current time in milliseconds since the Unix epoch, or 0 when the clock is before it
/// (`std::time::SystemTime::now`). Nothing is stated of the result: it is the clock's reading.
#[verifier::external_body]
fn now_ms() -> u64 {
    std::time::SystemTime::now()
        .duration_since(std::time::UNIX_EPOCH)
        .map(|d| d.as_millis() as u64)
        .unwrap_or(0)
}

impl BrowserHistory {
    /// A history holding the given entries, such as those restored from a saved session.
    pub fn with_entries(entries: Vec<HistoryEntry>) -> (h: Self)
        ensures
            h@ == entries@.map_values(|e: HistoryEntry| entry_view(e)),
    {
        BrowserHistory { entries }
    }

    /// The entries, in order.
    pub fn entries(&self) -> (r: &[HistoryEntry])
        ensures
            r@.map_values(|e: HistoryEntry| entry_view(e)) == self@,
    {
        self.entries.as_slice()
    }

    /// Removes every entry.
    pub fn clear(&mut self)
        ensures
            final(self)@ == Seq::<EntryView>::empty(),
    {
        self.entries.clear();
        assert(self@ =~= Seq::<EntryView>::empty());
    }

    /// Records a visit to `url` titled `title` now.
    pub fn record_visit(&mut self, url: &str, title: &str)
        requires
            is_recordable(url@) ==> can_count_visit(old(self)@, url@),
        ensures
            !is_recordable(url@) ==> final(self)@ == old(self)@,
            is_recordable(url@) ==> exists|now: u64| final(self)@ == Self::spec_record_visit(old(self)@, url@, title@, now),
    {
        let now = now_ms();
        self.record_visit_at(url, title, now);
    }

    /// The history after a visit to `url` titled `title` at time `now`.
    pub open spec fn spec_record_visit(s: Seq<EntryView>, url: Seq<char>, title: Seq<char>, now: u64) -> Seq<EntryView> {
        if !is_recordable(url) {
            s
        } else {
            match url_index(s, url) {
                Some(i) => revisited(s, i, title, now),
                None => {
                    let pushed = s.push((url, title, 1u32, now));
                    if pushed.len() > MAX_ENTRIES {
                        swap_removed(pushed, choose|m: int| is_first_oldest(pushed, m))
                    } else {
                        pushed
                    }
                },
            }
        }
    }

    fn find_url(&self, url: &str) -> (r: Option<usize>)
        ensures
            match r {
                Some(i) => i < self.entries.len() && url_index(self@, url@) == Some(i as int) && self@[i as int].0 == url@,
                None => url_index(self@, url@) is None,
            },
    {
        let ghost p = |e: EntryView| e.0 == url@;
        let mut i: usize = 0;
        while i < self.entries.len()
            invariant
                i <= self.entries.len(),
                p == (|e: EntryView| e.0 == url@),
                forall|j: int| 0 <= j < i ==> !p(self@[j]),
            decreases self.entries.len() - i,
        {
            if str_eq(self.entries[i].url.as_str(), url) {
                proof { crate::search::lemma_first_match_found(self@, p, i as int); }
                return Some(i);
            }
            i = i + 1;
        }
        proof { crate::search::lemma_first_match_absent(self@, p); }
        None
    }

    /// The first index holding the earliest last visit, of a non-empty history.
    fn first_oldest(&self) -> (m: usize)
        requires
            self.entries.len() > 0,
        ensures
            is_first_oldest(self@, m as int),
    {
        let mut m: usize = 0;
        let mut i: usize = 1;
        while i < self.entries.len()
            invariant
                1 <= i <= self.entries.len(),
                m < i,
                forall|j: int| 0 <= j < i ==> self@[m as int].3 <= self@[j].3,
                forall|j: int| 0 <= j < m ==> self@[m as int].3 < self@[j].3,
            decreases self.entries.len() - i,
        {
            if self.entries[i].last_visited_ms < self.entries[m].last_visited_ms {
                m = i;
            }
            i = i + 1;
        }
        m
    }

    /// Records a visit to `url` titled `title` at time `now_ms`.
    pub fn record_visit_at(&mut self, url: &str, title: &str, now_ms: u64)
        requires
            is_recordable(url@) ==> can_count_visit(old(self)@, url@),
        ensures
            final(self)@ == Self::spec_record_visit(old(self)@, url@, title@, now_ms),
    {
        if url.is_empty() || str_eq(url, "about:blank") {
            return;
        }
        match self.find_url(url) {
            Some(i) => {
                let mut entries: Vec<HistoryEntry> = Vec::new();
                std::mem::swap(&mut entries, &mut self.entries);
                let old_entry = &entries[i];
                assert(old(self)@[i as int] == entry_view(*old_entry));
                assert(entry_view(*old_entry).0 == url@);
                let new_title = if title.is_empty() { old_entry.title.clone() } else { owned(title) };
                let updated = HistoryEntry {
                    url: old_entry.url.clone(),
                    title: new_title,
                    visit_count: old_entry.visit_count + 1,
                    last_visited_ms: now_ms,
                };
                entries.set(i, updated);
                self.entries = entries;
                assert(self@ =~= revisited(old(self)@, i as int, title@, now_ms));
            },
            None => {
                self.entries.push(HistoryEntry {
                    url: owned(url),
                    title: owned(title),
                    visit_count: 1,
                    last_visited_ms: now_ms,
                });
                let ghost pushed = old(self)@.push((url@, title@, 1u32, now_ms));
                assert(self@ =~= pushed);
                if self.entries.len() > MAX_ENTRIES {
                    let m = self.first_oldest();
                    self.entries.swap_remove(m);
                    proof {
                        let k = choose|k: int| is_first_oldest(pushed, k);
                        assert(is_first_oldest(pushed, k));
                        if k < m {
                            assert(pushed[m as int].3 < pushed[k].3);
                        } else if k > m {
                            assert(pushed[k].3 < pushed[m as int].3);
                        }
                        assert(self@ =~= swap_removed(pushed, m as int));
                    }
                }
            },
        }
    }
}

/// The lowercase form of `s` (`str::to_lowercase`).
pub uninterp spec fn unicode_lowercase(s: Seq<char>) -> Seq<char>;

/// `s` in lowercase (`str::to_lowercase`); the result is named, not stated: the Unicode
/// lowercase mapping takes tables to state.
#[verifier::external_body]
fn to_lowercase(s: &str) -> (r: String)
    ensures
        r@ == unicode_lowercase(s@),
{
    s.to_lowercase()
}

/// A lowercase URL starts with a lowercase query, itself or after its `https://` or `http://`.
pub open spec fn spec_lowered_url_has_prefix(url: Seq<char>, query: Seq<char>) -> bool {
    ||| seq_starts_with(url, query)
    ||| (seq_starts_with(url, "https://"@) && seq_starts_with(url.skip(8), query))
    ||| (seq_starts_with(url, "http://"@) && seq_starts_with(url.skip(7), query))
}

/// Whether a URL and a query, both already in lowercase, match by prefix.
pub fn lowered_url_has_prefix(url: &str, query: &str) -> (r: bool)
    ensures
        r == spec_lowered_url_has_prefix(url@, query@),
{
    if starts_with(url, query) {
        return true;
    }
    match strip_prefix(url, "https://") {
        Some(rest) => {
            proof { reveal_strlit("https://"); assert(rest@ =~= url@.skip(8)); }
            if starts_with(rest.as_str(), query) {
                return true;
            }
        },
        None => {},
    }
    match strip_prefix(url, "http://") {
        Some(rest) => {
            proof { reveal_strlit("http://"); assert(rest@ =~= url@.skip(7)); }
            starts_with(rest.as_str(), query)
        },
        None => false,
    }
}

/// Whether a history URL matches a search query by prefix, ignoring case: such entries
/// rank higher in history search.
pub fn url_matches_query_prefix(url: &str, query: &str) -> (r: bool)
    ensures
        r == spec_lowered_url_has_prefix(unicode_lowercase(url@), unicode_lowercase(query@)),
{
    let url_lower = to_lowercase(url);
    let query_lower = to_lowercase(query);
    lowered_url_has_prefix(url_lower.as_str(), query_lower.as_str())
}

} // verus!
