//! The address bar's suggestion list.

use vstd::prelude::*;
use crate::url_input::{looks_like_url, spec_looks_like_url, text_to_url, spec_text_to_url, search_url};


verus! {

/// One row of the suggestion list.
#[derive(Clone, Debug, PartialEq, Eq)]
pub enum OmniboxSuggestion {
    HistoryItem { url: String, title: String },
    RawUrl(String),
    SearchQuery(String),
}

/// The URL a suggestion leads to.
pub open spec fn spec_suggestion_url(s: OmniboxSuggestion) -> Seq<char> {
    match s {
        OmniboxSuggestion::HistoryItem { url, .. } => url@,
        OmniboxSuggestion::RawUrl(url) => spec_text_to_url(url@),
        OmniboxSuggestion::SearchQuery(query) => search_url(query@),
    }
}

/// Serializes text as a form value (`url::form_urlencoded::byte_serialize`), as the
/// address module does for searches.
fn search_for(query: &str) -> (r: String)
    ensures
        r@ == search_url(query@),
{
    let mut r = crate::text::owned("https://www.google.com/search?q=");
    let encoded = crate::url_input::form_urlencoded_text(query);
    crate::text::push_str(&mut r, encoded.as_str());
    r
}

impl OmniboxSuggestion {
    /// The URL the suggestion leads to.
    pub fn url_or_search(&self) -> (r: String)
        ensures
            r@ == spec_suggestion_url(*self),
    {
        match self {
            OmniboxSuggestion::HistoryItem { url, .. } => url.clone(),
            OmniboxSuggestion::RawUrl(url) => text_to_url(url.as_str()),
            OmniboxSuggestion::SearchQuery(query) => search_for(query.as_str()),
        }
    }
}

/// The suggestion list: the rows, the selected row, and whether the list is open.
pub struct OmniboxDropdown {
    suggestions: Vec<OmniboxSuggestion>,
    selected_index: usize,
    is_open: bool,
}

impl OmniboxDropdown {
    /// The selection names a row, or is the first position of an empty list.
    #[verifier::type_invariant]
    closed spec fn well_formed(self) -> bool {
        self.selected_index < self.suggestions.len() || self.selected_index == 0
    }

    pub closed spec fn spec_suggestions(&self) -> Seq<OmniboxSuggestion> {
        self.suggestions@
    }

    pub closed spec fn spec_selected(&self) -> int {
        self.selected_index as int
    }

    pub closed spec fn spec_is_open(&self) -> bool {
        self.is_open
    }

    /// A closed, empty list.
    pub fn new() -> (d: Self)
        ensures
            d.spec_suggestions().len() == 0,
            d.spec_selected() == 0,
            !d.spec_is_open(),
    {
        OmniboxDropdown { suggestions: Vec::new(), selected_index: 0, is_open: false }
    }

    pub fn suggestions(&self) -> (r: &Vec<OmniboxSuggestion>)
        ensures
            r@ == self.spec_suggestions(),
    {
        &self.suggestions
    }

    pub fn selected_index(&self) -> (r: usize)
        ensures
            r == self.spec_selected(),
    {
        self.selected_index
    }

    pub fn is_open(&self) -> (r: bool)
        ensures
            r == self.spec_is_open(),
    {
        self.is_open
    }

    /// Fills and opens the list for a query: a search for it, the query as an address when it
    /// reads as one, then the history matches (URL, title); the first row is selected.
    pub fn build_suggestions(&mut self, query: String, history_matches: Vec<(String, String)>)
        ensures
            final(self).spec_is_open(),
            final(self).spec_selected() == 0,
            final(self).spec_suggestions().len() == history_matches.len() + 1 + (if spec_looks_like_url(query@) { 1int } else { 0 }),
            final(self).spec_suggestions()[0] == OmniboxSuggestion::SearchQuery(query),
            spec_looks_like_url(query@) ==> final(self).spec_suggestions()[1] == OmniboxSuggestion::RawUrl(query),
            forall|i: int| 0 <= i < history_matches.len() ==>
                final(self).spec_suggestions()[i + 1 + (if spec_looks_like_url(query@) { 1int } else { 0 })] == (OmniboxSuggestion::HistoryItem {
                    url: #[trigger] history_matches@[i].0,
                    title: history_matches@[i].1,
                }),
    {
        let mut rows: Vec<OmniboxSuggestion> = Vec::new();
        let as_url = looks_like_url(query.as_str());
        let q2 = query.clone();
        rows.push(OmniboxSuggestion::SearchQuery(q2));
        if as_url {
            rows.push(OmniboxSuggestion::RawUrl(query));
        }
        let ghost base = rows@;
        let ghost n = base.len();
        let ghost hm = history_matches@;
        let mut i: usize = 0;
        while i < history_matches.len()
            invariant
                i <= history_matches.len(),
                hm == history_matches@,
                rows@.len() == n + i,
                n == base.len(),
                forall|j: int| 0 <= j < n ==> rows@[j] == base[j],
                forall|j: int| 0 <= j < i ==> #[trigger] rows@[n + j] == (OmniboxSuggestion::HistoryItem {
                    url: hm[j].0,
                    title: hm[j].1,
                }),
            decreases history_matches.len() - i,
        {
            let url = history_matches[i].0.clone();
            let title = history_matches[i].1.clone();
            rows.push(OmniboxSuggestion::HistoryItem { url, title });
            i = i + 1;
        }
        proof {
            assert(rows@[0] == base[0]);
            if as_url {
                assert(rows@[1] == base[1]);
            }
            assert forall|k: int| 0 <= k < hm.len() implies rows@[k + 1 + (if spec_looks_like_url(query@) { 1int } else { 0 })] == (OmniboxSuggestion::HistoryItem {
                url: #[trigger] hm[k].0,
                title: hm[k].1,
            }) by {
                assert(rows@[n + k] == (OmniboxSuggestion::HistoryItem { url: hm[k].0, title: hm[k].1 }));
            }
        }
        *self = OmniboxDropdown { suggestions: rows, selected_index: 0, is_open: true };
    }

    /// Moves the selection up, wrapping from the first row to the last.
    pub fn move_up(&mut self)
        ensures
            final(self).spec_suggestions() == old(self).spec_suggestions(),
            final(self).spec_is_open() == old(self).spec_is_open(),
            (!old(self).spec_is_open() || old(self).spec_suggestions().len() == 0) ==> final(self).spec_selected() == old(self).spec_selected(),
            (old(self).spec_is_open() && old(self).spec_suggestions().len() > 0) ==> final(self).spec_selected() == (
                if old(self).spec_selected() == 0 { old(self).spec_suggestions().len() - 1 } else { old(self).spec_selected() - 1 }),
    {
        if !self.is_open || self.suggestions.len() == 0 {
            return;
        }
        proof { use_type_invariant(&*self); }
        if self.selected_index == 0 {
            self.selected_index = self.suggestions.len() - 1;
        } else {
            self.selected_index = self.selected_index - 1;
        }
    }

    /// Moves the selection down, wrapping from the last row to the first.
    pub fn move_down(&mut self)
        ensures
            final(self).spec_suggestions() == old(self).spec_suggestions(),
            final(self).spec_is_open() == old(self).spec_is_open(),
            (!old(self).spec_is_open() || old(self).spec_suggestions().len() == 0) ==> final(self).spec_selected() == old(self).spec_selected(),
            (old(self).spec_is_open() && old(self).spec_suggestions().len() > 0) ==> final(self).spec_selected()
                == (old(self).spec_selected() + 1) % (old(self).spec_suggestions().len() as int),
    {
        if !self.is_open || self.suggestions.len() == 0 {
            return;
        }
        proof { use_type_invariant(&*self); }
        self.selected_index = (self.selected_index + 1) % self.suggestions.len();
    }

    /// Empties and closes the list.
    pub fn close(&mut self)
        ensures
            final(self).spec_suggestions().len() == 0,
            final(self).spec_selected() == 0,
            !final(self).spec_is_open(),
    {
        *self = OmniboxDropdown { suggestions: Vec::new(), selected_index: 0, is_open: false };
    }

    /// The URL that confirming leads to while the list is open: that of the selected row,
    /// or of the last row when the selection lies past the end.
    pub fn confirmed_url(&self) -> (r: Option<String>)
        ensures
            !(self.spec_is_open() && self.spec_suggestions().len() > 0) ==> r is None,
            (self.spec_is_open() && self.spec_suggestions().len() > 0) ==> (r matches Some(u) && u@ == spec_suggestion_url(
                self.spec_suggestions()[if self.spec_selected() < self.spec_suggestions().len() - 1 {
                    self.spec_selected()
                } else {
                    self.spec_suggestions().len() - 1
                }])),
    {
        if !self.is_open || self.suggestions.len() == 0 {
            return None;
        }
        let last = self.suggestions.len() - 1;
        let index = if self.selected_index < last { self.selected_index } else { last };
        Some(self.suggestions[index].url_or_search())
    }

    /// Where confirming the address bar leads: the selected suggestion while the list is open
    /// and not empty; otherwise the URL for the typed text, or nowhere when nothing is typed.
    pub fn confirm_target(&self, editor_text: &str) -> (r: Option<String>)
        ensures
            (self.spec_is_open() && self.spec_suggestions().len() > 0) ==> (r matches Some(u) && u@ == spec_suggestion_url(
                self.spec_suggestions()[if self.spec_selected() < self.spec_suggestions().len() - 1 {
                    self.spec_selected()
                } else {
                    self.spec_suggestions().len() - 1
                }])),
            !(self.spec_is_open() && self.spec_suggestions().len() > 0) ==> match r {
                Some(u) => editor_text@.len() > 0 && u@ == spec_text_to_url(editor_text@),
                None => editor_text@.len() == 0,
            },
    {
        match self.confirmed_url() {
            Some(url) => Some(url),
            None => if editor_text.is_empty() {
                None
            } else {
                Some(text_to_url(editor_text))
            },
        }
    }
}

} // verus!
