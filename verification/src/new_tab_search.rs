//! The search box of the new tab page: its text, the history suggestions shown under it,
//! and the row selected with the arrow keys.

use vstd::prelude::*;
use crate::text::copy_string;
use crate::url_input::{spec_text_to_url, text_to_url};
use crate::trimming::{is_trim_of, trim, lemma_trim_unique};

verus! {

/// A history entry offered under the search box.
#[derive(Clone, Debug, PartialEq, Eq)]
pub struct NewTabSuggestion {
    pub url: String,
    pub title: String,
}

/// The new tab page's search box.
pub struct NewTabSearch {
    pub text: String,
    pub suggestions: Vec<NewTabSuggestion>,
    pub selected_index: Option<usize>,
}

impl NewTabSearch {
    /// The number of rows under the box: a search row while there is text, then the suggestions.
    pub open spec fn spec_row_count(self) -> int {
        self.suggestions.len() + if self.text@.len() > 0 { 1int } else { 0int }
    }

    /// The URL a row opens: the search row searches for the text, a suggestion opens its URL.
    pub open spec fn spec_row_url(self, index: int) -> Option<Seq<char>> {
        let first = if self.text@.len() > 0 { 1int } else { 0int };
        if self.text@.len() > 0 && index == 0 {
            Some(spec_text_to_url(self.text@))
        } else if 0 <= index - first < self.suggestions.len() {
            Some(self.suggestions@[index - first].url@)
        } else {
            None
        }
    }

    /// An empty box with no suggestions.
    pub fn new() -> (s: Self)
        ensures
            s.text@ == Seq::<char>::empty(),
            s.suggestions@ == Seq::<NewTabSuggestion>::empty(),
            s.selected_index is None,
    {
        NewTabSearch { text: String::new(), suggestions: Vec::new(), selected_index: None }
    }

    /// Replaces the text. A new text drops the suggestions and the selection; the result says
    /// whether the history is to be searched for it (it is new and not empty).
    pub fn set_text(&mut self, text: String) -> (search: bool)
        ensures
            old(self).text@ == text@ ==> final(self).text@ == old(self).text@
                && final(self).suggestions@ == old(self).suggestions@
                && final(self).selected_index == old(self).selected_index
                && !search,
            old(self).text@ != text@ ==> final(self).text@ == text@
                && final(self).suggestions@ == Seq::<NewTabSuggestion>::empty()
                && final(self).selected_index is None
                && search == (text@.len() > 0),
    {
        if crate::text::str_eq(self.text.as_str(), text.as_str()) {
            return false;
        }
        let search = !text.as_str().is_empty();
        self.text = text;
        self.selected_index = None;
        self.suggestions = Vec::new();
        search
    }

    /// The number of rows under the box.
    pub fn row_count(&self) -> (n: usize)
        requires
            self.suggestions.len() < usize::MAX,
        ensures
            n == self.spec_row_count(),
    {
        if !self.text.as_str().is_empty() {
            self.suggestions.len() + 1
        } else {
            self.suggestions.len()
        }
    }

    /// Moves the selection up a row, from the top (or from no selection) to the bottom.
    pub fn move_up(&mut self)
        requires
            old(self).suggestions.len() < usize::MAX,
        ensures
            final(self).text == old(self).text,
            final(self).suggestions == old(self).suggestions,
            old(self).spec_row_count() == 0 ==> final(self).selected_index == old(self).selected_index,
            old(self).spec_row_count() > 0 ==> final(self).selected_index == Some(match old(self).selected_index {
                Some(i) => if i == 0 { (old(self).spec_row_count() - 1) as usize } else { (i - 1) as usize },
                None => (old(self).spec_row_count() - 1) as usize,
            }),
    {
        let total = self.row_count();
        if total == 0 {
            return;
        }
        self.selected_index = Some(match self.selected_index {
            Some(i) => if i == 0 { total - 1 } else { i - 1 },
            None => total - 1,
        });
    }

    /// Moves the selection down a row, from the bottom back to the top.
    pub fn move_down(&mut self)
        requires
            old(self).suggestions.len() < usize::MAX,
        ensures
            final(self).text == old(self).text,
            final(self).suggestions == old(self).suggestions,
            old(self).spec_row_count() == 0 ==> final(self).selected_index == old(self).selected_index,
            old(self).spec_row_count() > 0 ==> final(self).selected_index == Some(match old(self).selected_index {
                Some(i) => ((i + 1) % old(self).spec_row_count()) as usize,
                None => 0usize,
            }),
    {
        let total = self.row_count();
        if total == 0 {
            return;
        }
        self.selected_index = Some(match self.selected_index {
            Some(i) => if i < total - 1 { i + 1 } else { (i - (total - 1)) % total },
            None => 0,
        });
        proof {
            if let Some(i) = old(self).selected_index {
                if i >= total - 1 {
                    assert((i - (total - 1)) % (total as int) == (i + 1) % (total as int)) by {
                        vstd::arithmetic::div_mod::lemma_mod_sub_multiples_vanish((i + 1) as int, total as int);
                    }
                } else {
                    assert((i + 1) % (total as int) == i + 1) by {
                        vstd::arithmetic::div_mod::lemma_small_mod((i + 1) as nat, total as nat);
                    }
                }
            }
        }
    }

    /// Drops the suggestions and the selection (on cancel).
    pub fn cancel(&mut self)
        ensures
            final(self).text == old(self).text,
            final(self).suggestions@ == Seq::<NewTabSuggestion>::empty(),
            final(self).selected_index is None,
    {
        self.suggestions = Vec::new();
        self.selected_index = None;
    }

    /// Drops the suggestions and the selection (when the box loses focus).
    pub fn blur(&mut self)
        ensures
            final(self).text == old(self).text,
            final(self).suggestions@ == Seq::<NewTabSuggestion>::empty(),
            final(self).selected_index is None,
    {
        self.cancel();
    }

    /// Shows the suggestions found for `query`, unless the text has changed since.
    pub fn receive_suggestions(&mut self, query: &str, suggestions: Vec<NewTabSuggestion>)
        ensures
            final(self).text == old(self).text,
            final(self).selected_index == old(self).selected_index,
            final(self).suggestions@ == (if query@ == old(self).text@ { suggestions@ } else { old(self).suggestions@ }),
    {
        if crate::text::str_eq(self.text.as_str(), query) {
            self.suggestions = suggestions;
        }
    }

    /// The URL a row opens.
    pub fn url_for_row(&self, index: usize) -> (r: Option<String>)
        ensures
            crate::text::opt_view(r) == self.spec_row_url(index as int),
    {
        let first: usize = if !self.text.as_str().is_empty() { 1 } else { 0 };
        if first == 1 && index == 0 {
            return Some(text_to_url(self.text.as_str()));
        }
        let k = index - first;
        if k < self.suggestions.len() {
            Some(copy_string(&self.suggestions[k].url))
        } else {
            None
        }
    }

    /// Submits `text`: opens the selected row, or, without one (or when it opens nothing), the
    /// URL for the trimmed text. Nothing opens for blank text with no selection. Opening
    /// clears the box.
    pub fn submit(&mut self, text: &str) -> (r: Option<String>)
        ensures
            old(self).selected_index is None && (forall|t: Seq<char>| is_trim_of(t, text@) ==> t.len() == 0) ==> r is None
                && final(self).text == old(self).text
                && final(self).suggestions == old(self).suggestions
                && final(self).selected_index is None,
            r is Some ==> final(self).text@ == Seq::<char>::empty()
                && final(self).suggestions@ == Seq::<NewTabSuggestion>::empty()
                && final(self).selected_index is None,
            old(self).selected_index matches Some(i) ==> (old(self).spec_row_url(i as int) is Some
                ==> crate::text::opt_view(r) == old(self).spec_row_url(i as int)),
            old(self).selected_index matches Some(i) ==> (old(self).spec_row_url(i as int) is None
                ==> (r matches Some(u) && exists|t: Seq<char>| is_trim_of(t, text@) && u@ == spec_text_to_url(t))),
            (old(self).selected_index is None && (exists|t: Seq<char>| is_trim_of(t, text@) && t.len() > 0))
                ==> (r matches Some(u) && exists|t: Seq<char>| is_trim_of(t, text@) && t.len() > 0 && u@ == spec_text_to_url(t)),
    {
        let url = match self.selected_index {
            Some(i) => match self.url_for_row(i) {
                Some(u) => u,
                None => {
                    let q = trim(text);
                    text_to_url(q.as_str())
                },
            },
            None => {
                let q = trim(text);
                if q.as_str().is_empty() {
                    proof { lemma_trim_unique(q@, text@); }
                    return None;
                }
                proof { lemma_trim_unique(q@, text@); }
                text_to_url(q.as_str())
            },
        };
        self.text = String::new();
        self.suggestions = Vec::new();
        self.selected_index = None;
        Some(url)
    }
}

} // verus!
