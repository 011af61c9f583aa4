//! The browser's tab list: which tab is active, pinning, closing, and reopening closed tabs.

use vstd::prelude::*;
use crate::text::str_eq;

verus! {

/// The most closed tabs kept for reopening.
pub const MAX_CLOSED_TABS: usize = 20;

/// A tab, identified by a number unique within the strip.
#[derive(Clone, Copy, Debug, PartialEq, Eq, Structural)]
pub struct TabEntry {
    pub id: u64,
    pub pinned: bool,
}

/// A closed tab, as kept for reopening.
#[derive(Clone, Debug, PartialEq, Eq)]
pub struct ClosedTab {
    pub url: String,
    pub title: String,
    pub is_new_tab_page: bool,
    pub is_pinned: bool,
    pub favicon_url: Option<String>,
}

/// No two tabs share an identifier.
pub open spec fn ids_distinct(s: Seq<TabEntry>) -> bool {
    forall|i: int, j: int| 0 <= i < j < s.len() ==> s[i].id != s[j].id
}

/// The position of the tab with the given identifier.
pub open spec fn index_of_id(s: Seq<TabEntry>, id: u64) -> int {
    choose|i: int| 0 <= i < s.len() && s[i].id == id
}

/// Pinned tabs first, each group in its original order (a stable sort on "not pinned").
pub open spec fn pinned_first(s: Seq<TabEntry>) -> Seq<TabEntry> {
    s.filter(|t: TabEntry| t.pinned) + s.filter(|t: TabEntry| !t.pinned)
}

/// The first unpinned tab after `active`, else the nearest unpinned tab before it.
pub open spec fn next_unpinned(s: Seq<TabEntry>, active: int) -> Option<int> {
    if exists|i: int| active < i < s.len() && !s[i].pinned {
        Some(choose|i: int| active < i < s.len() && !s[i].pinned && forall|j: int| active < j < i ==> s[j].pinned)
    } else if exists|i: int| 0 <= i < active && i < s.len() && !s[i].pinned {
        Some(choose|i: int| 0 <= i < active && i < s.len() && !s[i].pinned && forall|j: int| i < j < active ==> s[j].pinned)
    } else {
        None
    }
}

/// The active index after the tab at `index` is removed from a strip of `len` tabs.
pub open spec fn active_after_removal(len: int, active: int, index: int) -> int {
    if index < active {
        active - 1
    } else if index == active && active >= len - 1 {
        len - 2
    } else {
        active
    }
}

/// The closed-tab list after keeping `closed` for reopening: unchanged for a tab that showed
/// nothing (the new tab page or a blank address); else `closed` goes last, and the oldest
/// kept one is dropped beyond `MAX_CLOSED_TABS`.
pub open spec fn closed_list_after(list: Seq<ClosedTab>, closed: ClosedTab) -> Seq<ClosedTab> {
    if closed.url@ == "glass://newtab"@ || closed.url@.len() == 0 {
        list
    } else if list.len() + 1 > MAX_CLOSED_TABS {
        list.push(closed).drop_first()
    } else {
        list.push(closed)
    }
}

/// The tab list of a browser window.
pub struct TabStrip {
    tabs: Vec<TabEntry>,
    active_tab_index: usize,
    closed_tabs: Vec<ClosedTab>,
}

impl TabStrip {
    /// There is always a tab, the active index names one, identifiers are unique, and at
    /// most `MAX_CLOSED_TABS` closed tabs are kept.
    pub closed spec fn well_formed(&self) -> bool {
        &&& self.tabs.len() > 0
        &&& self.active_tab_index < self.tabs.len()
        &&& ids_distinct(self.tabs@)
        &&& self.closed_tabs.len() <= MAX_CLOSED_TABS
    }

    pub closed spec fn spec_tabs(&self) -> Seq<TabEntry> {
        self.tabs@
    }

    pub closed spec fn spec_active(&self) -> int {
        self.active_tab_index as int
    }

    pub closed spec fn spec_closed(&self) -> Seq<ClosedTab> {
        self.closed_tabs@
    }

    /// What a well-formed strip guarantees.
    pub proof fn lemma_well_formed(&self)
        requires
            self.well_formed(),
        ensures
            self.spec_tabs().len() > 0,
            0 <= self.spec_active() < self.spec_tabs().len(),
            ids_distinct(self.spec_tabs()),
            self.spec_closed().len() <= MAX_CLOSED_TABS,
    {
    }

    /// A strip with one tab.
    pub fn new(first: TabEntry) -> (s: Self)
        ensures
            s.well_formed(),
            s.spec_tabs() == seq![first],
            s.spec_active() == 0,
            s.spec_closed().len() == 0,
    {
        let mut tabs: Vec<TabEntry> = Vec::new();
        tabs.push(first);
        TabStrip { tabs, active_tab_index: 0, closed_tabs: Vec::new() }
    }

    pub fn tabs(&self) -> (r: &Vec<TabEntry>)
        ensures
            r@ == self.spec_tabs(),
    {
        &self.tabs
    }

    pub fn active_tab_index(&self) -> (r: usize)
        ensures
            r == self.spec_active(),
    {
        self.active_tab_index
    }

    pub fn closed_tabs(&self) -> (r: &Vec<ClosedTab>)
        ensures
            r@ == self.spec_closed(),
    {
        &self.closed_tabs
    }

    fn contains_id(&self, id: u64) -> (r: bool)
        ensures
            r == exists|i: int| 0 <= i < self.spec_tabs().len() && self.spec_tabs()[i].id == id,
    {
        let mut i: usize = 0;
        while i < self.tabs.len()
            invariant
                i <= self.tabs.len(),
                forall|j: int| 0 <= j < i ==> self.tabs@[j].id != id,
            decreases self.tabs.len() - i,
        {
            if self.tabs[i].id == id {
                assert(self.spec_tabs()[i as int].id == id);
                return true;
            }
            i = i + 1;
        }
        false
    }

    /// Opens a tab and makes it active, unless its identifier is already in use.
    pub fn add_tab(&mut self, tab: TabEntry) -> (added: bool)
        requires
            old(self).well_formed(),
        ensures
            final(self).well_formed(),
            added == !(exists|i: int| 0 <= i < old(self).spec_tabs().len() && old(self).spec_tabs()[i].id == tab.id),
            added ==> final(self).spec_tabs() == old(self).spec_tabs().push(tab)
                && final(self).spec_active() == old(self).spec_tabs().len(),
            !added ==> final(self).spec_tabs() == old(self).spec_tabs() && final(self).spec_active() == old(self).spec_active(),
            final(self).spec_closed() == old(self).spec_closed(),
    {
        if self.contains_id(tab.id) {
            return false;
        }
        let mut tabs: Vec<TabEntry> = Vec::new();
        std::mem::swap(&mut tabs, &mut self.tabs);
        tabs.push(tab);
        let n = tabs.len() - 1;
        let mut closed: Vec<ClosedTab> = Vec::new();
        std::mem::swap(&mut closed, &mut self.closed_tabs);
        *self = TabStrip { tabs, active_tab_index: n, closed_tabs: closed };
        true
    }

    /// Opens a tab behind the active one, unless its identifier is already in use.
    pub fn add_tab_in_background(&mut self, tab: TabEntry) -> (added: bool)
        requires
            old(self).well_formed(),
        ensures
            final(self).well_formed(),
            added == !(exists|i: int| 0 <= i < old(self).spec_tabs().len() && old(self).spec_tabs()[i].id == tab.id),
            added ==> final(self).spec_tabs() == old(self).spec_tabs().push(tab),
            !added ==> final(self).spec_tabs() == old(self).spec_tabs(),
            final(self).spec_active() == old(self).spec_active(),
            final(self).spec_closed() == old(self).spec_closed(),
    {
        if self.contains_id(tab.id) {
            return false;
        }
        let mut tabs: Vec<TabEntry> = Vec::new();
        std::mem::swap(&mut tabs, &mut self.tabs);
        tabs.push(tab);
        let mut closed: Vec<ClosedTab> = Vec::new();
        std::mem::swap(&mut closed, &mut self.closed_tabs);
        *self = TabStrip { tabs, active_tab_index: self.active_tab_index, closed_tabs: closed };
        true
    }

    /// Makes the tab at `index` active; answers whether that changed anything.
    pub fn switch_to_tab(&mut self, index: usize) -> (switched: bool)
        requires
            old(self).well_formed(),
        ensures
            final(self).well_formed(),
            switched == (index < old(self).spec_tabs().len() && index != old(self).spec_active()),
            switched ==> final(self).spec_active() == index,
            !switched ==> final(self).spec_active() == old(self).spec_active(),
            final(self).spec_tabs() == old(self).spec_tabs(),
            final(self).spec_closed() == old(self).spec_closed(),
    {
        if index >= self.tabs.len() || index == self.active_tab_index {
            return false;
        }
        self.active_tab_index = index;
        true
    }

    /// The tab the "next tab" command switches to, when there is more than one.
    pub fn next_tab_index(&self) -> (r: Option<usize>)
        requires
            self.well_formed(),
        ensures
            self.spec_tabs().len() <= 1 ==> r is None,
            self.spec_tabs().len() > 1 ==> r == Some(((self.spec_active() + 1) % (self.spec_tabs().len() as int)) as usize),
    {
        if self.tabs.len() <= 1 {
            return None;
        }
        Some((self.active_tab_index + 1) % self.tabs.len())
    }

    /// The tab the "previous tab" command switches to, when there is more than one.
    pub fn previous_tab_index(&self) -> (r: Option<usize>)
        requires
            self.well_formed(),
        ensures
            self.spec_tabs().len() <= 1 ==> r is None,
            self.spec_tabs().len() > 1 ==> r == Some((if self.spec_active() == 0 {
                self.spec_tabs().len() - 1
            } else {
                self.spec_active() - 1
            }) as usize),
    {
        if self.tabs.len() <= 1 {
            return None;
        }
        if self.active_tab_index == 0 {
            Some(self.tabs.len() - 1)
        } else {
            Some(self.active_tab_index - 1)
        }
    }

    /// The tab that becomes active when a pinned tab is put away: the first unpinned tab
    /// after the active one, else the nearest unpinned tab before it.
    pub fn find_next_unpinned_tab(&self) -> (r: Option<usize>)
        requires
            self.well_formed(),
        ensures
            match r {
                Some(x) => next_unpinned(self.spec_tabs(), self.spec_active()) == Some(x as int),
                None => next_unpinned(self.spec_tabs(), self.spec_active()) is None,
            },
    {
        let s = &self.tabs;
        let a = self.active_tab_index;
        let mut i: usize = a + 1;
        while i < s.len()
            invariant
                s@ == self.spec_tabs(),
                a == self.spec_active(),
                a < s.len(),
                a + 1 <= i <= s.len(),
                forall|j: int| a < j < i ==> s@[j].pinned,
            decreases s.len() - i,
        {
            if !s[i].pinned {
                proof {
                    assert(a < i < s.len() && !s@[i as int].pinned);
                    let k = choose|k: int| a < k < s.len() && !s@[k].pinned && forall|j: int| a < j < k ==> s@[j].pinned;
                    if k < i { assert(s@[k].pinned); }
                    if k > i { assert(s@[i as int].pinned); }
                    assert(s@ == self.spec_tabs());
                    assert(next_unpinned(self.spec_tabs(), self.spec_active()) == Some(i as int));
                }
                return Some(i);
            }
            i = i + 1;
        }
        let mut k: usize = a;
        while k > 0
            invariant
                s@ == self.spec_tabs(),
                a == self.spec_active(),
                a < s.len(),
                k <= a,
                forall|j: int| a < j < s.len() ==> s@[j].pinned,
                forall|j: int| k <= j < a ==> s@[j].pinned,
            decreases k,
        {
            k = k - 1;
            if !s[k].pinned {
                proof {
                    assert(!(exists|i: int| a < i < s.len() && !s@[i].pinned));
                    assert(0 <= k < a && k < s.len() && !s@[k as int].pinned);
                    let m = choose|m: int| 0 <= m < a && m < s.len() && !s@[m].pinned && forall|j: int| m < j < a ==> s@[j].pinned;
                    if m < k { assert(s@[k as int].pinned); }
                    if m > k { assert(s@[m].pinned); }
                    assert(s@ == self.spec_tabs());
                    assert(next_unpinned(self.spec_tabs(), self.spec_active()) == Some(k as int));
                }
                return Some(k);
            }
        }
        None
    }

    /// Keeps a closed tab for reopening, unless it showed nothing; the oldest kept one is
    /// dropped beyond `MAX_CLOSED_TABS`.
    pub fn push_closed_tab(&mut self, closed: ClosedTab)
        requires
            old(self).well_formed(),
        ensures
            final(self).well_formed(),
            final(self).spec_closed() == closed_list_after(old(self).spec_closed(), closed),
            final(self).spec_tabs() == old(self).spec_tabs(),
            final(self).spec_active() == old(self).spec_active(),
    {
        if str_eq(closed.url.as_str(), "glass://newtab") || closed.url.as_str().is_empty() {
            return;
        }
        let mut list: Vec<ClosedTab> = Vec::new();
        std::mem::swap(&mut list, &mut self.closed_tabs);
        let ghost before = list@;
        list.push(closed);
        if list.len() > MAX_CLOSED_TABS {
            list.remove(0);
            assert(list@ =~= before.push(closed).drop_first());
        }
        self.closed_tabs = list;
    }

    /// Takes the most recently closed tab, for reopening.
    pub fn pop_closed_tab(&mut self) -> (r: Option<ClosedTab>)
        requires
            old(self).well_formed(),
        ensures
            final(self).well_formed(),
            old(self).spec_closed().len() == 0 ==> r is None && final(self).spec_closed() == old(self).spec_closed(),
            old(self).spec_closed().len() > 0 ==> r == Some(old(self).spec_closed().last())
                && final(self).spec_closed() == old(self).spec_closed().drop_last(),
            final(self).spec_tabs() == old(self).spec_tabs(),
            final(self).spec_active() == old(self).spec_active(),
    {
        let mut list: Vec<ClosedTab> = Vec::new();
        std::mem::swap(&mut list, &mut self.closed_tabs);
        let r = list.pop();
        self.closed_tabs = list;
        r
    }
}


/// Filtering keeps only tabs of the original list and keeps identifiers unique.
pub proof fn lemma_filter_tabs(s: Seq<TabEntry>, p: spec_fn(TabEntry) -> bool)
    requires
        ids_distinct(s),
    ensures
        ids_distinct(s.filter(p)),
        forall|k: int| 0 <= k < s.filter(p).len() ==> s.contains(#[trigger] s.filter(p)[k]),
        forall|k: int| 0 <= k < s.filter(p).len() ==> p(#[trigger] s.filter(p)[k]),
        forall|i: int| 0 <= i < s.len() && p(s[i]) ==> #[trigger] s.filter(p).contains(s[i]),
    decreases s.len(),
{
    reveal_with_fuel(Seq::<TabEntry>::filter, 1);
    s.filter_lemma(p);
    if s.len() > 0 {
        let t = s.drop_last();
        assert(ids_distinct(t));
        lemma_filter_tabs(t, p);
        let f = t.filter(p);
        assert forall|k: int| 0 <= k < f.len() implies (#[trigger] f[k]).id != s.last().id by {
            assert(t.contains(f[k]));
            let i = choose|i: int| 0 <= i < t.len() && t[i] == f[k];
            assert(s[i] == f[k]);
        }
        assert forall|k: int| 0 <= k < s.filter(p).len() implies s.contains(#[trigger] s.filter(p)[k]) by {
            if k < f.len() {
                assert(s.filter(p)[k] == f[k]);
                assert(t.contains(f[k]));
                let i = choose|i: int| 0 <= i < t.len() && t[i] == f[k];
                assert(s[i] == f[k]);
            } else {
                assert(s.filter(p)[k] == s[s.len() - 1]);
            }
        }
    }
}

/// Putting pinned tabs first keeps every tab and keeps identifiers unique.
pub proof fn lemma_pinned_first(s: Seq<TabEntry>)
    requires
        ids_distinct(s),
    ensures
        ids_distinct(pinned_first(s)),
        forall|i: int| 0 <= i < s.len() ==> #[trigger] pinned_first(s).contains(s[i]),
        pinned_first(s).len() == s.len(),
{
    let p = |t: TabEntry| t.pinned;
    let q = |t: TabEntry| !t.pinned;
    lemma_filter_tabs(s, p);
    lemma_filter_tabs(s, q);
    let a = s.filter(p);
    let b = s.filter(q);
    let r = a + b;
    assert forall|i: int, j: int| 0 <= i < j < r.len() implies r[i].id != r[j].id by {
        if j < a.len() {
            assert(r[i] == a[i] && r[j] == a[j]);
        } else if i >= a.len() {
            assert(r[i] == b[i - a.len()] && r[j] == b[j - a.len()]);
        } else {
            let x = a[i];
            let y = b[j - a.len()];
            assert(r[i] == x && r[j] == y);
            assert(p(x));
            assert(q(y));
            assert(s.contains(x));
            assert(s.contains(y));
            let ix = choose|k: int| 0 <= k < s.len() && s[k] == x;
            let iy = choose|k: int| 0 <= k < s.len() && s[k] == y;
            assert(ix != iy);
        }
    }
    assert forall|i: int| 0 <= i < s.len() implies #[trigger] r.contains(s[i]) by {
        if s[i].pinned {
            assert(a.contains(s[i]));
            let k = choose|k: int| 0 <= k < a.len() && a[k] == s[i];
            assert(r[k] == s[i]);
        } else {
            assert(q(s[i]));
            assert(b.contains(s[i]));
            let k = choose|k: int| 0 <= k < b.len() && b[k] == s[i];
            assert(r[k + a.len()] == s[i]);
        }
    }
    lemma_partition_len(s);
}

/// The pinned and the unpinned tabs together are all the tabs.
proof fn lemma_partition_len(s: Seq<TabEntry>)
    ensures
        s.filter(|t: TabEntry| t.pinned).len() + s.filter(|t: TabEntry| !t.pinned).len() == s.len(),
    decreases s.len(),
{
    reveal_with_fuel(Seq::<TabEntry>::filter, 1);
    if s.len() > 0 {
        lemma_partition_len(s.drop_last());
    }
}

/// What closing a tab did.
#[derive(Clone, Copy, Debug, PartialEq, Eq, Structural)]
pub enum CloseOutcome {
    /// The index named no tab; nothing changed.
    Ignored,
    /// The last tab was closed and a fresh one took its place.
    Replaced,
    /// The tab was removed; `was_active` tells whether it was the active one.
    Removed { was_active: bool },
}

impl TabStrip {
    /// The position of the tab with the given identifier, known to be in the strip.
    fn position_of(&self, id: u64) -> (r: usize)
        requires
            exists|i: int| 0 <= i < self.tabs.len() && self.tabs@[i].id == id,
        ensures
            r < self.tabs.len(),
            self.tabs@[r as int].id == id,
    {
        let mut i: usize = 0;
        while i < self.tabs.len()
            invariant
                i <= self.tabs.len(),
                exists|k: int| i <= k < self.tabs.len() && self.tabs@[k].id == id,
            decreases self.tabs.len() - i,
        {
            if self.tabs[i].id == id {
                return i;
            }
            i = i + 1;
        }
        i
    }

    /// Closes the tab at `index`, whose state for reopening is `closed`, and keeps that state
    /// for reopening (as `push_closed_tab` does). The last remaining tab is replaced by
    /// `replacement`; when another tab goes, the active index follows the tab it named, or the
    /// tab that took the closed active tab's place (the new last one when it was last).
    pub fn close_tab_at(&mut self, index: usize, closed: ClosedTab, replacement: TabEntry) -> (outcome: CloseOutcome)
        requires
            old(self).well_formed(),
        ensures
            final(self).well_formed(),
            index >= old(self).spec_tabs().len() ==> outcome == CloseOutcome::Ignored
                && final(self).spec_tabs() == old(self).spec_tabs() && final(self).spec_active() == old(self).spec_active()
                && final(self).spec_closed() == old(self).spec_closed(),
            index < old(self).spec_tabs().len() ==> final(self).spec_closed() == closed_list_after(old(self).spec_closed(), closed),
            index < old(self).spec_tabs().len() && old(self).spec_tabs().len() == 1 ==> outcome == CloseOutcome::Replaced
                && final(self).spec_tabs() == seq![replacement] && final(self).spec_active() == 0,
            index < old(self).spec_tabs().len() && old(self).spec_tabs().len() > 1 ==> {
                &&& outcome == (CloseOutcome::Removed { was_active: index == old(self).spec_active() })
                &&& final(self).spec_tabs() == old(self).spec_tabs().remove(index as int)
                &&& final(self).spec_active() == active_after_removal(old(self).spec_tabs().len() as int, old(self).spec_active(), index as int)
            },
    {
        if index >= self.tabs.len() {
            return CloseOutcome::Ignored;
        }
        self.push_closed_tab(closed);
        if self.tabs.len() <= 1 {
            let mut tabs: Vec<TabEntry> = Vec::new();
            tabs.push(replacement);
            self.tabs = tabs;
            self.active_tab_index = 0;
            return CloseOutcome::Replaced;
        }
        let was_active = index == self.active_tab_index;
        let ghost before = self.tabs@;
        self.tabs.remove(index);
        if index < self.active_tab_index {
            self.active_tab_index = self.active_tab_index - 1;
        } else if was_active {
            if self.active_tab_index >= self.tabs.len() {
                self.active_tab_index = self.tabs.len() - 1;
            }
        }
        assert forall|i: int, j: int| 0 <= i < j < self.tabs@.len() implies self.tabs@[i].id != self.tabs@[j].id by {
            let ii = if i < index { i } else { i + 1 };
            let jj = if j < index { j } else { j + 1 };
            assert(self.tabs@[i] == before[ii]);
            assert(self.tabs@[j] == before[jj]);
        }
        CloseOutcome::Removed { was_active }
    }

    /// Pins or unpins the tab at `index`, then puts pinned tabs first (each group keeping its
    /// order); the active index follows the active tab.
    pub fn set_pinned(&mut self, index: usize, pinned: bool)
        requires
            old(self).well_formed(),
        ensures
            final(self).well_formed(),
            final(self).spec_closed() == old(self).spec_closed(),
            index >= old(self).spec_tabs().len() ==> final(self).spec_tabs() == old(self).spec_tabs()
                && final(self).spec_active() == old(self).spec_active(),
            index < old(self).spec_tabs().len() ==> {
                let updated = old(self).spec_tabs().update(index as int, TabEntry { id: old(self).spec_tabs()[index as int].id, pinned });
                &&& final(self).spec_tabs() == pinned_first(updated)
                &&& final(self).spec_tabs()[final(self).spec_active()].id == old(self).spec_tabs()[old(self).spec_active()].id
            },
    {
        if index >= self.tabs.len() {
            return;
        }
        let active_id = self.tabs[self.active_tab_index].id;
        let id = self.tabs[index].id;
        let mut tabs: Vec<TabEntry> = Vec::new();
        std::mem::swap(&mut tabs, &mut self.tabs);
        tabs.set(index, TabEntry { id, pinned });
        let ghost updated = tabs@;
        assert forall|i: int, j: int| 0 <= i < j < updated.len() implies updated[i].id != updated[j].id by {
            assert(updated[i].id == old(self).tabs@[i].id);
            assert(updated[j].id == old(self).tabs@[j].id);
        }
        let ghost p = |t: TabEntry| t.pinned;
        let ghost q = |t: TabEntry| !t.pinned;
        let mut first: Vec<TabEntry> = Vec::new();
        let mut second: Vec<TabEntry> = Vec::new();
        let mut i: usize = 0;
        while i < tabs.len()
            invariant
                i <= tabs.len(),
                tabs@ == updated,
                p == (|t: TabEntry| t.pinned),
                q == (|t: TabEntry| !t.pinned),
                first@ == updated.take(i as int).filter(p),
                second@ == updated.take(i as int).filter(q),
            decreases tabs.len() - i,
        {
            let t = tabs[i];
            if t.pinned {
                first.push(t);
            } else {
                second.push(t);
            }
            proof {
                reveal_with_fuel(Seq::<TabEntry>::filter, 1);
                assert(updated.take(i + 1).drop_last() =~= updated.take(i as int));
                assert(first@ =~= updated.take(i + 1).filter(p));
                assert(second@ =~= updated.take(i + 1).filter(q));
            }
            i = i + 1;
        }
        assert(updated.take(updated.len() as int) =~= updated);
        first.append(&mut second);
        proof {
            lemma_pinned_first(updated);
            assert(first@ =~= pinned_first(updated));
            let a = old(self).active_tab_index as int;
            assert(updated[a].id == active_id);
            assert(pinned_first(updated).contains(updated[a]));
        }
        self.tabs = first;
        proof {
            let a = old(self).active_tab_index as int;
            let k = choose|k: int| 0 <= k < self.tabs@.len() && self.tabs@[k] == updated[a];
            assert(self.tabs@[k].id == active_id);
        }
        let pos = self.position_of(active_id);
        self.active_tab_index = pos;
    }

    /// Closes every unpinned tab but the one at `keep_index`, which becomes active.
    pub fn close_other_tabs(&mut self, keep_index: usize)
        requires
            old(self).well_formed(),
        ensures
            final(self).well_formed(),
            final(self).spec_closed() == old(self).spec_closed(),
            keep_index >= old(self).spec_tabs().len() ==> final(self).spec_tabs() == old(self).spec_tabs()
                && final(self).spec_active() == old(self).spec_active(),
            keep_index < old(self).spec_tabs().len() ==> {
                let keep = old(self).spec_tabs()[keep_index as int];
                &&& final(self).spec_tabs() == old(self).spec_tabs().filter(|t: TabEntry| t.id == keep.id || t.pinned)
                &&& final(self).spec_tabs()[final(self).spec_active()] == keep
            },
    {
        if keep_index >= self.tabs.len() {
            return;
        }
        let keep = self.tabs[keep_index];
        let mut tabs: Vec<TabEntry> = Vec::new();
        std::mem::swap(&mut tabs, &mut self.tabs);
        let ghost all = tabs@;
        let ghost p = |t: TabEntry| t.id == keep.id || t.pinned;
        let mut kept: Vec<TabEntry> = Vec::new();
        let mut i: usize = 0;
        while i < tabs.len()
            invariant
                i <= tabs.len(),
                tabs@ == all,
                p == (|t: TabEntry| t.id == keep.id || t.pinned),
                kept@ == all.take(i as int).filter(p),
            decreases tabs.len() - i,
        {
            let t = tabs[i];
            if t.id == keep.id || t.pinned {
                kept.push(t);
            }
            proof {
                reveal_with_fuel(Seq::<TabEntry>::filter, 1);
                assert(all.take(i + 1).drop_last() =~= all.take(i as int));
                assert(kept@ =~= all.take(i + 1).filter(p));
            }
            i = i + 1;
        }
        assert(all.take(all.len() as int) =~= all);
        proof {
            lemma_filter_tabs(all, p);
            assert(p(all[keep_index as int]));
            assert(kept@.contains(keep));
        }
        self.tabs = kept;
        proof {
            let k = choose|k: int| 0 <= k < self.tabs@.len() && self.tabs@[k] == keep;
            assert(self.tabs@[k].id == keep.id);
        }
        let pos = self.position_of(keep.id);
        proof {
            let k = choose|k: int| 0 <= k < self.tabs@.len() && self.tabs@[k] == keep;
            if k != pos as int {
                assert(self.tabs@[k].id == self.tabs@[pos as int].id);
            }
        }
        self.active_tab_index = pos;
    }
}

/// The tab positions shown in row `r` of the pinned tab grid for `count` pinned tabs: the grid
/// has `min(count, 3)` columns, so row `r` holds positions `3r` up to three further, and no
/// further than `count`.
pub open spec fn pinned_row(count: int, r: int) -> Seq<usize> {
    let start = 3 * r;
    let end = if count - start > 3 { start + 3 } else { count };
    Seq::new((end - start) as nat, |k: int| (start + k) as usize)
}

/// The rows of the pinned tab grid for `pinned_count` pinned tabs, which come first in the
/// strip: their positions, three to a row (fewer in a last, shorter row); no rows for none.
pub fn pinned_tab_rows(pinned_count: usize) -> (rows: Vec<Vec<usize>>)
    ensures
        rows@.len() == (pinned_count + 2) / 3,
        forall|r: int| 0 <= r < rows@.len() ==> #[trigger] rows@[r]@ == pinned_row(pinned_count as int, r),
{
    let n = pinned_count;
    let mut rows: Vec<Vec<usize>> = Vec::new();
    let mut start: usize = 0;
    while start < n
        invariant
            start <= n,
            rows@.len() == (start + 2) / 3,
            start < n ==> start == 3 * rows@.len(),
            forall|r: int| 0 <= r < rows@.len() ==> #[trigger] rows@[r]@ == pinned_row(n as int, r),
        decreases n - start,
    {
        let end = if n - start > 3 { start + 3 } else { n };
        let mut row: Vec<usize> = Vec::new();
        let mut k: usize = start;
        while k < end
            invariant
                start <= k <= end,
                row@ == Seq::new((k - start) as nat, |j: int| (start + j) as usize),
            decreases end - k,
        {
            row.push(k);
            k = k + 1;
            assert(row@ =~= Seq::new((k - start) as nat, |j: int| (start + j) as usize));
        }
        let ghost r = rows@.len() as int;
        assert(row@ =~= pinned_row(n as int, r));
        rows.push(row);
        start = end;
    }
    rows
}

impl TabStrip {
    /// How many tabs are pinned.
    pub fn pinned_count(&self) -> (r: usize)
        ensures
            r == self.spec_tabs().filter(|t: TabEntry| t.pinned).len(),
    {
        let ghost p = |t: TabEntry| t.pinned;
        let mut count: usize = 0;
        let mut i: usize = 0;
        while i < self.tabs.len()
            invariant
                i <= self.tabs.len(),
                p == (|t: TabEntry| t.pinned),
                count == self.tabs@.take(i as int).filter(p).len(),
                count <= i,
            decreases self.tabs.len() - i,
        {
            proof {
                reveal_with_fuel(Seq::<TabEntry>::filter, 1);
                assert(self.tabs@.take(i + 1).drop_last() =~= self.tabs@.take(i as int));
            }
            if self.tabs[i].pinned {
                count = count + 1;
            }
            i = i + 1;
        }
        assert(self.tabs@.take(self.tabs.len() as int) =~= self.tabs@);
        count
    }
}

} // verus!
