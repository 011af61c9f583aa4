//! Bookmarks, bookmark folders and the bookmark bar.

use vstd::prelude::*;
use crate::text::{str_eq, opt_view};

verus! {

#[derive(Clone, Debug, PartialEq, Eq)]
pub struct Bookmark {
    pub url: String,
    pub title: String,
    pub favicon_url: Option<String>,
    pub folder_id: Option<u64>,
}

#[derive(Clone, Debug, PartialEq, Eq)]
pub struct BookmarkFolder {
    pub id: u64,
    pub name: String,
}

/// When the bookmark bar shows.
#[derive(Clone, Copy, Debug, PartialEq, Eq, Structural)]
pub enum BookmarkBarVisibility {
    Always,
    NewTabOnly,
}

impl Default for BookmarkBarVisibility {
    fn default() -> (v: Self)
        ensures
            v == BookmarkBarVisibility::Always,
    {
        BookmarkBarVisibility::Always
    }
}

/// What a bookmark holds: URL, title, favicon URL and folder.
pub type BookmarkView = (Seq<char>, Seq<char>, Option<Seq<char>>, Option<u64>);

pub open spec fn bookmark_view(b: Bookmark) -> BookmarkView {
    (b.url@, b.title@, opt_view(b.favicon_url), b.folder_id)
}

pub open spec fn bookmark_views(s: Seq<Bookmark>) -> Seq<BookmarkView> {
    s.map_values(|b: Bookmark| bookmark_view(b))
}

pub open spec fn bookmark_ref_views(s: Seq<&Bookmark>) -> Seq<BookmarkView> {
    s.map_values(|b: &Bookmark| bookmark_view(*b))
}

/// What a folder holds: identifier and name.
pub type FolderView = (u64, Seq<char>);

pub open spec fn folder_views(s: Seq<BookmarkFolder>) -> Seq<FolderView> {
    s.map_values(|f: BookmarkFolder| (f.id, f.name@))
}

/// Whether a bookmark with the given URL is stored.
pub open spec fn has_url(s: Seq<BookmarkView>, url: Seq<char>) -> bool {
    exists|i: int| 0 <= i < s.len() && s[i].0 == url
}

/// The first bookmark with the given URL.
pub open spec fn url_position(s: Seq<BookmarkView>, url: Seq<char>) -> Option<int> {
    crate::search::first_match(s, |b: BookmarkView| b.0 == url)
}

/// Bookmarks and folders, with the identifier the next folder gets.
#[derive(Clone, Debug, Default, PartialEq, Eq)]
pub struct BookmarkStore {
    pub bookmarks: Vec<Bookmark>,
    pub folders: Vec<BookmarkFolder>,
    pub next_folder_id: u64,
    pub visibility: BookmarkBarVisibility,
}

impl BookmarkStore {
    /// A store with the given contents, such as one restored from a saved session.
    pub fn from_parts(
        bookmarks: Vec<Bookmark>,
        folders: Vec<BookmarkFolder>,
        next_folder_id: u64,
        visibility: BookmarkBarVisibility,
    ) -> (s: Self)
        ensures
            s.bookmarks == bookmarks,
            s.folders == folders,
            s.spec_next_folder_id() == next_folder_id,
            s.visibility == visibility,
    {
        BookmarkStore { bookmarks, folders, next_folder_id, visibility }
    }

    /// The identifier the next folder gets.
    pub closed spec fn spec_next_folder_id(&self) -> u64 {
        self.next_folder_id
    }

    /// The identifier the next folder gets.
    pub fn next_folder_id(&self) -> (r: u64)
        ensures
            r == self.spec_next_folder_id(),
    {
        self.next_folder_id
    }

    /// The first bookmark with the given URL.
    pub fn find_by_url(&self, url: &str) -> (r: Option<&Bookmark>)
        ensures
            match url_position(bookmark_views(self.bookmarks@), url@) {
                Some(i) => r == Some(&self.bookmarks@[i]),
                None => r is None,
            },
    {
        match self.position(url) {
            Some(i) => Some(&self.bookmarks[i]),
            None => None,
        }
    }

    fn position(&self, url: &str) -> (r: Option<usize>)
        ensures
            match r {
                Some(i) => i < self.bookmarks.len() && url_position(bookmark_views(self.bookmarks@), url@) == Some(i as int),
                None => url_position(bookmark_views(self.bookmarks@), url@) is None,
            },
    {
        let ghost views = bookmark_views(self.bookmarks@);
        let ghost p = |b: BookmarkView| b.0 == url@;
        let mut i: usize = 0;
        while i < self.bookmarks.len()
            invariant
                i <= self.bookmarks.len(),
                views == bookmark_views(self.bookmarks@),
                p == (|b: BookmarkView| b.0 == url@),
                forall|j: int| 0 <= j < i ==> !p(views[j]),
            decreases self.bookmarks.len() - i,
        {
            if str_eq(self.bookmarks[i].url.as_str(), url) {
                proof { crate::search::lemma_first_match_found(views, p, i as int); }
                return Some(i);
            }
            i = i + 1;
        }
        proof { crate::search::lemma_first_match_absent(views, p); }
        None
    }

    /// Adds a bookmark unless one with the same URL is already stored.
    pub fn add_bookmark(&mut self, url: String, title: String, favicon_url: Option<String>, folder_id: Option<u64>)
        ensures
            has_url(bookmark_views(old(self).bookmarks@), url@) ==> *final(self) == *old(self),
            !has_url(bookmark_views(old(self).bookmarks@), url@) ==> {
                &&& bookmark_views(final(self).bookmarks@) == bookmark_views(old(self).bookmarks@).push(
                    (url@, title@, opt_view(favicon_url), folder_id))
                &&& final(self).folders == old(self).folders
                &&& final(self).spec_next_folder_id() == old(self).spec_next_folder_id()
                &&& final(self).visibility == old(self).visibility
            },
    {
        let ghost views = bookmark_views(self.bookmarks@);
        let found = self.position(url.as_str());
        proof {
            let p = |b: BookmarkView| b.0 == url@;
            if has_url(views, url@) {
                let i = choose|i: int| 0 <= i < views.len() && views[i].0 == url@;
                assert(p(views[i]));
            } else {
                if let Some(i) = crate::search::first_match(views, p) {
                    assert(views[i].0 == url@);
                }
            }
        }
        if found.is_some() {
            return;
        }
        let ghost fv = opt_view(favicon_url);
        self.bookmarks.push(Bookmark { url, title, favicon_url, folder_id });
        assert(bookmark_views(self.bookmarks@) =~= views.push((url@, title@, fv, folder_id)));
    }

    /// Removes every bookmark with the given URL.
    pub fn remove_bookmark(&mut self, url: &str)
        ensures
            bookmark_views(final(self).bookmarks@) == bookmark_views(old(self).bookmarks@).filter(|b: BookmarkView| b.0 != url@),
            final(self).folders == old(self).folders,
            final(self).spec_next_folder_id() == old(self).spec_next_folder_id(),
            final(self).visibility == old(self).visibility,
    {
        let mut old_bookmarks: Vec<Bookmark> = Vec::new();
        std::mem::swap(&mut old_bookmarks, &mut self.bookmarks);
        let ghost all = old_bookmarks@;
        let ghost p = |b: BookmarkView| b.0 != url@;
        let mut kept: Vec<Bookmark> = Vec::new();
        for b in it: old_bookmarks.into_iter()
            invariant
                it.seq() == all,
                p == (|b: BookmarkView| b.0 != url@),
                bookmark_views(kept@) == bookmark_views(all.take(it.index() as int)).filter(p),
        {
            let ghost before = kept@;
            let keep = !str_eq(b.url.as_str(), url);
            if keep {
                kept.push(b);
            }
            proof {
                let k = it.index() as int;
                let t = bookmark_views(all.take(k + 1));
                assert(t.drop_last() =~= bookmark_views(all.take(k)));
                assert(t.last() == bookmark_view(all[k]));
                reveal_with_fuel(Seq::<BookmarkView>::filter, 1);
                assert(bookmark_views(kept@) =~= t.filter(p));
            }
        }
        assert(all.take(all.len() as int) =~= all);
        self.bookmarks = kept;
    }

    /// Adds a folder with the given name and returns its identifier.
    pub fn add_folder(&mut self, name: String) -> (id: u64)
        requires
            old(self).spec_next_folder_id() < u64::MAX,
        ensures
            id == old(self).spec_next_folder_id(),
            final(self).spec_next_folder_id() == id + 1,
            folder_views(final(self).folders@) == folder_views(old(self).folders@).push((id, name@)),
            final(self).bookmarks == old(self).bookmarks,
            final(self).visibility == old(self).visibility,
    {
        let id = self.next_folder_id;
        self.next_folder_id = self.next_folder_id + 1;
        let ghost n = name@;
        self.folders.push(BookmarkFolder { id, name });
        assert(folder_views(self.folders@) =~= folder_views(old(self).folders@).push((id, n)));
        id
    }

    /// Removes the folder with the given identifier; its bookmarks move to the top level.
    pub fn remove_folder(&mut self, folder_id: u64)
        ensures
            folder_views(final(self).folders@) == folder_views(old(self).folders@).filter(|f: FolderView| f.0 != folder_id),
            bookmark_views(final(self).bookmarks@) == bookmark_views(old(self).bookmarks@).map_values(
                |b: BookmarkView| if b.3 == Some(folder_id) { (b.0, b.1, b.2, None) } else { b }),
            final(self).spec_next_folder_id() == old(self).spec_next_folder_id(),
            final(self).visibility == old(self).visibility,
    {
        let mut old_folders: Vec<BookmarkFolder> = Vec::new();
        std::mem::swap(&mut old_folders, &mut self.folders);
        let ghost all = old_folders@;
        let ghost p = |f: FolderView| f.0 != folder_id;
        let mut kept: Vec<BookmarkFolder> = Vec::new();
        for f in it: old_folders.into_iter()
            invariant
                it.seq() == all,
                p == (|f: FolderView| f.0 != folder_id),
                folder_views(kept@) == folder_views(all.take(it.index() as int)).filter(p),
        {
            if f.id != folder_id {
                kept.push(f);
            }
            proof {
                let k = it.index() as int;
                let t = folder_views(all.take(k + 1));
                assert(t.drop_last() =~= folder_views(all.take(k)));
                reveal_with_fuel(Seq::<FolderView>::filter, 1);
                assert(folder_views(kept@) =~= t.filter(p));
            }
        }
        assert(all.take(all.len() as int) =~= all);
        self.folders = kept;

        let mut old_bookmarks: Vec<Bookmark> = Vec::new();
        std::mem::swap(&mut old_bookmarks, &mut self.bookmarks);
        let ghost ball = old_bookmarks@;
        let ghost g = |b: BookmarkView| if b.3 == Some(folder_id) { (b.0, b.1, b.2, None) } else { b };
        let mut moved: Vec<Bookmark> = Vec::new();
        for b in it: old_bookmarks.into_iter()
            invariant
                it.seq() == ball,
                g == (|b: BookmarkView| if b.3 == Some(folder_id) { (b.0, b.1, b.2, None::<u64>) } else { b }),
                bookmark_views(moved@) == bookmark_views(ball.take(it.index() as int)).map_values(g),
        {
            let ghost ob = b;
            let ghost before = moved@;
            let mut b = b;
            if b.folder_id == Some(folder_id) {
                b.folder_id = None;
            }
            assert(bookmark_view(b) == g(bookmark_view(ob)));
            moved.push(b);
            proof {
                let k = it.index() as int;
                assert(ball[k] == ob);
                assert(ball.take(k + 1) =~= ball.take(k).push(ob));
                assert(bookmark_views(ball.take(k + 1)).map_values(g) =~= bookmark_views(ball.take(k)).map_values(g).push(g(bookmark_view(ob))));
                assert(bookmark_views(moved@) =~= bookmark_views(before).push(bookmark_view(b)));
                assert(bookmark_views(moved@) =~= bookmark_views(ball.take(k + 1)).map_values(g));
            }
        }
        assert(ball.take(ball.len() as int) =~= ball);
        self.bookmarks = moved;
    }

    /// Moves the first bookmark with the given URL into a folder, or to the top level.
    pub fn move_to_folder(&mut self, url: &str, folder_id: Option<u64>)
        ensures
            match url_position(bookmark_views(old(self).bookmarks@), url@) {
                Some(i) => bookmark_views(final(self).bookmarks@) == bookmark_views(old(self).bookmarks@).update(i, {
                    let b = bookmark_views(old(self).bookmarks@)[i];
                    (b.0, b.1, b.2, folder_id)
                }),
                None => final(self).bookmarks == old(self).bookmarks,
            },
            final(self).folders == old(self).folders,
            final(self).spec_next_folder_id() == old(self).spec_next_folder_id(),
            final(self).visibility == old(self).visibility,
    {
        match self.position(url) {
            Some(i) => {
                let mut bookmarks: Vec<Bookmark> = Vec::new();
                std::mem::swap(&mut bookmarks, &mut self.bookmarks);
                let ghost before = bookmarks@;
                let old_b = &bookmarks[i];
                let b = Bookmark {
                    url: old_b.url.clone(),
                    title: old_b.title.clone(),
                    favicon_url: crate::text::copy_opt_string(&old_b.favicon_url),
                    folder_id,
                };
                bookmarks.set(i, b);
                self.bookmarks = bookmarks;
                assert(bookmark_views(self.bookmarks@) =~= bookmark_views(before).update(i as int, {
                    let v = bookmark_views(before)[i as int];
                    (v.0, v.1, v.2, folder_id)
                }));
            },
            None => {},
        }
    }

    /// The bookmarks in no folder, in order.
    pub fn top_level_bookmarks(&self) -> (r: Vec<&Bookmark>)
        ensures
            bookmark_ref_views(r@) == bookmark_views(self.bookmarks@).filter(|b: BookmarkView| b.3 is None),
    {
        let ghost views = bookmark_views(self.bookmarks@);
        let ghost p = |b: BookmarkView| b.3 is None;
        let mut r: Vec<&Bookmark> = Vec::new();
        let mut i: usize = 0;
        while i < self.bookmarks.len()
            invariant
                i <= self.bookmarks.len(),
                views == bookmark_views(self.bookmarks@),
                p == (|b: BookmarkView| b.3 is None),
                bookmark_ref_views(r@) == views.take(i as int).filter(p),
            decreases self.bookmarks.len() - i,
        {
            let b = &self.bookmarks[i];
            if b.folder_id.is_none() {
                r.push(b);
            }
            proof {
                assert(views.take(i + 1).drop_last() =~= views.take(i as int));
                reveal_with_fuel(Seq::<BookmarkView>::filter, 1);
                assert(bookmark_ref_views(r@) =~= views.take(i + 1).filter(p));
            }
            i = i + 1;
        }
        assert(views.take(views.len() as int) =~= views);
        r
    }

    /// The bookmarks in the given folder, in order.
    pub fn bookmarks_in_folder(&self, folder_id: u64) -> (r: Vec<&Bookmark>)
        ensures
            bookmark_ref_views(r@) == bookmark_views(self.bookmarks@).filter(|b: BookmarkView| b.3 == Some(folder_id)),
    {
        let ghost views = bookmark_views(self.bookmarks@);
        let ghost p = |b: BookmarkView| b.3 == Some(folder_id);
        let mut r: Vec<&Bookmark> = Vec::new();
        let mut i: usize = 0;
        while i < self.bookmarks.len()
            invariant
                i <= self.bookmarks.len(),
                views == bookmark_views(self.bookmarks@),
                p == (|b: BookmarkView| b.3 == Some(folder_id)),
                bookmark_ref_views(r@) == views.take(i as int).filter(p),
            decreases self.bookmarks.len() - i,
        {
            let b = &self.bookmarks[i];
            if b.folder_id == Some(folder_id) {
                r.push(b);
            }
            proof {
                assert(views.take(i + 1).drop_last() =~= views.take(i as int));
                reveal_with_fuel(Seq::<BookmarkView>::filter, 1);
                assert(bookmark_ref_views(r@) =~= views.take(i + 1).filter(p));
            }
            i = i + 1;
        }
        assert(views.take(views.len() as int) =~= views);
        r
    }

    /// Whether the store holds neither bookmarks nor folders.
    pub fn is_empty(&self) -> (r: bool)
        ensures
            r == (self.bookmarks.len() == 0 && self.folders.len() == 0),
    {
        self.bookmarks.len() == 0 && self.folders.len() == 0
    }
}

/// The bar's visibility after its context menu's one item is chosen.
pub open spec fn toggled_visibility(v: BookmarkBarVisibility) -> BookmarkBarVisibility {
    match v {
        BookmarkBarVisibility::Always => BookmarkBarVisibility::NewTabOnly,
        BookmarkBarVisibility::NewTabOnly => BookmarkBarVisibility::Always,
    }
}

/// The bookmark bar: the store, and whether the active tab shows the new tab page.
pub struct BookmarkBar {
    store: BookmarkStore,
    is_active_tab_new_tab_page: bool,
}

impl BookmarkBar {
    /// A bar over the given store, with the active tab on the new tab page.
    pub fn new(store: BookmarkStore) -> (b: Self)
        ensures
            b.spec_store() == store,
            b.spec_on_new_tab_page(),
    {
        BookmarkBar { store, is_active_tab_new_tab_page: true }
    }

    pub closed spec fn spec_store(&self) -> BookmarkStore {
        self.store
    }

    pub closed spec fn spec_on_new_tab_page(&self) -> bool {
        self.is_active_tab_new_tab_page
    }

    /// The store, for saving.
    pub fn store(&self) -> (r: &BookmarkStore)
        ensures
            *r == self.spec_store(),
    {
        &self.store
    }

    pub fn set_active_tab_is_new_tab_page(&mut self, value: bool)
        ensures
            final(self).spec_on_new_tab_page() == value,
            final(self).spec_store() == old(self).spec_store(),
    {
        self.is_active_tab_new_tab_page = value;
    }

    /// Whether the bar shows: never when empty, else always or only on the new tab page.
    pub fn is_visible(&self) -> (r: bool)
        ensures
            r == (!(self.spec_store().bookmarks.len() == 0 && self.spec_store().folders.len() == 0)
                && match self.spec_store().visibility {
                    BookmarkBarVisibility::Always => true,
                    BookmarkBarVisibility::NewTabOnly => self.spec_on_new_tab_page(),
                }),
    {
        if self.store.is_empty() {
            return false;
        }
        match self.store.visibility {
            BookmarkBarVisibility::Always => true,
            BookmarkBarVisibility::NewTabOnly => self.is_active_tab_new_tab_page,
        }
    }

    /// Bookmarks a page at the top level, unless its URL is already bookmarked.
    pub fn add_bookmark(&mut self, url: String, title: String, favicon_url: Option<String>)
        ensures
            has_url(bookmark_views(old(self).spec_store().bookmarks@), url@) ==> final(self).spec_store() == old(self).spec_store(),
            !has_url(bookmark_views(old(self).spec_store().bookmarks@), url@) ==>
                bookmark_views(final(self).spec_store().bookmarks@) == bookmark_views(old(self).spec_store().bookmarks@).push(
                    (url@, title@, opt_view(favicon_url), None)),
            final(self).spec_store().folders == old(self).spec_store().folders,
            final(self).spec_on_new_tab_page() == old(self).spec_on_new_tab_page(),
    {
        self.store.add_bookmark(url, title, favicon_url, None);
    }

    pub fn remove_bookmark(&mut self, url: &str)
        ensures
            bookmark_views(final(self).spec_store().bookmarks@)
                == bookmark_views(old(self).spec_store().bookmarks@).filter(|b: BookmarkView| b.0 != url@),
            final(self).spec_store().folders == old(self).spec_store().folders,
            final(self).spec_on_new_tab_page() == old(self).spec_on_new_tab_page(),
    {
        self.store.remove_bookmark(url);
    }

    /// Whether a bookmark with the given URL is stored.
    pub fn is_bookmarked(&self, url: &str) -> (r: bool)
        ensures
            r == has_url(bookmark_views(self.spec_store().bookmarks@), url@),
    {
        let found = self.store.find_by_url(url);
        proof {
            let views = bookmark_views(self.store.bookmarks@);
            let p = |b: BookmarkView| b.0 == url@;
            if has_url(views, url@) {
                let i = choose|i: int| 0 <= i < views.len() && views[i].0 == url@;
                assert(p(views[i]));
            } else {
                if let Some(i) = crate::search::first_match(views, p) {
                    assert(views[i].0 == url@);
                }
            }
        }
        found.is_some()
    }

    pub fn add_folder(&mut self, name: String) -> (id: u64)
        requires
            old(self).spec_store().spec_next_folder_id() < u64::MAX,
        ensures
            id == old(self).spec_store().spec_next_folder_id(),
            folder_views(final(self).spec_store().folders@) == folder_views(old(self).spec_store().folders@).push((id, name@)),
            final(self).spec_store().bookmarks == old(self).spec_store().bookmarks,
    {
        self.store.add_folder(name)
    }

    pub fn remove_folder(&mut self, folder_id: u64)
        ensures
            folder_views(final(self).spec_store().folders@)
                == folder_views(old(self).spec_store().folders@).filter(|f: FolderView| f.0 != folder_id),
    {
        self.store.remove_folder(folder_id);
    }

    pub fn move_to_folder(&mut self, url: &str, folder_id: Option<u64>)
        ensures
            match url_position(bookmark_views(old(self).spec_store().bookmarks@), url@) {
                Some(i) => bookmark_views(final(self).spec_store().bookmarks@) == bookmark_views(old(self).spec_store().bookmarks@).update(i, {
                    let b = bookmark_views(old(self).spec_store().bookmarks@)[i];
                    (b.0, b.1, b.2, folder_id)
                }),
                None => final(self).spec_store().bookmarks == old(self).spec_store().bookmarks,
            },
    {
        self.store.move_to_folder(url, folder_id);
    }

    /// Sets when the bar shows.
    pub fn set_visibility(&mut self, visibility: BookmarkBarVisibility)
        ensures
            final(self).spec_store().visibility == visibility,
            final(self).spec_store().bookmarks == old(self).spec_store().bookmarks,
            final(self).spec_store().folders == old(self).spec_store().folders,
            final(self).spec_on_new_tab_page() == old(self).spec_on_new_tab_page(),
    {
        self.store.visibility = visibility;
    }

    /// The visibility the bar's context menu offers to switch to.
    pub fn menu_toggle_target(&self) -> (v: BookmarkBarVisibility)
        ensures
            v == toggled_visibility(self.spec_store().visibility),
    {
        match self.store.visibility {
            BookmarkBarVisibility::Always => BookmarkBarVisibility::NewTabOnly,
            BookmarkBarVisibility::NewTabOnly => BookmarkBarVisibility::Always,
        }
    }
}

} // verus!
