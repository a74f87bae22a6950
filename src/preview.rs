use crate::picker::{Key, Picker, Response};
use vstd::prelude::*;

verus! {

/// Where the preview of a path came from.
#[derive(Clone, Copy, Debug, PartialEq, Eq, Structural)]
pub enum PreviewSource {
    /// An open document of the host holds the path; the cache is not used.
    Live,
    /// The cache already held the path.
    Cached,
    /// The path was loaded just now and put in the cache.
    Loaded,
    /// The path could not be loaded; nothing was cached.
    Unavailable,
}

/// Loaded previews, keyed by canonical path. Entries are added once and
/// never removed.
pub struct PreviewCache<D> {
    entries: Vec<(String, D)>,
}

impl<D> PreviewCache<D> {
    /// The entries, oldest first: (canonical path, content).
    pub closed spec fn entries_view(&self) -> Seq<(Seq<char>, D)> {
        self.entries@.map_values(|e: (String, D)| (e.0@, e.1))
    }

    /// At most one entry per path.
    pub open spec fn wf(&self) -> bool {
        forall|a: int, b: int|
            0 <= a < self.entries_view().len() && 0 <= b < self.entries_view().len() && a != b
                ==> self.entries_view()[a].0 != self.entries_view()[b].0
    }

    /// Whether the cache holds an entry for `path`.
    pub open spec fn contains(&self, path: Seq<char>) -> bool {
        exists|k: int| 0 <= k < self.entries_view().len() && self.entries_view()[k].0 == path
    }

    /// What a request for `path` leads to, from the cache `before` to the
    /// cache `after`: a live document bypasses the cache, a cached path is
    /// served as it is, and any other path is loaded and added, or found
    /// unavailable and left out.
    pub open spec fn served(before: Self, after: Self, path: Seq<char>, live: bool, r: PreviewSource) -> bool {
        if live {
            r == PreviewSource::Live && after == before
        } else if before.contains(path) {
            r == PreviewSource::Cached && after == before
        } else if r == PreviewSource::Loaded {
            &&& after.entries_view().len() == before.entries_view().len() + 1
            &&& after.entries_view().drop_last() == before.entries_view()
            &&& after.entries_view().last().0 == path
        } else {
            r == PreviewSource::Unavailable && after == before
        }
    }

    /// An empty cache.
    pub fn new() -> (r: Self)
        ensures
            r.wf(),
            r.entries_view().len() == 0,
    {
        PreviewCache { entries: Vec::new() }
    }

    /// Position of the entry for `path`.
    fn find(&self, path: &String) -> (r: Option<usize>)
        ensures
            match r {
                None => !self.contains(path@),
                Some(k) => k < self.entries_view().len() && self.entries_view()[k as int].0 == path@,
            },
    {
        let mut i: usize = 0;
        while i < self.entries.len()
            invariant
                i <= self.entries@.len(),
                forall|k: int| 0 <= k < i ==> self.entries_view()[k].0 != path@,
            decreases self.entries@.len() - i,
        {
            if self.entries[i].0 == *path {
                return Some(i);
            }
            i += 1;
        }
        None
    }

    /// The cached content for `path`.
    pub fn get(&self, path: &String) -> (r: Option<&D>)
        requires
            self.wf(),
        ensures
            match r {
                None => !self.contains(path@),
                Some(d) => exists|k: int|
                    0 <= k < self.entries_view().len() && self.entries_view()[k] == (path@, *d),
            },
    {
        match self.find(path) {
            None => None,
            Some(k) => {
                assert(self.entries_view()[k as int] == (path@, self.entries@[k as int].1));
                Some(&self.entries[k].1)
            },
        }
    }

    /// Serves a preview request for the canonical `path`. A live document
    /// (`live`) is used as it is; else a cached entry is used; else `load`
    /// is called once and what it returns is cached.
    pub fn get_or_load<F: FnOnce(&String) -> Option<D>>(&mut self, path: String, live: bool, load: F) -> (r: PreviewSource)
        requires
            old(self).wf(),
            load.requires((&path,)),
        ensures
            final(self).wf(),
            Self::served(*old(self), *final(self), path@, live, r),
            r == PreviewSource::Loaded ==> load.ensures(
                (&path,),
                Some(final(self).entries_view().last().1),
            ),
            r == PreviewSource::Unavailable ==> load.ensures((&path,), None),
    {
        if live {
            PreviewSource::Live
        } else if self.find(&path).is_some() {
            PreviewSource::Cached
        } else if let Some(doc) = load(&path) {
            let ghost before = self.entries_view();
            let ghost path_view = path@;
            assert(!self.contains(path_view));
            self.entries.push((path, doc));
            assert(self.entries_view() =~= before.push((path_view, self.entries@.last().1)));
            assert(self.entries_view().drop_last() =~= before);
            PreviewSource::Loaded
        } else {
            PreviewSource::Unavailable
        }
    }
}

/// A picker whose highlighted candidate is previewed from a file.
pub struct FilePicker<T, D> {
    picker: Picker<T>,
    /// Caches paths to documents.
    preview_cache: PreviewCache<D>,
}

impl<T, D> FilePicker<T, D> {
    /// The picker.
    pub closed spec fn picker_view(&self) -> Picker<T> {
        self.picker
    }

    /// The preview cache.
    pub closed spec fn cache_view(&self) -> PreviewCache<D> {
        self.preview_cache
    }

    /// Both parts keep their invariants.
    pub open spec fn wf(&self) -> bool {
        self.picker_view().wf() && self.cache_view().wf()
    }

    /// A file picker over `options`, displayed through `format_fn`, with an
    /// empty preview cache.
    pub fn new<F: Fn(&T) -> String>(options: Vec<T>, format_fn: F) -> (r: Self)
        requires
            forall|i: int| 0 <= i < options@.len() ==> format_fn.requires((&options@[i],)),
        ensures
            r.wf(),
            r.picker_view().candidates() == options@,
            forall|i: int|
                0 <= i < options@.len() ==> format_fn.ensures(
                    (&options@[i],),
                    #[trigger] r.picker_view().label_strings()[i],
                ),
            r.picker_view().query_view().len() == 0,
            r.picker_view().scope_view() is None,
            r.picker_view().cursor_pos() == 0,
            !r.picker_view().centered(),
            r.cache_view().entries_view().len() == 0,
    {
        FilePicker { picker: Picker::new(false, options, format_fn), preview_cache: PreviewCache::new() }
    }

    /// The picker.
    pub fn picker(&self) -> (r: &Picker<T>)
        ensures
            *r == self.picker_view(),
    {
        &self.picker
    }

    /// The preview cache.
    pub fn preview_cache(&self) -> (r: &PreviewCache<D>)
        ensures
            *r == self.cache_view(),
    {
        &self.preview_cache
    }

    /// Passes a key press to the picker; the preview cache is kept.
    pub fn handle_key(&mut self, key: Key) -> (r: Response)
        requires
            old(self).wf(),
        ensures
            final(self).wf(),
            final(self).cache_view() == old(self).cache_view(),
            ({
                let before = old(self).picker_view();
                let after = final(self).picker_view();
                match key {
                    Key::Up => r == Response::Consumed && after.same_view(before)
                        && after.cursor_pos() == crate::picker::cursor_up(before.cursor_pos()),
                    Key::Down => r == Response::Consumed && after.same_view(before)
                        && after.cursor_pos() == crate::picker::cursor_down(
                        before.cursor_pos(),
                        before.ranked().len() as int,
                    ),
                    Key::Cancel => r == Response::Close && after == before,
                    Key::Confirm(action) => after == before && r == match before.selected_spec() {
                        None => Response::Close,
                        Some(j) => (Response::Dispatch { index: j, action }),
                    },
                    Key::SaveScope => r == Response::Consumed && after.scope_view() == Some(
                        crate::picker::snapshot(before.candidates().len() as int, before.ranked()),
                    ) && after.query_view().len() == 0 && after.cursor_pos() == 0
                        && after.candidates() == before.candidates()
                        && after.label_strings() == before.label_strings()
                        && after.centered() == before.centered(),
                    Key::Other => r == Response::Forward && after == before,
                }
            }),
    {
        self.picker.handle_key(key)
    }

    /// Passes the query editor's text to the picker.
    pub fn set_query(&mut self, query: String)
        requires
            old(self).wf(),
        ensures
            final(self).wf(),
            final(self).cache_view() == old(self).cache_view(),
            final(self).picker_view().query_view() == query@,
            final(self).picker_view().candidates() == old(self).picker_view().candidates(),
            final(self).picker_view().label_strings() == old(self).picker_view().label_strings(),
            final(self).picker_view().scope_view() == old(self).picker_view().scope_view(),
            query@ == old(self).picker_view().query_view() ==> final(self).picker_view()
                == old(self).picker_view(),
            query@ != old(self).picker_view().query_view() ==> final(self).picker_view().cursor_pos()
                == 0,
    {
        self.picker.set_query(query);
    }

    /// Makes the preview of the highlighted candidate ready. `path` is its
    /// canonical path (`None` when nothing is highlighted or the path could
    /// not be resolved), `live` tells whether the host has that path open.
    pub fn calculate_preview<F: FnOnce(&String) -> Option<D>>(
        &mut self,
        path: Option<String>,
        live: bool,
        load: F,
    ) -> (r: Option<PreviewSource>)
        requires
            old(self).wf(),
            path matches Some(p) ==> load.requires((&p,)),
        ensures
            final(self).wf(),
            final(self).picker_view() == old(self).picker_view(),
            match path {
                None => r is None && final(self).cache_view() == old(self).cache_view(),
                Some(p) => r matches Some(s) && PreviewCache::served(
                    old(self).cache_view(),
                    final(self).cache_view(),
                    p@,
                    live,
                    s,
                ),
            },
            path matches Some(p) ==> (r == Some(PreviewSource::Loaded) ==> load.ensures(
                (&p,),
                Some(final(self).cache_view().entries_view().last().1),
            )),
            path matches Some(p) ==> (r == Some(PreviewSource::Unavailable) ==> load.ensures(
                (&p,),
                None,
            )),
    {
        match path {
            None => None,
            Some(p) => Some(self.preview_cache.get_or_load(p, live, load)),
        }
    }
}

/// A second request for a path, with no live document either time, after a
/// first one that found or loaded it, is served from the cache entry that the
/// first one left, without a second load, and leaves the cache as it was.
pub proof fn lemma_repeat_request_is_cached<D>(
    c0: PreviewCache<D>,
    c1: PreviewCache<D>,
    c2: PreviewCache<D>,
    path: Seq<char>,
    r1: PreviewSource,
    r2: PreviewSource,
)
    requires
        PreviewCache::served(c0, c1, path, false, r1),
        r1 != PreviewSource::Unavailable,
        PreviewCache::served(c1, c2, path, false, r2),
    ensures
        c1.contains(path),
        r2 == PreviewSource::Cached,
        c2 == c1,
{
    if !c0.contains(path) {
        let k = c1.entries_view().len() - 1;
        assert(c1.entries_view()[k].0 == path);
    }
}

} // verus!
