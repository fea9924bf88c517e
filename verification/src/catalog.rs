//! The catalog: the persistent rows the scanner reconciles, modeled as
//! a value with a mathematical view, plus the lookups the engine needs.
//!
//! The invariant: every entry has its own id, one entry per file path,
//! and progress rows are keyed by entry id.

use vstd::prelude::*;
use crate::models::{CatalogEntry, PlaybackProgress, ProviderRefView, provider_views,
    spec_provider_id};

verus! {

/// An optional string, viewed.
pub open spec fn opt_view(o: Option<String>) -> Option<Seq<char>> {
    match o {
        None => None,
        Some(s) => Some(s@),
    }
}

/// The mathematical shape of one catalog row.
#[verifier::ext_equal]
pub ghost struct EntryView {
    pub id: i64,
    pub library_id: i64,
    pub file_path: Seq<char>,
    pub title: Option<Seq<char>>,
    pub year: Option<i64>,
    pub poster_url: Option<Seq<char>>,
    pub backdrop_url: Option<Seq<char>>,
    pub still_url: Option<Seq<char>>,
    pub plot: Option<Seq<char>>,
    pub media_type: Option<Seq<char>>,
    pub added_at: Option<i64>,
    pub series_name: Option<Seq<char>>,
    pub season_number: Option<i32>,
    pub episode_number: Option<i32>,
    pub provider_ids: Seq<ProviderRefView>,
    pub runtime: Option<i32>,
    pub genres: Option<Seq<char>>,
}

impl View for CatalogEntry {
    type V = EntryView;

    open spec fn view(&self) -> EntryView {
        EntryView {
            id: self.id,
            library_id: self.library_id,
            file_path: self.file_path@,
            title: opt_view(self.title),
            year: self.year,
            poster_url: opt_view(self.poster_url),
            backdrop_url: opt_view(self.backdrop_url),
            still_url: opt_view(self.still_url),
            plot: opt_view(self.plot),
            media_type: opt_view(self.media_type),
            added_at: self.added_at,
            series_name: opt_view(self.series_name),
            season_number: self.season_number,
            episode_number: self.episode_number,
            provider_ids: provider_views(self.provider_ids@),
            runtime: self.runtime,
            genres: opt_view(self.genres),
        }
    }
}

/// The mathematical shape of one progress row.
pub ghost struct ProgressView {
    pub media_id: i64,
    pub position: i64,
    pub total_duration: i64,
    pub last_watched: i64,
}

impl View for PlaybackProgress {
    type V = ProgressView;

    open spec fn view(&self) -> ProgressView {
        ProgressView {
            media_id: self.media_id,
            position: self.position,
            total_duration: self.total_duration,
            last_watched: self.last_watched,
        }
    }
}

/// The mathematical shape of the whole catalog.
#[verifier::ext_equal]
pub ghost struct CatalogView {
    pub entries: Seq<EntryView>,
    pub progress: Seq<ProgressView>,
    pub next_id: i64,
}

/// The catalog rows and the id counter new rows draw from.
pub struct Catalog {
    pub entries: Vec<CatalogEntry>,
    pub progress: Vec<PlaybackProgress>,
    pub next_id: i64,
}

/// The views of a row sequence.
pub open spec fn entry_views(es: Seq<CatalogEntry>) -> Seq<EntryView> {
    es.map_values(|e: CatalogEntry| e@)
}

/// The views of a progress sequence.
pub open spec fn progress_views(ps: Seq<PlaybackProgress>) -> Seq<ProgressView> {
    ps.map_values(|p: PlaybackProgress| p@)
}

impl View for Catalog {
    type V = CatalogView;

    open spec fn view(&self) -> CatalogView {
        CatalogView {
            entries: entry_views(self.entries@),
            progress: progress_views(self.progress@),
            next_id: self.next_id,
        }
    }
}

/// Well-formed rows: ids unique and below the counter, paths unique.
pub open spec fn entries_wf(es: Seq<EntryView>, next_id: i64) -> bool {
    &&& forall|i: int, j: int|
        0 <= i < j < es.len() ==> (#[trigger] es[i]).id != (#[trigger] es[j]).id
    &&& forall|i: int, j: int|
        0 <= i < j < es.len() ==> (#[trigger] es[i]).file_path != (#[trigger] es[j]).file_path
    &&& forall|i: int| 0 <= i < es.len() ==> 1 <= (#[trigger] es[i]).id < next_id
}

/// Well-formed progress: at most one row per entry id.
pub open spec fn progress_wf(ps: Seq<ProgressView>) -> bool {
    forall|i: int, j: int|
        0 <= i < j < ps.len() ==> (#[trigger] ps[i]).media_id != (#[trigger] ps[j]).media_id
}

impl Catalog {
    /// The catalog invariant.
    pub open spec fn wf(&self) -> bool {
        &&& entries_wf(self@.entries, self@.next_id)
        &&& progress_wf(self@.progress)
        &&& 1 <= self@.next_id
    }

    /// An empty catalog.
    pub fn new() -> (r: Catalog)
        ensures
            r.wf(),
            r@.entries =~= Seq::<EntryView>::empty(),
            r@.progress =~= Seq::<ProgressView>::empty(),
            r@.next_id == 1,
    {
        let r = Catalog { entries: Vec::new(), progress: Vec::new(), next_id: 1 };
        proof {
            assert(r@.entries =~= Seq::<EntryView>::empty());
            assert(r@.progress =~= Seq::<ProgressView>::empty());
        }
        r
    }
}

/// The first row at or after `i` whose file path is `path`.
pub open spec fn find_path_from(es: Seq<EntryView>, path: Seq<char>, i: int) -> Option<int>
    decreases es.len() - i,
{
    if i >= es.len() {
        None
    } else if es[i].file_path == path {
        Some(i)
    } else {
        find_path_from(es, path, i + 1)
    }
}

/// The first row whose file path is `path`.
pub open spec fn spec_find_path(es: Seq<EntryView>, path: Seq<char>) -> Option<int> {
    find_path_from(es, path, 0)
}

/// The position found by `find_path_from` holds the path, earlier
/// positions do not, and `None` means no position holds it.
pub proof fn lemma_find_path_from(es: Seq<EntryView>, path: Seq<char>, i: int)
    requires
        0 <= i,
    ensures
        match find_path_from(es, path, i) {
            Some(q) => i <= q < es.len() && es[q].file_path == path && (forall|j: int|
                i <= j < q ==> (#[trigger] es[j]).file_path != path),
            None => forall|j: int| i <= j < es.len() ==> (#[trigger] es[j]).file_path != path,
        },
    decreases es.len() - i,
{
    if i < es.len() && es[i].file_path != path {
        lemma_find_path_from(es, path, i + 1);
    }
}

/// The position found by `spec_find_path` holds the path, earlier
/// positions do not, and `None` means no position holds it.
pub proof fn lemma_find_path(es: Seq<EntryView>, path: Seq<char>)
    ensures
        match spec_find_path(es, path) {
            Some(i) => 0 <= i < es.len() && es[i].file_path == path && (forall|j: int|
                0 <= j < i ==> (#[trigger] es[j]).file_path != path),
            None => forall|j: int| 0 <= j < es.len() ==> (#[trigger] es[j]).file_path != path,
        },
{
    lemma_find_path_from(es, path, 0);
}

/// A position that holds the path, with no earlier one holding it, is
/// exactly what `spec_find_path` finds.
pub proof fn lemma_find_path_unique(es: Seq<EntryView>, path: Seq<char>, q: int)
    requires
        0 <= q < es.len(),
        es[q].file_path == path,
        forall|j: int| 0 <= j < q ==> (#[trigger] es[j]).file_path != path,
    ensures
        spec_find_path(es, path) == Some(q),
{
    lemma_find_path(es, path);
}

impl Catalog {
    /// Find the row for an absolute file path.
    pub fn find_by_path(&self, path: &str) -> (r: Option<usize>)
        ensures
            crate::ident::opt_pos(r) == spec_find_path(self@.entries, path@),
    {
        let ghost es = self@.entries;
        let mut i: usize = 0;
        while i < self.entries.len()
            invariant
                es == self@.entries,
                es.len() == self.entries@.len(),
                i <= es.len(),
                forall|k: int| 0 <= k < es.len() ==> es[k] == self.entries@[k]@,
                forall|j: int| 0 <= j < i ==> (#[trigger] es[j]).file_path != path@,
            decreases es.len() - i,
        {
            proof {
                assert(es[i as int] == self.entries@[i as int]@);
            }
            if crate::classify::chars_eq_str(
                &crate::text::chars_of(self.entries[i].file_path.as_str()),
                path,
            ) {
                proof {
                    assert(es[i as int].file_path == path@);
                    lemma_find_path(es, path@);
                }
                return Some(i);
            }
            i = i + 1;
        }
        proof {
            lemma_find_path(es, path@);
        }
        None
    }
}

/// Whether a row carries the series name `series` and some id under
/// the provider `provider`: the rows the series-reuse rule may copy.
pub open spec fn is_cached_series(e: EntryView, series: Seq<char>, provider: Seq<char>) -> bool {
    e.series_name == Some(series) && spec_provider_id(e.provider_ids, provider) is Some
}

/// The first reusable row at or after `i` for `series`.
pub open spec fn find_cached_from(
    es: Seq<EntryView>,
    series: Seq<char>,
    provider: Seq<char>,
    i: int,
) -> Option<int>
    decreases es.len() - i,
{
    if i >= es.len() {
        None
    } else if is_cached_series(es[i], series, provider) {
        Some(i)
    } else {
        find_cached_from(es, series, provider, i + 1)
    }
}

/// The first row whose series-level metadata the reuse rule may copy.
pub open spec fn spec_find_cached(
    es: Seq<EntryView>,
    series: Seq<char>,
    provider: Seq<char>,
) -> Option<int> {
    find_cached_from(es, series, provider, 0)
}

/// The position found by `find_cached_from` is reusable, earlier ones
/// are not, and `None` means none is.
pub proof fn lemma_find_cached_from(
    es: Seq<EntryView>,
    series: Seq<char>,
    provider: Seq<char>,
    i: int,
)
    requires
        0 <= i,
    ensures
        match find_cached_from(es, series, provider, i) {
            Some(q) => i <= q < es.len() && is_cached_series(es[q], series, provider) && (
            forall|j: int|
                i <= j < q ==> !is_cached_series(#[trigger] es[j], series, provider)),
            None => forall|j: int|
                i <= j < es.len() ==> !is_cached_series(#[trigger] es[j], series, provider),
        },
    decreases es.len() - i,
{
    if i < es.len() && !is_cached_series(es[i], series, provider) {
        lemma_find_cached_from(es, series, provider, i + 1);
    }
}

impl Catalog {
    /// Find a row of the same series that already carries an id from
    /// the named provider, whose series-level metadata can be reused.
    pub fn find_cached_series(&self, series: &str, provider: &str) -> (r: Option<usize>)
        ensures
            crate::ident::opt_pos(r) == spec_find_cached(self@.entries, series@, provider@),
    {
        let ghost es = self@.entries;
        let mut i: usize = 0;
        while i < self.entries.len()
            invariant
                es == self@.entries,
                es.len() == self.entries@.len(),
                i <= es.len(),
                forall|k: int| 0 <= k < es.len() ==> es[k] == self.entries@[k]@,
                forall|j: int| 0 <= j < i ==> !is_cached_series(#[trigger] es[j], series@, provider@),
            decreases es.len() - i,
        {
            proof {
                assert(es[i as int] == self.entries@[i as int]@);
            }
            let e = &self.entries[i];
            let name_matches = match &e.series_name {
                Some(s) => crate::classify::chars_eq_str(&crate::text::chars_of(s.as_str()), series),
                None => false,
            };
            if name_matches {
                if crate::models::provider_id_of(&e.provider_ids, provider).is_some() {
                    proof {
                        assert(is_cached_series(es[i as int], series@, provider@));
                        lemma_find_cached_from(es, series@, provider@, 0);
                    }
                    return Some(i);
                }
            }
            i = i + 1;
        }
        proof {
            lemma_find_cached_from(es, series@, provider@, 0);
        }
        None
    }

    /// Record playback progress for an entry: replace its row if one
    /// exists, else add one.
    pub fn set_progress(&mut self, media_id: i64, position: i64, total_duration: i64, when: i64)
        requires
            old(self).wf(),
        ensures
            final(self).wf(),
            final(self)@.entries == old(self)@.entries,
            final(self)@.next_id == old(self)@.next_id,
            // every old row of another entry is kept unchanged, and the
            // row for `media_id` now holds exactly the given values
            final(self)@.progress.len() == if (exists|i: int|
                0 <= i < old(self)@.progress.len() && (#[trigger] old(
                    self,
                )@.progress[i]).media_id == media_id) {
                old(self)@.progress.len()
            } else {
                old(self)@.progress.len() + 1
            },
            forall|i: int|
                0 <= i < old(self)@.progress.len() && (#[trigger] old(
                    self,
                )@.progress[i]).media_id != media_id ==> final(self)@.progress[i] == old(
                    self,
                )@.progress[i],
            exists|i: int|
                0 <= i < final(self)@.progress.len() && (#[trigger] final(self)@.progress[i]) == (ProgressView {
                    media_id,
                    position,
                    total_duration,
                    last_watched: when,
                }),
    {
        let ghost old_ps = self@.progress;
        let mut i: usize = 0;
        while i < self.progress.len()
            invariant
                old(self).wf(),
                old_ps == old(self)@.progress,
                self.entries@ == old(self).entries@,
                self.next_id == old(self).next_id,
                self.progress@.len() == old_ps.len(),
                forall|k: int| 0 <= k < old_ps.len() ==> old_ps[k] == self.progress@[k]@,
                i <= old_ps.len(),
                forall|j: int| 0 <= j < i ==> (#[trigger] old_ps[j]).media_id != media_id,
            decreases old_ps.len() - i,
        {
            if self.progress[i].media_id == media_id {
                proof {
                    assert(old_ps[i as int] == self.progress@[i as int]@);
                    assert(old(self)@.progress[i as int].media_id == media_id);
                }
                let new_row = PlaybackProgress {
                    media_id,
                    position,
                    total_duration,
                    last_watched: when,
                };
                self.progress.set(i, new_row);
                proof {
                    assert(self@.progress[i as int] == (ProgressView {
                        media_id,
                        position,
                        total_duration,
                        last_watched: when,
                    }));
                    assert forall|k: int| 0 <= k < old_ps.len() implies (
                    #[trigger] self@.progress[k]).media_id == old_ps[k].media_id by {
                        if k != i {
                            assert(self@.progress[k] == old_ps[k]);
                        } else {
                            assert(old_ps[k].media_id == media_id);
                        }
                    }
                    assert forall|a: int, b: int|
                        0 <= a < b < self@.progress.len() implies (
                    #[trigger] self@.progress[a]).media_id != (
                    #[trigger] self@.progress[b]).media_id by {
                        assert(old_ps[a].media_id != old_ps[b].media_id);
                    }
                }
                return ;
            }
            i = i + 1;
        }
        let new_row = PlaybackProgress { media_id, position, total_duration, last_watched: when };
        self.progress.push(new_row);
        proof {
            assert(self@.progress[old_ps.len() as int] == (ProgressView {
                media_id,
                position,
                total_duration,
                last_watched: when,
            }));
            assert(forall|k: int| 0 <= k < old_ps.len() ==> #[trigger] self@.progress[k]
                == old_ps[k]);
            assert forall|a: int, b: int|
                0 <= a < b < self@.progress.len() implies (
            #[trigger] self@.progress[a]).media_id != (#[trigger] self@.progress[b]).media_id by {
                if b < old_ps.len() {
                    assert(old_ps[a].media_id != old_ps[b].media_id);
                } else {
                    assert(old_ps[a].media_id != media_id);
                }
            }
        }
    }
}

/// The first row at or after `i` whose id is `id`.
pub open spec fn find_id_from(es: Seq<EntryView>, id: i64, i: int) -> Option<int>
    decreases es.len() - i,
{
    if i >= es.len() {
        None
    } else if es[i].id == id {
        Some(i)
    } else {
        find_id_from(es, id, i + 1)
    }
}

/// The first row whose id is `id`.
pub open spec fn spec_find_id(es: Seq<EntryView>, id: i64) -> Option<int> {
    find_id_from(es, id, 0)
}

/// The position found by `find_id_from` holds the id, earlier
/// positions do not, and `None` means no position holds it.
pub proof fn lemma_find_id_from(es: Seq<EntryView>, id: i64, i: int)
    requires
        0 <= i,
    ensures
        match find_id_from(es, id, i) {
            Some(q) => i <= q < es.len() && es[q].id == id && (forall|j: int|
                i <= j < q ==> (#[trigger] es[j]).id != id),
            None => forall|j: int| i <= j < es.len() ==> (#[trigger] es[j]).id != id,
        },
    decreases es.len() - i,
{
    if i < es.len() && es[i].id != id {
        lemma_find_id_from(es, id, i + 1);
    }
}

impl Catalog {
    /// Find the row with the given id.
    pub fn find_by_id(&self, id: i64) -> (r: Option<usize>)
        ensures
            crate::ident::opt_pos(r) == spec_find_id(self@.entries, id),
    {
        let ghost es = self@.entries;
        let mut i: usize = 0;
        while i < self.entries.len()
            invariant
                es == self@.entries,
                es.len() == self.entries@.len(),
                i <= es.len(),
                forall|k: int| 0 <= k < es.len() ==> es[k] == self.entries@[k]@,
                forall|j: int| 0 <= j < i ==> (#[trigger] es[j]).id != id,
            decreases es.len() - i,
        {
            proof {
                assert(es[i as int] == self.entries@[i as int]@);
            }
            if self.entries[i].id == id {
                proof {
                    lemma_find_id_from(es, id, 0);
                }
                return Some(i);
            }
            i = i + 1;
        }
        proof {
            lemma_find_id_from(es, id, 0);
        }
        None
    }
}

/// The predicate a row must meet to survive cleanup: its file is still
/// among the paths that exist on disk.
pub open spec fn keep_entry(present: Seq<Seq<char>>) -> spec_fn(EntryView) -> bool {
    |e: EntryView| present.contains(e.file_path)
}

/// `id` belongs to a row of `es` whose backing file is gone.
pub open spec fn spec_entry_removed(es: Seq<EntryView>, present: Seq<Seq<char>>, id: i64) -> bool {
    exists|i: int|
        0 <= i < es.len() && (#[trigger] es[i]).id == id && !present.contains(es[i].file_path)
}

/// The predicate a progress row must meet to survive cleanup: its
/// entry was not deleted. A progress row orphaned before the scan is
/// left alone.
pub open spec fn keep_progress(es: Seq<EntryView>, present: Seq<Seq<char>>) -> spec_fn(
    ProgressView,
) -> bool {
    |p: ProgressView| !spec_entry_removed(es, present, p.media_id)
}

/// Whether `path` occurs in the list of paths that exist.
pub fn contains_path(present: &Vec<String>, path: &str) -> (r: bool)
    ensures
        r == present.deep_view().contains(path@),
{
    let ghost pres = present.deep_view();
    let mut i: usize = 0;
    while i < present.len()
        invariant
            pres == present.deep_view(),
            pres.len() == present@.len(),
            i <= pres.len(),
            forall|k: int| 0 <= k < pres.len() ==> pres[k] == present@[k]@,
            forall|j: int| 0 <= j < i ==> #[trigger] pres[j] != path@,
        decreases pres.len() - i,
    {
        proof {
            assert(pres[i as int] == present@[i as int]@);
        }
        if crate::classify::chars_eq_str(&crate::text::chars_of(present[i].as_str()), path) {
            proof {
                assert(pres[i as int] == path@);
            }
            return true;
        }
        i = i + 1;
    }
    proof {
        assert(!pres.contains(path@));
    }
    false
}

/// Whether `x` occurs in a list of season numbers.
pub fn contains_i32(xs: &Vec<i32>, x: i32) -> (r: bool)
    ensures
        r == xs@.contains(x),
{
    let mut i: usize = 0;
    while i < xs.len()
        invariant
            i <= xs@.len(),
            forall|j: int| 0 <= j < i ==> #[trigger] xs@[j] != x,
        decreases xs@.len() - i,
    {
        if xs[i] == x {
            return true;
        }
        i = i + 1;
    }
    proof {
        assert(!xs@.contains(x));
    }
    false
}

/// Whether `id` occurs in a list of ids.
fn contains_id(ids: &Vec<i64>, id: i64) -> (r: bool)
    ensures
        r == ids@.contains(id),
{
    let mut i: usize = 0;
    while i < ids.len()
        invariant
            i <= ids@.len(),
            forall|j: int| 0 <= j < i ==> #[trigger] ids@[j] != id,
        decreases ids@.len() - i,
    {
        if ids[i] == id {
            return true;
        }
        i = i + 1;
    }
    proof {
        assert(!ids@.contains(id));
    }
    false
}

/// Removing one row keeps the rows well formed.
pub proof fn lemma_entries_wf_remove(es: Seq<EntryView>, next_id: i64, i: int)
    requires
        entries_wf(es, next_id),
        0 <= i < es.len(),
    ensures
        entries_wf(es.remove(i), next_id),
{
    let r = es.remove(i);
    assert forall|a: int, b: int| 0 <= a < b < r.len() implies (#[trigger] r[a]).id != (
    #[trigger] r[b]).id by {
        let a0 = if a < i {
            a
        } else {
            a + 1
        };
        let b0 = if b < i {
            b
        } else {
            b + 1
        };
        assert(r[a] == es[a0] && r[b] == es[b0]);
    }
    assert forall|a: int, b: int| 0 <= a < b < r.len() implies (#[trigger] r[a]).file_path != (
    #[trigger] r[b]).file_path by {
        let a0 = if a < i {
            a
        } else {
            a + 1
        };
        let b0 = if b < i {
            b
        } else {
            b + 1
        };
        assert(r[a] == es[a0] && r[b] == es[b0]);
    }
    assert forall|a: int| 0 <= a < r.len() implies 1 <= (#[trigger] r[a]).id < next_id by {
        let a0 = if a < i {
            a
        } else {
            a + 1
        };
        assert(r[a] == es[a0]);
    }
}

/// Removing one row keeps progress well formed.
pub proof fn lemma_progress_wf_remove(ps: Seq<ProgressView>, i: int)
    requires
        progress_wf(ps),
        0 <= i < ps.len(),
    ensures
        progress_wf(ps.remove(i)),
{
    let r = ps.remove(i);
    assert forall|a: int, b: int| 0 <= a < b < r.len() implies (#[trigger] r[a]).media_id != (
    #[trigger] r[b]).media_id by {
        let a0 = if a < i {
            a
        } else {
            a + 1
        };
        let b0 = if b < i {
            b
        } else {
            b + 1
        };
        assert(r[a] == ps[a0] && r[b] == ps[b0]);
    }
}

impl Catalog {
    /// The cleanup pass: delete every row whose file path no longer
    /// exists (`present` lists the paths that do), and with each such
    /// row its progress row. The two deletions happen in one step, so
    /// no orphaned progress row can be left behind by a failure
    /// between them; progress rows orphaned before the scan are kept.
    pub fn cleanup_missing(&mut self, present: &Vec<String>)
        requires
            old(self).wf(),
        ensures
            final(self).wf(),
            final(self)@.next_id == old(self)@.next_id,
            final(self)@.entries == old(self)@.entries.filter(keep_entry(present.deep_view())),
            final(self)@.progress == old(self)@.progress.filter(
                keep_progress(old(self)@.entries, present.deep_view()),
            ),
    {
        let ghost pres = present.deep_view();
        let ghost old_es = self@.entries;
        let ghost old_ps = self@.progress;
        let ghost kp = keep_entry(pres);
        let mut removed_ids: Vec<i64> = Vec::new();
        let mut i: usize = 0;
        let ghost mut j: int = 0;
        proof {
            reveal(Seq::filter);
            assert(old_es.subrange(0, 0).filter(kp) =~= Seq::<EntryView>::empty());
            assert(old_es.skip(0) =~= old_es);
            assert(entry_views(self.entries@) =~= old_es.subrange(0, 0).filter(kp) + old_es.skip(
                0,
            ));
        }
        while i < self.entries.len()
            invariant
                old(self).wf(),
                pres == present.deep_view(),
                old_es == old(self)@.entries,
                old_ps == old(self)@.progress,
                kp == keep_entry(pres),
                0 <= j <= old_es.len(),
                i == old_es.subrange(0, j).filter(kp).len(),
                i <= j,
                entry_views(self.entries@) =~= old_es.subrange(0, j).filter(kp) + old_es.skip(j),
                entries_wf(entry_views(self.entries@), old(self)@.next_id),
                self.progress@ == old(self).progress@,
                self.next_id == old(self).next_id,
                forall|x: i64|
                    #[trigger] removed_ids@.contains(x) <==> (exists|k: int|
                        0 <= k < j && (#[trigger] old_es[k]).id == x && !pres.contains(
                            old_es[k].file_path,
                        )),
            decreases self.entries@.len() - i,
        {
            proof {
                assert(j < old_es.len()) by {
                    if j == old_es.len() {
                        assert(old_es.skip(j).len() == 0);
                    }
                }
                assert(entry_views(self.entries@)[i as int] == old_es.skip(j)[0]);
                assert(old_es.skip(j)[0] == old_es[j]);
                assert(entry_views(self.entries@)[i as int] == self.entries@[i as int]@);
                assert(old_es.subrange(0, j + 1).drop_last() =~= old_es.subrange(0, j));
                assert(old_es.subrange(0, j + 1).last() == old_es[j]);
            }
            let keep = contains_path(present, self.entries[i].file_path.as_str());
            proof {
                reveal(Seq::filter);
                assert(keep == kp(old_es[j]));
                assert(old_es.subrange(0, j + 1).filter(kp) == if kp(old_es[j]) {
                    old_es.subrange(0, j).filter(kp).push(old_es[j])
                } else {
                    old_es.subrange(0, j).filter(kp)
                });
            }
            if keep {
                i = i + 1;
                proof {
                    j = j + 1;
                    assert(entry_views(self.entries@) =~= old_es.subrange(0, j).filter(kp)
                        + old_es.skip(j));
                    assert forall|x: i64| #[trigger] removed_ids@.contains(x) <==> (exists|k: int|
                        0 <= k < j && (#[trigger] old_es[k]).id == x && !pres.contains(
                            old_es[k].file_path,
                        )) by {
                        if (exists|k: int|
                            0 <= k < j && (#[trigger] old_es[k]).id == x && !pres.contains(
                                old_es[k].file_path,
                            )) {
                            let k = choose|k: int|
                                0 <= k < j && (#[trigger] old_es[k]).id == x && !pres.contains(
                                    old_es[k].file_path,
                                );
                            assert(k < j - 1 || k == j - 1);
                        }
                    }
                }
            } else {
                let id = self.entries[i].id;
                let ghost old_removed = removed_ids@;
                proof {
                    assert(id == old_es[j].id);
                }
                removed_ids.push(id);
                let _ = self.entries.remove(i);
                proof {
                    let ghost prev = old_es.subrange(0, j).filter(kp) + old_es.skip(j);
                    j = j + 1;
                    assert(entry_views(self.entries@) =~= prev.remove(i as int));
                    assert(entry_views(self.entries@) =~= old_es.subrange(0, j).filter(kp)
                        + old_es.skip(j));
                    lemma_entries_wf_remove(prev, old(self)@.next_id, i as int);
                    assert forall|x: i64| #[trigger] removed_ids@.contains(x) <==> (exists|k: int|
                        0 <= k < j && (#[trigger] old_es[k]).id == x && !pres.contains(
                            old_es[k].file_path,
                        )) by {
                        vstd::seq_lib::lemma_seq_contains_after_push(old_removed, id, x);
                        if removed_ids@.contains(x) {
                            if x == id {
                                assert(0 <= j - 1 < j && old_es[j - 1].id == x && !pres.contains(
                                    old_es[j - 1].file_path,
                                ));
                            } else {
                                assert(old_removed.contains(x));
                            }
                        }
                        if (exists|k: int|
                            0 <= k < j && (#[trigger] old_es[k]).id == x && !pres.contains(
                                old_es[k].file_path,
                            )) {
                            let k = choose|k: int|
                                0 <= k < j && (#[trigger] old_es[k]).id == x && !pres.contains(
                                    old_es[k].file_path,
                                );
                            if k < j - 1 {
                                assert(old_removed.contains(x));
                            }
                            assert(removed_ids@.contains(x));
                        }
                    }
                }
            }
        }
        proof {
            reveal(Seq::filter);
            assert(j == old_es.len()) by {
                assert(entry_views(self.entries@).len() == old_es.subrange(0, j).filter(kp).len()
                    + old_es.skip(j).len());
            }
            assert(old_es.subrange(0, j) =~= old_es);
            assert(entry_views(self.entries@) =~= old_es.filter(kp) + old_es.skip(j));
            assert(old_es.skip(j) =~= Seq::<EntryView>::empty());
            assert(entry_views(self.entries@) =~= old_es.filter(kp));
            assert(forall|x: i64|
                #[trigger] removed_ids@.contains(x) <==> spec_entry_removed(old_es, pres, x));
        }
        let ghost kpp = keep_progress(old_es, pres);
        let mut p: usize = 0;
        let ghost mut q: int = 0;
        proof {
            reveal(Seq::filter);
            assert(old_ps.subrange(0, 0).filter(kpp) =~= Seq::<ProgressView>::empty());
            assert(old_ps.skip(0) =~= old_ps);
            assert(progress_views(self.progress@) =~= old_ps.subrange(0, 0).filter(kpp)
                + old_ps.skip(0));
        }
        while p < self.progress.len()
            invariant
                old(self).wf(),
                pres == present.deep_view(),
                old_es == old(self)@.entries,
                old_ps == old(self)@.progress,
                kpp == keep_progress(old_es, pres),
                0 <= q <= old_ps.len(),
                p == old_ps.subrange(0, q).filter(kpp).len(),
                p <= q,
                progress_views(self.progress@) =~= old_ps.subrange(0, q).filter(kpp) + old_ps.skip(
                    q,
                ),
                progress_wf(progress_views(self.progress@)),
                entry_views(self.entries@) == old_es.filter(keep_entry(pres)),
                entries_wf(entry_views(self.entries@), old(self)@.next_id),
                self.next_id == old(self).next_id,
                forall|x: i64|
                    #[trigger] removed_ids@.contains(x) <==> spec_entry_removed(old_es, pres, x),
            decreases self.progress@.len() - p,
        {
            proof {
                assert(q < old_ps.len()) by {
                    if q == old_ps.len() {
                        assert(old_ps.skip(q).len() == 0);
                    }
                }
                assert(progress_views(self.progress@)[p as int] == old_ps.skip(q)[0]);
                assert(old_ps.skip(q)[0] == old_ps[q]);
                assert(progress_views(self.progress@)[p as int] == self.progress@[p as int]@);
                assert(old_ps.subrange(0, q + 1).drop_last() =~= old_ps.subrange(0, q));
                assert(old_ps.subrange(0, q + 1).last() == old_ps[q]);
            }
            let removed = contains_id(&removed_ids, self.progress[p].media_id);
            proof {
                reveal(Seq::filter);
                assert(!removed == kpp(old_ps[q]));
                assert(old_ps.subrange(0, q + 1).filter(kpp) == if kpp(old_ps[q]) {
                    old_ps.subrange(0, q).filter(kpp).push(old_ps[q])
                } else {
                    old_ps.subrange(0, q).filter(kpp)
                });
            }
            if !removed {
                p = p + 1;
                proof {
                    q = q + 1;
                    assert(progress_views(self.progress@) =~= old_ps.subrange(0, q).filter(kpp)
                        + old_ps.skip(q));
                }
            } else {
                let _ = self.progress.remove(p);
                proof {
                    let ghost prev = old_ps.subrange(0, q).filter(kpp) + old_ps.skip(q);
                    q = q + 1;
                    assert(progress_views(self.progress@) =~= prev.remove(p as int));
                    assert(progress_views(self.progress@) =~= old_ps.subrange(0, q).filter(kpp)
                        + old_ps.skip(q));
                    lemma_progress_wf_remove(prev, p as int);
                }
            }
        }
        proof {
            reveal(Seq::filter);
            assert(q == old_ps.len()) by {
                assert(progress_views(self.progress@).len() == old_ps.subrange(0, q).filter(
                    kpp,
                ).len() + old_ps.skip(q).len());
            }
            assert(old_ps.subrange(0, q) =~= old_ps);
            assert(old_ps.skip(q) =~= Seq::<ProgressView>::empty());
            assert(progress_views(self.progress@) =~= old_ps.filter(kpp));
        }
    }
}

} // verus!
