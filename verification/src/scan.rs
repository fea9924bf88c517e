//! The scan engine: per-file reconciliation against the catalog, the
//! enrichment plan handed back to the caller, and the merge entry
//! points the caller feeds provider answers into.
//!
//! The caller walks the filesystem and talks to the metadata provider;
//! the engine decides. For each discovered file it inserts or updates
//! the catalog row and answers with the follow-up the original control
//! flow would perform: a provider search, an episode listing lookup
//! when series metadata was reused, a cover extraction for archive
//! books, or nothing.

use vstd::prelude::*;
use crate::catalog::{Catalog, CatalogView, EntryView, entries_wf, entry_views, is_cached_series,
    lemma_find_cached_from, lemma_find_id_from, lemma_find_path, opt_view, spec_find_cached,
    spec_find_id, spec_find_path};
use crate::classify::{MediaKind, ext_of, is_archive_ext, spec_classify, stem_of};
use crate::enrich::spec_apply_cached;
use crate::ident::{spec_resolve_book, spec_resolve_video};
use crate::models::{CatalogEntry, Library, LibraryType, provider_views, spec_provider_id};
use crate::text::lower;

verus! {

/// What the caller must do next for a processed file.
pub enum FollowUp {
    /// Nothing: the file was ignored, already known, or not eligible.
    NoAction,
    /// Search the metadata provider for `term`, as a series when `tv`
    /// holds and as a movie otherwise, then hand the normalized result
    /// to `apply_search_metadata`.
    SearchProvider { term: String, tv: bool },
    /// Series metadata was reused from the catalog: fetch the season's
    /// episode listing from the provider under `series_id` and hand it
    /// to `apply_episode_details`.
    EpisodeLookup { series_id: i64, season: i32, episode: i32 },
    /// A newly inserted archive-backed book: pick a cover from the
    /// archive's entry names and cache it under the entry id.
    ExtractCover { entry_id: i64 },
}

/// What processing one file did.
pub struct ProcessOutcome {
    /// A new row was inserted.
    pub inserted: bool,
    /// The id of the row inserted or updated, `None` for ignored files.
    pub entry_id: Option<i64>,
    /// The follow-up the caller should perform.
    pub action: FollowUp,
}

/// The scan engine: the catalog being reconciled, the configured
/// provider name the reuse rule consults, and the single-flight flag
/// that serializes scans.
pub struct ScanEngine {
    pub catalog: Catalog,
    pub provider_name: String,
    pub scan_active: bool,
}

/// How a file is routed, from the extension of its last component.
pub open spec fn file_kind(comps: Seq<Seq<char>>) -> Option<MediaKind> {
    if comps.len() == 0 {
        None
    } else {
        match ext_of(comps.last()) {
            None => None,
            Some(e) => spec_classify(lower(e)),
        }
    }
}

/// The video identity used for inserts and backfill: resolved only for
/// video files of TV-show libraries.
pub open spec fn ident_of(lib: Library, comps: Seq<Seq<char>>, kind: MediaKind) -> Option<
    (Seq<char>, i32, i32),
> {
    if kind == MediaKind::Video && lib.library_type == LibraryType::TvShows && comps.len() > 0 {
        spec_resolve_video(comps, stem_of(comps.last()), lib.name@)
    } else {
        None
    }
}

/// The row inserted for a newly discovered file: the filename-derived
/// title, the resolved identity, and the media-type tag the library
/// type and routing dictate.
pub open spec fn spec_new_entry(
    id: i64,
    lib: Library,
    comps: Seq<Seq<char>>,
    abs: Seq<char>,
    now: i64,
    kind: MediaKind,
) -> EntryView {
    let stem = stem_of(comps.last());
    let base = EntryView {
        id,
        library_id: lib.id,
        file_path: abs,
        title: Some(stem),
        year: None,
        poster_url: None,
        backdrop_url: None,
        still_url: None,
        plot: None,
        media_type: None,
        added_at: Some(now),
        series_name: None,
        season_number: None,
        episode_number: None,
        provider_ids: Seq::empty(),
        runtime: None,
        genres: None,
    };
    let with_identity = if kind == MediaKind::Video {
        match ident_of(lib, comps, kind) {
            Some((s, sn, en)) => EntryView {
                series_name: Some(s),
                season_number: Some(sn),
                episode_number: Some(en),
                ..base
            },
            None => base,
        }
    } else {
        let (s, ch) = spec_resolve_book(comps, stem);
        EntryView { series_name: s, episode_number: ch, ..base }
    };
    if lib.library_type == LibraryType::Other {
        EntryView { media_type: Some("movie"@), ..with_identity }
    } else if kind == MediaKind::Book {
        EntryView { media_type: Some("book"@), ..with_identity }
    } else {
        with_identity
    }
}

/// An existing row on rescan: ownership moves to the scanning library
/// unconditionally, and a TV identity is backfilled only while the
/// stored series name is still missing.
pub open spec fn spec_backfill(
    e: EntryView,
    lib: Library,
    ident: Option<(Seq<char>, i32, i32)>,
) -> EntryView {
    let owned = EntryView { library_id: lib.id, ..e };
    if lib.library_type == LibraryType::TvShows && ident is Some && e.series_name is None {
        EntryView {
            series_name: Some(ident->Some_0.0),
            season_number: Some(ident->Some_0.1),
            episode_number: Some(ident->Some_0.2),
            ..owned
        }
    } else {
        owned
    }
}

/// Whether the series-reuse rule fires for a new row: a TV video row
/// with a resolved series name, when some row of that series already
/// carries a provider id.
pub open spec fn reuse_fires(
    cat: CatalogView,
    provider: Seq<char>,
    lib: Library,
    kind: MediaKind,
    ne: EntryView,
) -> bool {
    &&& kind == MediaKind::Video
    &&& lib.library_type == LibraryType::TvShows
    &&& ne.series_name is Some
    &&& spec_find_cached(cat.entries, ne.series_name->Some_0, provider) is Some
}

/// The row actually inserted: the fresh row, with series-level fields
/// copied from the first reusable row of its series when the reuse
/// rule fires.
pub open spec fn spec_inserted_entry(
    cat: CatalogView,
    provider: Seq<char>,
    lib: Library,
    comps: Seq<Seq<char>>,
    abs: Seq<char>,
    now: i64,
    kind: MediaKind,
) -> EntryView {
    let ne = spec_new_entry(cat.next_id, lib, comps, abs, now, kind);
    if reuse_fires(cat, provider, lib, kind, ne) {
        let c = spec_find_cached(cat.entries, ne.series_name->Some_0, provider)->Some_0;
        spec_apply_cached(ne, cat.entries[c])
    } else {
        ne
    }
}

/// One reconciliation step: what processing one discovered file does
/// to the catalog. Unclassified files change nothing; a known path has
/// its ownership updated and a missing TV identity backfilled; a new
/// path gets a fresh row, with series metadata reused from the catalog
/// when the reuse rule fires.
pub open spec fn spec_reconcile(
    cat: CatalogView,
    provider: Seq<char>,
    lib: Library,
    comps: Seq<Seq<char>>,
    abs: Seq<char>,
    now: i64,
) -> CatalogView {
    match file_kind(comps) {
        None => cat,
        Some(kind) => match spec_find_path(cat.entries, abs) {
            Some(i) => CatalogView {
                entries: cat.entries.update(
                    i,
                    spec_backfill(cat.entries[i], lib, ident_of(lib, comps, kind)),
                ),
                ..cat
            },
            None => CatalogView {
                entries: cat.entries.push(
                    spec_inserted_entry(cat, provider, lib, comps, abs, now, kind),
                ),
                next_id: (cat.next_id + 1) as i64,
                ..cat
            },
        },
    }
}

/// What the outcome of processing one file must say: nothing for
/// ignored files and known paths; for a fresh row, the id drawn for it
/// and the follow-up that the library type, the routing and the reuse
/// rule dictate. A library of type Other gets no follow-up at all, and
/// a reused series never triggers a provider search.
pub open spec fn outcome_ok(
    r: ProcessOutcome,
    cat: CatalogView,
    provider: Seq<char>,
    lib: Library,
    comps: Seq<Seq<char>>,
    abs: Seq<char>,
    now: i64,
) -> bool {
    match file_kind(comps) {
        None => !r.inserted && r.entry_id is None && r.action is NoAction,
        Some(kind) => match spec_find_path(cat.entries, abs) {
            Some(i) => !r.inserted && r.entry_id == Some(cat.entries[i].id) && r.action
                is NoAction,
            None => {
                let ne0 = spec_new_entry(cat.next_id, lib, comps, abs, now, kind);
                &&& r.inserted
                &&& r.entry_id == Some(cat.next_id)
                &&& (lib.library_type == LibraryType::Other ==> r.action is NoAction)
                &&& (lib.library_type != LibraryType::Other && kind == MediaKind::Book
                    ==> if is_archive_ext(lower(ext_of(comps.last())->Some_0)) {
                        r.action matches FollowUp::ExtractCover { entry_id } && entry_id
                            == cat.next_id
                    } else {
                        r.action is NoAction
                    })
                &&& (lib.library_type != LibraryType::Other && kind == MediaKind::Video ==> (
                if reuse_fires(cat, provider, lib, kind, ne0) {
                    let c = spec_find_cached(cat.entries, ne0.series_name->Some_0, provider)
                        ->Some_0;
                    r.action matches FollowUp::EpisodeLookup { series_id, season, episode }
                        && series_id == spec_provider_id(cat.entries[c].provider_ids, provider)
                        ->Some_0 && Some(season) == ne0.season_number && Some(episode)
                        == ne0.episode_number
                } else {
                    r.action matches FollowUp::SearchProvider { term, tv } && tv == (
                    lib.library_type == LibraryType::TvShows) && term@ == (
                    if ne0.series_name is Some {
                        ne0.series_name->Some_0
                    } else {
                        stem_of(comps.last())
                    })
                }))
            },
        },
    }
}

impl ScanEngine {
    /// The engine invariant: the catalog's own.
    pub open spec fn wf(&self) -> bool {
        self.catalog.wf()
    }

    /// A new engine over a catalog, consulting the named provider.
    pub fn new(catalog: Catalog, provider_name: String) -> (r: ScanEngine)
        requires
            catalog.wf(),
        ensures
            r.wf(),
            r.catalog@ == catalog@,
            r.provider_name@ == provider_name@,
            !r.scan_active,
    {
        ScanEngine { catalog, provider_name, scan_active: false }
    }

    /// The single-flight guard: claim the scan if none is running.
    /// Concurrent triggers must serialize on this; a second begin
    /// before the first end is refused.
    pub fn begin_scan(&mut self) -> (r: bool)
        ensures
            r == !old(self).scan_active,
            final(self).scan_active,
            final(self).catalog == old(self).catalog,
            final(self).provider_name == old(self).provider_name,
    {
        let was_active = self.scan_active;
        self.scan_active = true;
        !was_active
    }

    /// Release the single-flight guard at the end of a scan.
    pub fn end_scan(&mut self)
        ensures
            !final(self).scan_active,
            final(self).catalog == old(self).catalog,
            final(self).provider_name == old(self).provider_name,
    {
        self.scan_active = false;
    }

    /// Process one discovered file: classify it by extension, resolve
    /// its identity, reconcile the catalog row for its path, and hand
    /// back the follow-up to perform. `rel_components` are the path
    /// components below the library root, the filename last; `abs_path`
    /// is the absolute path, the catalog's natural key.
    pub fn process_file(
        &mut self,
        lib: &Library,
        rel_components: &Vec<String>,
        abs_path: &str,
        now: i64,
    ) -> (r: ProcessOutcome)
        requires
            old(self).wf(),
            old(self).catalog@.next_id < i64::MAX,
        ensures
            final(self).wf(),
            final(self).provider_name == old(self).provider_name,
            final(self).scan_active == old(self).scan_active,
            final(self).catalog@ == spec_reconcile(
                old(self).catalog@,
                old(self).provider_name@,
                *lib,
                rel_components.deep_view(),
                abs_path@,
                now,
            ),
            outcome_ok(
                r,
                old(self).catalog@,
                old(self).provider_name@,
                *lib,
                rel_components.deep_view(),
                abs_path@,
                now,
            ),
    {
        let ghost cat0 = self.catalog@;
        let ghost comps = rel_components.deep_view();
        let ghost provider = self.provider_name@;
        let n = rel_components.len();
        if n == 0 {
            return ProcessOutcome { inserted: false, entry_id: None, action: FollowUp::NoAction };
        }
        proof {
            assert(comps[n - 1] == rel_components@[n - 1]@);
            assert(comps.last() == rel_components@[n - 1]@);
        }
        let filename: &String = &rel_components[n - 1];
        let (stem, ext) = crate::classify::split_name(filename.as_str());
        let kind_opt: Option<MediaKind> = match &ext {
            None => None,
            Some(e) => crate::classify::classify_extension(e.as_str()),
        };
        proof {
            assert(file_kind(comps) == kind_opt);
        }
        let kind = match kind_opt {
            None => {
                return ProcessOutcome {
                    inserted: false,
                    entry_id: None,
                    action: FollowUp::NoAction,
                };
            },
            Some(k) => k,
        };
        let ident: Option<crate::ident::VideoIdentity> = if kind == MediaKind::Video
            && lib.library_type == LibraryType::TvShows {
            crate::ident::resolve_video(rel_components, stem.as_str(), lib.name.as_str())
        } else {
            None
        };
        proof {
            let sp = ident_of(*lib, comps, kind);
            if ident is Some {
                assert(sp is Some);
                assert(ident->Some_0.series@ == sp->Some_0.0);
                assert(ident->Some_0.season == sp->Some_0.1);
                assert(ident->Some_0.episode == sp->Some_0.2);
            } else {
                assert(sp is None);
            }
        }
        match self.catalog.find_by_path(abs_path) {
            Some(i) => {
                proof {
                    lemma_find_path(cat0.entries, abs_path@);
                    assert(cat0.entries[i as int] == self.catalog.entries@[i as int]@);
                }
                let mut e = self.catalog.entries.remove(i);
                let id = e.id;
                e.library_id = lib.id;
                if lib.library_type == LibraryType::TvShows && e.series_name.is_none() {
                    if let Some(vi) = &ident {
                        e.series_name = Some(vi.series.clone());
                        e.season_number = Some(vi.season);
                        e.episode_number = Some(vi.episode);
                    }
                }
                proof {
                    assert(e@ =~= spec_backfill(
                        cat0.entries[i as int],
                        *lib,
                        ident_of(*lib, comps, kind),
                    ));
                }
                self.catalog.entries.insert(i, e);
                proof {
                    let ghost target = spec_reconcile(cat0, provider, *lib, comps, abs_path@, now);
                    assert(self.catalog@.entries =~= cat0.entries.update(
                        i as int,
                        spec_backfill(cat0.entries[i as int], *lib, ident_of(*lib, comps, kind)),
                    ));
                    assert(self.catalog@ =~= target);
                    assert forall|a: int, b: int|
                        0 <= a < b < self.catalog@.entries.len() implies (
                    #[trigger] self.catalog@.entries[a]).id != (
                    #[trigger] self.catalog@.entries[b]).id by {
                        assert(cat0.entries[a].id == self.catalog@.entries[a].id);
                        assert(cat0.entries[b].id == self.catalog@.entries[b].id);
                    }
                    assert forall|a: int, b: int|
                        0 <= a < b < self.catalog@.entries.len() implies (
                    #[trigger] self.catalog@.entries[a]).file_path != (
                    #[trigger] self.catalog@.entries[b]).file_path by {
                        assert(cat0.entries[a].file_path == self.catalog@.entries[a].file_path);
                        assert(cat0.entries[b].file_path == self.catalog@.entries[b].file_path);
                    }
                    assert forall|a: int|
                        0 <= a < self.catalog@.entries.len() implies 1 <= (
                    #[trigger] self.catalog@.entries[a]).id < self.catalog@.next_id by {
                        assert(cat0.entries[a].id == self.catalog@.entries[a].id);
                    }
                }
                ProcessOutcome { inserted: false, entry_id: Some(id), action: FollowUp::NoAction }
            },
            None => {
                proof {
                    lemma_find_path(cat0.entries, abs_path@);
                }
                let id = self.catalog.next_id;
                self.catalog.next_id = id + 1;
                let mut entry = CatalogEntry {
                    id,
                    library_id: lib.id,
                    file_path: abs_path.to_owned(),
                    title: Some(stem.clone()),
                    year: None,
                    poster_url: None,
                    backdrop_url: None,
                    still_url: None,
                    plot: None,
                    media_type: None,
                    added_at: Some(now),
                    series_name: None,
                    season_number: None,
                    episode_number: None,
                    provider_ids: Vec::new(),
                    runtime: None,
                    genres: None,
                };
                if kind == MediaKind::Video {
                    if let Some(vi) = &ident {
                        entry.series_name = Some(vi.series.clone());
                        entry.season_number = Some(vi.season);
                        entry.episode_number = Some(vi.episode);
                    }
                } else {
                    let bi = crate::ident::resolve_book(rel_components, stem.as_str());
                    entry.series_name = bi.series;
                    entry.episode_number = bi.chapter;
                }
                if lib.library_type == LibraryType::Other {
                    entry.media_type = Some("movie".to_owned());
                } else if kind == MediaKind::Book {
                    entry.media_type = Some("book".to_owned());
                }
                let ghost ne0 = spec_new_entry(cat0.next_id, *lib, comps, abs_path@, now, kind);
                proof {
                    assert(entry@ =~= ne0);
                }
                let mut reuse_idx: Option<usize> = None;
                if kind == MediaKind::Video && lib.library_type == LibraryType::TvShows {
                    if let Some(s) = &entry.series_name {
                        reuse_idx = self.catalog.find_cached_series(
                            s.as_str(),
                            self.provider_name.as_str(),
                        );
                    }
                }
                proof {
                    if reuse_idx is Some {
                        assert(reuse_fires(cat0, provider, *lib, kind, ne0));
                        assert(reuse_idx->Some_0 as int == spec_find_cached(
                            cat0.entries,
                            ne0.series_name->Some_0,
                            provider,
                        )->Some_0);
                    } else {
                        assert(!reuse_fires(cat0, provider, *lib, kind, ne0));
                    }
                }
                let action: FollowUp;
                if let Some(c) = reuse_idx {
                    proof {
                        lemma_find_cached_from(cat0.entries, ne0.series_name->Some_0, provider, 0);
                        assert(cat0.entries[c as int] == self.catalog.entries@[c as int]@);
                        assert(is_cached_series(
                            cat0.entries[c as int],
                            ne0.series_name->Some_0,
                            provider,
                        ));
                    }
                    let cached = &self.catalog.entries[c];
                    entry.year = cached.year;
                    entry.poster_url = crate::enrich::clone_opt_string(&cached.poster_url);
                    entry.backdrop_url = crate::enrich::clone_opt_string(&cached.backdrop_url);
                    entry.plot = crate::enrich::clone_opt_string(&cached.plot);
                    entry.media_type = crate::enrich::clone_opt_string(&cached.media_type);
                    entry.genres = crate::enrich::clone_opt_string(&cached.genres);
                    entry.provider_ids = crate::enrich::clone_provider_ids(&cached.provider_ids);
                    entry.still_url = None;
                    proof {
                        assert(entry@ =~= spec_apply_cached(ne0, cat0.entries[c as int]));
                    }
                    let cid = crate::models::provider_id_of(
                        &cached.provider_ids,
                        self.provider_name.as_str(),
                    );
                    action = match (cid, entry.season_number, entry.episode_number) {
                        (Some(series_id), Some(season), Some(episode)) => FollowUp::EpisodeLookup {
                            series_id,
                            season,
                            episode,
                        },
                        _ => {
                            proof {
                                assert(false);
                            }
                            FollowUp::NoAction
                        },
                    };
                } else if lib.library_type == LibraryType::Other {
                    action = FollowUp::NoAction;
                } else if kind == MediaKind::Book {
                    let archive = match &ext {
                        Some(e) => crate::classify::is_archive_extension(e.as_str()),
                        None => false,
                    };
                    if archive {
                        action = FollowUp::ExtractCover { entry_id: id };
                    } else {
                        action = FollowUp::NoAction;
                    }
                } else {
                    let term = match &entry.series_name {
                        Some(s) => s.clone(),
                        None => stem,
                    };
                    action = FollowUp::SearchProvider {
                        term,
                        tv: lib.library_type == LibraryType::TvShows,
                    };
                }
                self.catalog.entries.push(entry);
                proof {
                    let ghost target = spec_reconcile(cat0, provider, *lib, comps, abs_path@, now);
                    assert(self.catalog@.entries =~= cat0.entries.push(
                        spec_inserted_entry(cat0, provider, *lib, comps, abs_path@, now, kind),
                    ));
                    assert(self.catalog@ =~= target);
                    let ghost es = self.catalog@.entries;
                    assert forall|a: int, b: int| 0 <= a < b < es.len() implies (
                    #[trigger] es[a]).id != (#[trigger] es[b]).id by {
                        if b < es.len() - 1 {
                            assert(cat0.entries[a].id == es[a].id);
                            assert(cat0.entries[b].id == es[b].id);
                        } else {
                            assert(cat0.entries[a].id == es[a].id);
                            assert(es[b].id == cat0.next_id);
                        }
                    }
                    assert forall|a: int, b: int| 0 <= a < b < es.len() implies (
                    #[trigger] es[a]).file_path != (#[trigger] es[b]).file_path by {
                        if b < es.len() - 1 {
                            assert(cat0.entries[a].file_path == es[a].file_path);
                            assert(cat0.entries[b].file_path == es[b].file_path);
                        } else {
                            assert(cat0.entries[a].file_path == es[a].file_path);
                            assert(es[b].file_path == abs_path@);
                        }
                    }
                    assert forall|a: int| 0 <= a < es.len() implies 1 <= (#[trigger] es[a]).id
                        < self.catalog@.next_id by {
                        if a < es.len() - 1 {
                            assert(cat0.entries[a].id == es[a].id);
                        }
                    }
                }
                ProcessOutcome { inserted: true, entry_id: Some(id), action }
            },
        }
    }
}

/// The catalog after search metadata is merged onto the row with the
/// given id: the TV policy or the movie policy, by the `tv` flag the
/// search was issued with. A vanished id changes nothing.
pub open spec fn spec_apply_search(
    cat: CatalogView,
    entry_id: i64,
    tv: bool,
    meta: crate::models::NormalizedMetadata,
) -> CatalogView {
    match spec_find_id(cat.entries, entry_id) {
        None => cat,
        Some(i) => CatalogView {
            entries: cat.entries.update(
                i,
                if tv {
                    crate::enrich::spec_apply_series(cat.entries[i], meta)
                } else {
                    crate::enrich::spec_apply_movie(cat.entries[i], meta)
                },
            ),
            ..cat
        },
    }
}

/// The catalog after a season's episode listing is merged onto the row
/// with the given id: the listed episode whose number matches the
/// row's episode number supplies title, overview and still image. No
/// match, or a row without an episode number, changes nothing.
pub open spec fn spec_apply_episodes(
    cat: CatalogView,
    entry_id: i64,
    eps: Seq<crate::models::EpisodeMetadata>,
) -> CatalogView {
    match spec_find_id(cat.entries, entry_id) {
        None => cat,
        Some(i) => match cat.entries[i].episode_number {
            None => cat,
            Some(en) => match crate::enrich::spec_find_episode(eps, en) {
                None => cat,
                Some(j) => CatalogView {
                    entries: cat.entries.update(
                        i,
                        crate::enrich::spec_apply_episode(cat.entries[i], eps[j]),
                    ),
                    ..cat
                },
            },
        },
    }
}

impl ScanEngine {
    /// Merge a provider search result onto the row it was requested
    /// for, under the movie or TV overwrite policy, and say whether an
    /// episode-detail lookup should follow: it should when the search
    /// was for TV, the result carries an id under the configured
    /// provider, and the row knows its season and episode numbers.
    pub fn apply_search_metadata(
        &mut self,
        entry_id: i64,
        tv: bool,
        meta: &crate::models::NormalizedMetadata,
    ) -> (r: FollowUp)
        requires
            old(self).wf(),
        ensures
            final(self).wf(),
            final(self).provider_name == old(self).provider_name,
            final(self).scan_active == old(self).scan_active,
            final(self).catalog@ == spec_apply_search(old(self).catalog@, entry_id, tv, *meta),
            ({
                let found = spec_find_id(old(self).catalog@.entries, entry_id);
                let pid = spec_provider_id(provider_views(meta.provider_ids@), old(self).provider_name@);
                if found is Some && tv && pid is Some && old(self).catalog@.entries[found->Some_0].season_number is Some
                    && old(self).catalog@.entries[found->Some_0].episode_number is Some {
                    r matches FollowUp::EpisodeLookup { series_id, season, episode }
                        && series_id == pid->Some_0
                        && Some(season) == old(self).catalog@.entries[found->Some_0].season_number
                        && Some(episode) == old(self).catalog@.entries[found->Some_0].episode_number
                } else {
                    r is NoAction
                }
            }),
    {
        let ghost cat0 = self.catalog@;
        let ghost provider = self.provider_name@;
        let found = self.catalog.find_by_id(entry_id);
        let i = match found {
            None => {
                return FollowUp::NoAction;
            },
            Some(i) => i,
        };
        proof {
            lemma_find_id_from(cat0.entries, entry_id, 0);
            assert(cat0.entries[i as int] == self.catalog.entries@[i as int]@);
        }
        let mut e = self.catalog.entries.remove(i);
        let season_number = e.season_number;
        let episode_number = e.episode_number;
        e.year = Some(
            match &meta.year {
                None => 0,
                Some(y) => crate::text::parse_i64_or_zero_exec(y.as_str()),
            },
        );
        e.poster_url = crate::enrich::clone_opt_string(&meta.poster_url);
        e.plot = crate::enrich::clone_opt_string(&meta.plot);
        e.media_type = crate::enrich::clone_opt_string(&meta.media_type);
        e.backdrop_url = crate::enrich::clone_opt_string(&meta.backdrop_url);
        e.provider_ids = crate::enrich::clone_provider_ids(&meta.provider_ids);
        e.runtime = meta.runtime;
        e.genres = match &meta.genres {
            None => None,
            Some(g) => Some(crate::enrich::join_genres(g)),
        };
        if tv {
            e.series_name = Some(meta.title.clone());
            e.still_url = None;
            proof {
                assert(e@ =~= crate::enrich::spec_apply_series(cat0.entries[i as int], *meta));
            }
        } else {
            e.title = Some(meta.title.clone());
            proof {
                assert(e@ =~= crate::enrich::spec_apply_movie(cat0.entries[i as int], *meta));
            }
        }
        self.catalog.entries.insert(i, e);
        proof {
            let ghost target = spec_apply_search(cat0, entry_id, tv, *meta);
            assert(self.catalog@.entries =~= cat0.entries.update(
                i as int,
                if tv {
                    crate::enrich::spec_apply_series(cat0.entries[i as int], *meta)
                } else {
                    crate::enrich::spec_apply_movie(cat0.entries[i as int], *meta)
                },
            ));
            assert(self.catalog@ =~= target);
            assert forall|a: int, b: int| 0 <= a < b < self.catalog@.entries.len() implies (
            #[trigger] self.catalog@.entries[a]).id != (#[trigger] self.catalog@.entries[b]).id by {
                assert(cat0.entries[a].id == self.catalog@.entries[a].id);
                assert(cat0.entries[b].id == self.catalog@.entries[b].id);
            }
            assert forall|a: int, b: int| 0 <= a < b < self.catalog@.entries.len() implies (
            #[trigger] self.catalog@.entries[a]).file_path != (
            #[trigger] self.catalog@.entries[b]).file_path by {
                assert(cat0.entries[a].file_path == self.catalog@.entries[a].file_path);
                assert(cat0.entries[b].file_path == self.catalog@.entries[b].file_path);
            }
            assert forall|a: int|
                0 <= a < self.catalog@.entries.len() implies 1 <= (
            #[trigger] self.catalog@.entries[a]).id < self.catalog@.next_id by {
                assert(cat0.entries[a].id == self.catalog@.entries[a].id);
            }
        }
        if tv {
            let pid = crate::models::provider_id_of(
                &meta.provider_ids,
                self.provider_name.as_str(),
            );
            match (pid, season_number, episode_number) {
                (Some(series_id), Some(season), Some(episode)) => FollowUp::EpisodeLookup {
                    series_id,
                    season,
                    episode,
                },
                _ => FollowUp::NoAction,
            }
        } else {
            FollowUp::NoAction
        }
    }

    /// Merge a season's episode listing onto the row it was fetched
    /// for: the episode matched by number supplies the title, a
    /// non-empty overview, and the still image.
    pub fn apply_episode_details(
        &mut self,
        entry_id: i64,
        episodes: &Vec<crate::models::EpisodeMetadata>,
    )
        requires
            old(self).wf(),
        ensures
            final(self).wf(),
            final(self).provider_name == old(self).provider_name,
            final(self).scan_active == old(self).scan_active,
            final(self).catalog@ == spec_apply_episodes(old(self).catalog@, entry_id, episodes@),
    {
        let ghost cat0 = self.catalog@;
        let found = self.catalog.find_by_id(entry_id);
        let i = match found {
            None => {
                return ;
            },
            Some(i) => i,
        };
        proof {
            lemma_find_id_from(cat0.entries, entry_id, 0);
            assert(cat0.entries[i as int] == self.catalog.entries@[i as int]@);
        }
        let en = match self.catalog.entries[i].episode_number {
            None => {
                return ;
            },
            Some(en) => en,
        };
        let j = match crate::enrich::find_episode(episodes, en) {
            None => {
                return ;
            },
            Some(j) => j,
        };
        let mut e = self.catalog.entries.remove(i);
        let ep = &episodes[j];
        e.title = Some(ep.name.clone());
        if !ep.overview.as_str().is_empty() {
            e.plot = Some(ep.overview.clone());
        }
        if let Some(u) = &ep.still_path {
            e.still_url = Some(u.clone());
        }
        proof {
            assert(e@ =~= crate::enrich::spec_apply_episode(
                cat0.entries[i as int],
                episodes@[j as int],
            ));
        }
        self.catalog.entries.insert(i, e);
        proof {
            let ghost target = spec_apply_episodes(cat0, entry_id, episodes@);
            assert(self.catalog@.entries =~= cat0.entries.update(
                i as int,
                crate::enrich::spec_apply_episode(cat0.entries[i as int], episodes@[j as int]),
            ));
            assert(self.catalog@ =~= target);
            assert forall|a: int, b: int| 0 <= a < b < self.catalog@.entries.len() implies (
            #[trigger] self.catalog@.entries[a]).id != (#[trigger] self.catalog@.entries[b]).id by {
                assert(cat0.entries[a].id == self.catalog@.entries[a].id);
                assert(cat0.entries[b].id == self.catalog@.entries[b].id);
            }
            assert forall|a: int, b: int| 0 <= a < b < self.catalog@.entries.len() implies (
            #[trigger] self.catalog@.entries[a]).file_path != (
            #[trigger] self.catalog@.entries[b]).file_path by {
                assert(cat0.entries[a].file_path == self.catalog@.entries[a].file_path);
                assert(cat0.entries[b].file_path == self.catalog@.entries[b].file_path);
            }
            assert forall|a: int|
                0 <= a < self.catalog@.entries.len() implies 1 <= (
            #[trigger] self.catalog@.entries[a]).id < self.catalog@.next_id by {
                assert(cat0.entries[a].id == self.catalog@.entries[a].id);
            }
        }
    }
}

} // verus!
