//! Laws of the reconciliation step, proved once over its mathematical
//! form: rescans are idempotent, the series-reuse rule copies the
//! cached series metadata, and rows of an Other-typed library are
//! tagged as movies.

use vstd::prelude::*;
use crate::catalog::{CatalogView, EntryView, lemma_find_path, lemma_find_path_unique,
    spec_find_cached, spec_find_path};
use crate::classify::MediaKind;
use crate::models::{Library, LibraryType};
use crate::scan::{file_kind, ident_of, reuse_fires, spec_backfill, spec_inserted_entry,
    spec_new_entry, spec_reconcile};

verus! {

/// Scanning an unchanged file twice is the same as scanning it once:
/// the second pass finds the row by its path, re-asserts the same
/// ownership, and backfills nothing, so no duplicate row appears and
/// no already-set field moves.
pub proof fn lemma_rescan_idempotent(
    cat: CatalogView,
    provider: Seq<char>,
    lib: Library,
    comps: Seq<Seq<char>>,
    abs: Seq<char>,
    now: i64,
    now2: i64,
)
    ensures
        spec_reconcile(
            spec_reconcile(cat, provider, lib, comps, abs, now),
            provider,
            lib,
            comps,
            abs,
            now2,
        ) == spec_reconcile(cat, provider, lib, comps, abs, now),
{
    let c1 = spec_reconcile(cat, provider, lib, comps, abs, now);
    match file_kind(comps) {
        None => {},
        Some(kind) => {
            let ident = ident_of(lib, comps, kind);
            match spec_find_path(cat.entries, abs) {
                Some(i) => {
                    lemma_find_path(cat.entries, abs);
                    let e = cat.entries[i];
                    let e1 = spec_backfill(e, lib, ident);
                    assert(e1.file_path == e.file_path);
                    assert(c1.entries == cat.entries.update(i, e1));
                    assert forall|j: int| 0 <= j < i implies (
                    #[trigger] c1.entries[j]).file_path != abs by {
                        assert(c1.entries[j] == cat.entries[j]);
                    }
                    lemma_find_path_unique(c1.entries, abs, i);
                    // a second backfill never fires: either the first
                    // one set the series name, or its condition was
                    // false then too
                    let e2 = spec_backfill(e1, lib, ident);
                    assert(e2 =~= e1);
                    assert(c1.entries.update(i, e2) =~= c1.entries);
                    assert(spec_reconcile(c1, provider, lib, comps, abs, now2) =~= c1);
                },
                None => {
                    lemma_find_path(cat.entries, abs);
                    let ne = spec_inserted_entry(cat, provider, lib, comps, abs, now, kind);
                    let q = cat.entries.len() as int;
                    assert(c1.entries == cat.entries.push(ne));
                    assert(ne.file_path == abs);
                    assert(c1.entries[q] == ne);
                    assert forall|j: int| 0 <= j < q implies (
                    #[trigger] c1.entries[j]).file_path != abs by {
                        assert(c1.entries[j] == cat.entries[j]);
                    }
                    lemma_find_path_unique(c1.entries, abs, q);
                    // the fresh row needs no backfill: a TV video row
                    // is inserted with its series identity already set
                    let e2 = spec_backfill(ne, lib, ident);
                    assert(e2 =~= ne);
                    assert(c1.entries.update(q, e2) =~= c1.entries);
                    assert(spec_reconcile(c1, provider, lib, comps, abs, now2) =~= c1);
                },
            }
        },
    }
}

/// When a second episode of an already enriched series is discovered,
/// its row is inserted with the poster, backdrop, plot, year, genres
/// and provider ids of the first reusable row of that series; no
/// provider search is needed for it.
pub proof fn lemma_series_metadata_reuse(
    cat: CatalogView,
    provider: Seq<char>,
    lib: Library,
    comps: Seq<Seq<char>>,
    abs: Seq<char>,
    now: i64,
)
    requires
        file_kind(comps) == Some(MediaKind::Video),
        lib.library_type == LibraryType::TvShows,
        spec_find_path(cat.entries, abs) is None,
        spec_new_entry(cat.next_id, lib, comps, abs, now, MediaKind::Video).series_name is Some,
        spec_find_cached(
            cat.entries,
            spec_new_entry(cat.next_id, lib, comps, abs, now, MediaKind::Video).series_name
                ->Some_0,
            provider,
        ) is Some,
    ensures
        ({
            let ne0 = spec_new_entry(cat.next_id, lib, comps, abs, now, MediaKind::Video);
            let c = spec_find_cached(cat.entries, ne0.series_name->Some_0, provider)->Some_0;
            let after = spec_reconcile(cat, provider, lib, comps, abs, now);
            &&& after.entries.len() == cat.entries.len() + 1
            &&& after.entries.last().poster_url == cat.entries[c].poster_url
            &&& after.entries.last().backdrop_url == cat.entries[c].backdrop_url
            &&& after.entries.last().plot == cat.entries[c].plot
            &&& after.entries.last().year == cat.entries[c].year
            &&& after.entries.last().genres == cat.entries[c].genres
            &&& after.entries.last().provider_ids == cat.entries[c].provider_ids
            &&& after.entries.last().series_name == ne0.series_name
        }),
{
    let ne0 = spec_new_entry(cat.next_id, lib, comps, abs, now, MediaKind::Video);
    assert(reuse_fires(cat, provider, lib, MediaKind::Video, ne0));
}

/// A row inserted for a file of an Other-typed library is tagged as a
/// movie; its outcome carries no follow-up, so such rows never reach
/// the enrichment orchestrator.
pub proof fn lemma_other_library_media_type(
    cat: CatalogView,
    provider: Seq<char>,
    lib: Library,
    comps: Seq<Seq<char>>,
    abs: Seq<char>,
    now: i64,
)
    requires
        lib.library_type == LibraryType::Other,
        file_kind(comps) is Some,
        spec_find_path(cat.entries, abs) is None,
    ensures
        ({
            let after = spec_reconcile(cat, provider, lib, comps, abs, now);
            &&& after.entries.len() == cat.entries.len() + 1
            &&& after.entries.last().media_type == Some("movie"@)
        }),
{
    let kind = file_kind(comps)->Some_0;
    let ne0 = spec_new_entry(cat.next_id, lib, comps, abs, now, kind);
    assert(!reuse_fires(cat, provider, lib, kind, ne0));
    assert(ne0.media_type == Some("movie"@));
}

} // verus!
