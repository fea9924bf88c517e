//! Series-level catalog operations behind the refresh and identify
//! flows: push series metadata onto every row of a series, set one
//! episode's details, and list a series' seasons.
//!
//! Row selection mirrors the store's comparison semantics: a row with
//! no media-type tag fails the `not a book` test and is left alone.

use vstd::prelude::*;
use crate::catalog::{Catalog, EntryView, contains_i32, opt_view};
use crate::enrich::{genres_of, year_of};
use crate::models::{NormalizedMetadata, provider_views};

verus! {

/// Whether a row carries a media-type tag other than `book`; untagged
/// rows do not qualify.
pub open spec fn tagged_not_book(e: EntryView) -> bool {
    e.media_type is Some && e.media_type->Some_0 != "book"@
}

/// Exec test for a non-book tag.
fn tagged_not_book_exec(e: &crate::models::CatalogEntry) -> (r: bool)
    ensures
        r == tagged_not_book(e@),
{
    match &e.media_type {
        None => false,
        Some(mt) => !crate::classify::chars_eq_str(&crate::text::chars_of(mt.as_str()), "book"),
    }
}

/// One row after a series-level refresh: rows of the series that carry
/// a non-book tag take the poster, backdrop, plot, year, genres and
/// provider ids; every other row is unchanged.
pub open spec fn spec_series_update(
    e: EntryView,
    series: Seq<char>,
    meta: NormalizedMetadata,
) -> EntryView {
    if e.series_name == Some(series) && tagged_not_book(e) {
        EntryView {
            poster_url: opt_view(meta.poster_url),
            backdrop_url: opt_view(meta.backdrop_url),
            plot: opt_view(meta.plot),
            year: Some(year_of(meta.year)),
            genres: genres_of(meta.genres),
            provider_ids: provider_views(meta.provider_ids@),
            ..e
        }
    } else {
        e
    }
}

/// One row after an episode-detail refresh: the row of the series with
/// the given season and episode numbers and a non-book tag takes the
/// given title, plot and still image; every other row is unchanged.
pub open spec fn spec_episode_update(
    e: EntryView,
    series: Seq<char>,
    season: i32,
    episode: i32,
    title: Seq<char>,
    plot: Seq<char>,
    still_url: Option<Seq<char>>,
) -> EntryView {
    if e.series_name == Some(series) && e.season_number == Some(season) && e.episode_number
        == Some(episode) && tagged_not_book(e) {
        EntryView { title: Some(title), plot: Some(plot), still_url, ..e }
    } else {
        e
    }
}

impl Catalog {
    /// Push series-level metadata onto every non-book row of a series.
    pub fn update_series_metadata(&mut self, series_name: &str, meta: &NormalizedMetadata)
        requires
            old(self).wf(),
        ensures
            final(self).wf(),
            final(self)@.next_id == old(self)@.next_id,
            final(self)@.progress == old(self)@.progress,
            final(self)@.entries.len() == old(self)@.entries.len(),
            forall|i: int|
                0 <= i < old(self)@.entries.len() ==> #[trigger] final(self)@.entries[i]
                    == spec_series_update(old(self)@.entries[i], series_name@, *meta),
    {
        let ghost es0 = self@.entries;
        let mut i: usize = 0;
        while i < self.entries.len()
            invariant
                old(self).wf(),
                es0 == old(self)@.entries,
                self@.entries.len() == es0.len(),
                i <= es0.len(),
                self.next_id == old(self).next_id,
                self.progress@ == old(self).progress@,
                forall|k: int|
                    0 <= k < i ==> #[trigger] self@.entries[k] == spec_series_update(
                        es0[k],
                        series_name@,
                        *meta,
                    ),
                forall|k: int| i <= k < es0.len() ==> #[trigger] self@.entries[k] == es0[k],
            decreases es0.len() - i,
        {
            proof {
                assert(self@.entries[i as int] == self.entries@[i as int]@);
            }
            let matches_series = match &self.entries[i].series_name {
                Some(s) => crate::classify::chars_eq_str(
                    &crate::text::chars_of(s.as_str()),
                    series_name,
                ),
                None => false,
            };
            if matches_series && tagged_not_book_exec(&self.entries[i]) {
                let ghost prev = self@.entries;
                let mut e = self.entries.remove(i);
                e.poster_url = crate::enrich::clone_opt_string(&meta.poster_url);
                e.backdrop_url = crate::enrich::clone_opt_string(&meta.backdrop_url);
                e.plot = crate::enrich::clone_opt_string(&meta.plot);
                e.year = Some(
                    match &meta.year {
                        None => 0,
                        Some(y) => crate::text::parse_i64_or_zero_exec(y.as_str()),
                    },
                );
                e.genres = match &meta.genres {
                    None => None,
                    Some(g) => Some(crate::enrich::join_genres(g)),
                };
                e.provider_ids = crate::enrich::clone_provider_ids(&meta.provider_ids);
                let ghost ev = e@;
                proof {
                    assert(ev =~= spec_series_update(es0[i as int], series_name@, *meta));
                }
                self.entries.insert(i, e);
                proof {
                    assert(self@.entries =~= prev.update(i as int, ev));
                }
            }
            i = i + 1;
        }
        proof {
            assert forall|a: int, b: int| 0 <= a < b < self@.entries.len() implies (
            #[trigger] self@.entries[a]).id != (#[trigger] self@.entries[b]).id by {
                assert(es0[a].id == self@.entries[a].id);
                assert(es0[b].id == self@.entries[b].id);
            }
            assert forall|a: int, b: int| 0 <= a < b < self@.entries.len() implies (
            #[trigger] self@.entries[a]).file_path != (#[trigger] self@.entries[b]).file_path by {
                assert(es0[a].file_path == self@.entries[a].file_path);
                assert(es0[b].file_path == self@.entries[b].file_path);
            }
            assert forall|a: int|
                0 <= a < self@.entries.len() implies 1 <= (#[trigger] self@.entries[a]).id
                < self@.next_id by {
                assert(es0[a].id == self@.entries[a].id);
            }
        }
    }

    /// Set one episode's title, plot and still image, matched by
    /// series name and season and episode numbers.
    pub fn update_episode_details(
        &mut self,
        series_name: &str,
        season_number: i32,
        episode_number: i32,
        title: &str,
        plot: &str,
        still_url: &Option<String>,
    )
        requires
            old(self).wf(),
        ensures
            final(self).wf(),
            final(self)@.next_id == old(self)@.next_id,
            final(self)@.progress == old(self)@.progress,
            final(self)@.entries.len() == old(self)@.entries.len(),
            forall|i: int|
                0 <= i < old(self)@.entries.len() ==> #[trigger] final(self)@.entries[i]
                    == spec_episode_update(
                    old(self)@.entries[i],
                    series_name@,
                    season_number,
                    episode_number,
                    title@,
                    plot@,
                    opt_view(*still_url),
                ),
    {
        let ghost es0 = self@.entries;
        let mut i: usize = 0;
        while i < self.entries.len()
            invariant
                old(self).wf(),
                es0 == old(self)@.entries,
                self@.entries.len() == es0.len(),
                i <= es0.len(),
                self.next_id == old(self).next_id,
                self.progress@ == old(self).progress@,
                forall|k: int|
                    0 <= k < i ==> #[trigger] self@.entries[k] == spec_episode_update(
                        es0[k],
                        series_name@,
                        season_number,
                        episode_number,
                        title@,
                        plot@,
                        opt_view(*still_url),
                    ),
                forall|k: int| i <= k < es0.len() ==> #[trigger] self@.entries[k] == es0[k],
            decreases es0.len() - i,
        {
            proof {
                assert(self@.entries[i as int] == self.entries@[i as int]@);
            }
            let matches_series = match &self.entries[i].series_name {
                Some(s) => crate::classify::chars_eq_str(
                    &crate::text::chars_of(s.as_str()),
                    series_name,
                ),
                None => false,
            };
            let matches_numbers = self.entries[i].season_number == Some(season_number)
                && self.entries[i].episode_number == Some(episode_number);
            if matches_series && matches_numbers && tagged_not_book_exec(&self.entries[i]) {
                let ghost prev = self@.entries;
                let mut e = self.entries.remove(i);
                e.title = Some(title.to_owned());
                e.plot = Some(plot.to_owned());
                e.still_url = crate::enrich::clone_opt_string(still_url);
                let ghost ev = e@;
                proof {
                    assert(ev =~= spec_episode_update(
                        es0[i as int],
                        series_name@,
                        season_number,
                        episode_number,
                        title@,
                        plot@,
                        opt_view(*still_url),
                    ));
                }
                self.entries.insert(i, e);
                proof {
                    assert(self@.entries =~= prev.update(i as int, ev));
                }
            }
            i = i + 1;
        }
        proof {
            assert forall|a: int, b: int| 0 <= a < b < self@.entries.len() implies (
            #[trigger] self@.entries[a]).id != (#[trigger] self@.entries[b]).id by {
                assert(es0[a].id == self@.entries[a].id);
                assert(es0[b].id == self@.entries[b].id);
            }
            assert forall|a: int, b: int| 0 <= a < b < self@.entries.len() implies (
            #[trigger] self@.entries[a]).file_path != (#[trigger] self@.entries[b]).file_path by {
                assert(es0[a].file_path == self@.entries[a].file_path);
                assert(es0[b].file_path == self@.entries[b].file_path);
            }
            assert forall|a: int|
                0 <= a < self@.entries.len() implies 1 <= (#[trigger] self@.entries[a]).id
                < self@.next_id by {
                assert(es0[a].id == self@.entries[a].id);
            }
        }
    }

    /// The distinct season numbers of a series' non-book rows, each
    /// listed once, in order of first appearance.
    pub fn get_series_seasons(&self, series_name: &str) -> (r: Vec<i32>)
        ensures
            forall|a: int, b: int| 0 <= a < b < r@.len() ==> r@[a] != r@[b],
            forall|x: i32|
                #[trigger] r@.contains(x) <==> (exists|i: int|
                    0 <= i < self@.entries.len() && (#[trigger] self@.entries[i]).series_name
                        == Some(series_name@) && self@.entries[i].season_number == Some(x)
                        && tagged_not_book(self@.entries[i])),
    {
        let ghost es = self@.entries;
        let mut r: Vec<i32> = Vec::new();
        let mut i: usize = 0;
        while i < self.entries.len()
            invariant
                es == self@.entries,
                es.len() == self.entries@.len(),
                forall|k: int| 0 <= k < es.len() ==> es[k] == self.entries@[k]@,
                i <= es.len(),
                forall|a: int, b: int| 0 <= a < b < r@.len() ==> r@[a] != r@[b],
                forall|x: i32|
                    #[trigger] r@.contains(x) <==> (exists|k: int|
                        0 <= k < i && (#[trigger] es[k]).series_name == Some(series_name@)
                            && es[k].season_number == Some(x) && tagged_not_book(es[k])),
            decreases es.len() - i,
        {
            proof {
                assert(es[i as int] == self.entries@[i as int]@);
            }
            let matches_series = match &self.entries[i].series_name {
                Some(s) => crate::classify::chars_eq_str(
                    &crate::text::chars_of(s.as_str()),
                    series_name,
                ),
                None => false,
            };
            let season = self.entries[i].season_number;
            if matches_series && season.is_some() && tagged_not_book_exec(&self.entries[i]) {
                let x = season.unwrap();
                if !contains_i32(&r, x) {
                    let ghost r0 = r@;
                    r.push(x);
                    proof {
                        assert forall|y: i32| #[trigger] r@.contains(y) <==> (exists|k: int|
                            0 <= k < i + 1 && (#[trigger] es[k]).series_name == Some(series_name@)
                                && es[k].season_number == Some(y) && tagged_not_book(es[k])) by {
                            vstd::seq_lib::lemma_seq_contains_after_push(r0, x, y);
                            if y == x {
                                assert(es[i as int].series_name == Some(series_name@)
                                    && es[i as int].season_number == Some(y) && tagged_not_book(
                                    es[i as int],
                                ));
                            }
                            if r@.contains(y) && y != x {
                                assert(r0.contains(y));
                            }
                            if (exists|k: int|
                                0 <= k < i + 1 && (#[trigger] es[k]).series_name == Some(
                                    series_name@,
                                ) && es[k].season_number == Some(y) && tagged_not_book(es[k]))
                                && y != x {
                                let k = choose|k: int|
                                    0 <= k < i + 1 && (#[trigger] es[k]).series_name == Some(
                                        series_name@,
                                    ) && es[k].season_number == Some(y) && tagged_not_book(es[k]);
                                assert(k < i);
                                assert(r0.contains(y));
                            }
                        }
                        assert forall|a: int, b: int| 0 <= a < b < r@.len() implies r@[a]
                            != r@[b] by {
                            if b == r@.len() - 1 {
                                assert(!r0.contains(r@[b]));
                                assert(r0[a] == r@[a]);
                                if r@[a] == r@[b] {
                                    assert(r0.contains(r@[b]));
                                }
                            } else {
                                assert(r0[a] == r@[a] && r0[b] == r@[b]);
                            }
                        }
                    }
                }
            }
            i = i + 1;
        }
        r
    }
}

} // verus!
