//! Metadata merge policy: how provider answers are projected onto
//! catalog rows. Movies take every descriptive field; TV episodes take
//! series-level fields from series metadata and title/still only from
//! the episode-specific lookup, coalescing so a set title is never
//! blanked out.

use vstd::prelude::*;
use crate::catalog::{EntryView, opt_view};
use crate::models::{EpisodeMetadata, NormalizedMetadata, ProviderRef, provider_views};
use crate::text::{parse_i64_or_zero, parse_i64_or_zero_exec};
use vstd::string::StringExecFns;

verus! {

/// The genre list joined with a comma and a space, the serialized form
/// a row stores.
pub open spec fn spec_join(gs: Seq<Seq<char>>) -> Seq<char>
    decreases gs.len(),
{
    if gs.len() == 0 {
        Seq::empty()
    } else if gs.len() == 1 {
        gs[0]
    } else {
        spec_join(gs.drop_last()) + ", "@ + gs.last()
    }
}

/// Join genre names with a comma and a space.
pub fn join_genres(gs: &Vec<String>) -> (r: String)
    ensures
        r@ == spec_join(gs.deep_view()),
{
    let ghost views = gs.deep_view();
    let mut r = String::new();
    let mut i: usize = 0;
    proof {
        assert(views.subrange(0, 0) =~= Seq::<Seq<char>>::empty());
    }
    while i < gs.len()
        invariant
            views == gs.deep_view(),
            views.len() == gs@.len(),
            forall|k: int| 0 <= k < views.len() ==> views[k] == gs@[k]@,
            i <= views.len(),
            r@ == spec_join(views.subrange(0, i as int)),
        decreases views.len() - i,
    {
        proof {
            assert(views[i as int] == gs@[i as int]@);
            assert(views.subrange(0, i as int + 1).drop_last() =~= views.subrange(0, i as int));
            assert(views.subrange(0, i as int + 1).last() == views[i as int]);
        }
        if i > 0 {
            r.append(", ");
        }
        r.append(gs[i].as_str());
        i = i + 1;
        proof {
            if i - 1 == 0 {
                assert(r@ =~= spec_join(views.subrange(0, i as int)));
            }
        }
    }
    proof {
        assert(views.subrange(0, views.len() as int) =~= views);
    }
    r
}

/// The stored year for a provider year string: the parsed number, or 0
/// when the string is missing or not a number.
pub open spec fn year_of(y: Option<String>) -> i64 {
    match y {
        None => 0,
        Some(s) => parse_i64_or_zero(s@),
    }
}

/// The stored genre text for a provider genre list, if one came back.
pub open spec fn genres_of(gs: Option<Vec<String>>) -> Option<Seq<char>> {
    match gs {
        None => None,
        Some(v) => Some(spec_join(v.deep_view())),
    }
}

/// A movie row after search metadata is merged: every descriptive
/// field, the title included, is overwritten.
pub open spec fn spec_apply_movie(e: EntryView, meta: NormalizedMetadata) -> EntryView {
    EntryView {
        title: Some(meta.title@),
        year: Some(year_of(meta.year)),
        poster_url: opt_view(meta.poster_url),
        plot: opt_view(meta.plot),
        media_type: opt_view(meta.media_type),
        backdrop_url: opt_view(meta.backdrop_url),
        provider_ids: provider_views(meta.provider_ids@),
        runtime: meta.runtime,
        genres: genres_of(meta.genres),
        ..e
    }
}

/// A TV episode row after series-level search metadata is merged: the
/// series name comes from the provider's title, the filename-derived
/// title stays, and the still image is cleared until the episode
/// lookup fills it.
pub open spec fn spec_apply_series(e: EntryView, meta: NormalizedMetadata) -> EntryView {
    EntryView {
        year: Some(year_of(meta.year)),
        poster_url: opt_view(meta.poster_url),
        plot: opt_view(meta.plot),
        media_type: opt_view(meta.media_type),
        backdrop_url: opt_view(meta.backdrop_url),
        series_name: Some(meta.title@),
        provider_ids: provider_views(meta.provider_ids@),
        runtime: meta.runtime,
        genres: genres_of(meta.genres),
        still_url: None,
        ..e
    }
}

/// A new TV episode row after the series-level fields of an already
/// enriched row of the same series are copied onto it.
pub open spec fn spec_apply_cached(e: EntryView, c: EntryView) -> EntryView {
    EntryView {
        year: c.year,
        poster_url: c.poster_url,
        backdrop_url: c.backdrop_url,
        plot: c.plot,
        media_type: c.media_type,
        genres: c.genres,
        provider_ids: c.provider_ids,
        still_url: None,
        ..e
    }
}

/// A row after its episode's own details are merged: the episode title
/// replaces the filename-derived one, a non-empty overview replaces
/// the plot, and the still image is taken when the provider has one.
pub open spec fn spec_apply_episode(e: EntryView, ep: EpisodeMetadata) -> EntryView {
    EntryView {
        title: Some(ep.name@),
        plot: if ep.overview@.len() > 0 {
            Some(ep.overview@)
        } else {
            e.plot
        },
        still_url: match ep.still_path {
            Some(u) => Some(u@),
            None => e.still_url,
        },
        ..e
    }
}

/// The first listed episode at or after `i` with the wanted number.
pub open spec fn find_episode_from(eps: Seq<EpisodeMetadata>, number: i32, i: int) -> Option<int>
    decreases eps.len() - i,
{
    if i >= eps.len() {
        None
    } else if eps[i].episode_number == number {
        Some(i)
    } else {
        find_episode_from(eps, number, i + 1)
    }
}

/// The first listed episode with the wanted number, as the episode
/// lookup matches an episode to a row.
pub open spec fn spec_find_episode(eps: Seq<EpisodeMetadata>, number: i32) -> Option<int> {
    find_episode_from(eps, number, 0)
}

/// Find the listed episode with the wanted number.
pub fn find_episode(eps: &Vec<EpisodeMetadata>, number: i32) -> (r: Option<usize>)
    ensures
        crate::ident::opt_pos(r) == spec_find_episode(eps@, number),
        r is Some ==> r->Some_0 < eps@.len() && eps@[r->Some_0 as int].episode_number == number,
{
    let mut i: usize = 0;
    while i < eps.len()
        invariant
            i <= eps@.len(),
            spec_find_episode(eps@, number) == find_episode_from(eps@, number, i as int),
        decreases eps@.len() - i,
    {
        if eps[i].episode_number == number {
            return Some(i);
        }
        i = i + 1;
    }
    None
}

/// Copy an optional string.
pub fn clone_opt_string(o: &Option<String>) -> (r: Option<String>)
    ensures
        opt_view(r) == opt_view(*o),
{
    match o {
        None => None,
        Some(s) => Some(s.clone()),
    }
}

/// Copy a provider-id list.
pub fn clone_provider_ids(ids: &Vec<ProviderRef>) -> (r: Vec<ProviderRef>)
    ensures
        provider_views(r@) == provider_views(ids@),
{
    let mut r: Vec<ProviderRef> = Vec::new();
    let mut i: usize = 0;
    while i < ids.len()
        invariant
            i <= ids@.len(),
            r@.len() == i,
            forall|k: int| 0 <= k < i ==> #[trigger] r@[k]@ == ids@[k]@,
        decreases ids@.len() - i,
    {
        let p = ProviderRef { provider: ids[i].provider.clone(), id: ids[i].id };
        r.push(p);
        i = i + 1;
    }
    proof {
        assert(provider_views(r@) =~= provider_views(ids@));
    }
    r
}

} // verus!
