//! The data model: libraries, catalog rows, playback progress, the
//! provider's normalized metadata shapes, and the plain data carried
//! between the engine and its callers.
//!
//! Timestamps are plain integers (seconds); the opaque provider-id map
//! is a list of name/id pairs.

use vstd::prelude::*;

verus! {

/// The media-type classification of a configured library root.
#[derive(PartialEq, Eq, Structural, Clone, Copy, Debug)]
pub enum LibraryType {
    Movies,
    TvShows,
    MusicVideos,
    Books,
    Other,
}

/// A configured library: a root directory plus its classification.
#[derive(Clone, Debug)]
pub struct Library {
    pub id: i64,
    pub name: String,
    pub path: String,
    pub library_type: LibraryType,
}

/// One entry of the provider-id map: a provider name and the external
/// id the provider knows the title by.
#[derive(Clone, Debug)]
pub struct ProviderRef {
    pub provider: String,
    pub id: i64,
}

/// The persistent record for one discovered file.
#[derive(Clone, Debug)]
pub struct CatalogEntry {
    pub id: i64,
    pub library_id: i64,
    pub file_path: String,
    pub title: Option<String>,
    pub year: Option<i64>,
    pub poster_url: Option<String>,
    pub backdrop_url: Option<String>,
    pub still_url: Option<String>,
    pub plot: Option<String>,
    pub media_type: Option<String>,
    pub added_at: Option<i64>,
    pub series_name: Option<String>,
    pub season_number: Option<i32>,
    pub episode_number: Option<i32>,
    pub provider_ids: Vec<ProviderRef>,
    pub runtime: Option<i32>,
    pub genres: Option<String>,
}

/// Playback position for one catalog entry, keyed by its id.
#[derive(Clone, Debug)]
pub struct PlaybackProgress {
    pub media_id: i64,
    pub position: i64,
    pub total_duration: i64,
    pub last_watched: i64,
}

/// The shape a metadata provider's answers are normalized to before
/// they are projected onto catalog rows.
#[derive(Clone, Debug)]
pub struct NormalizedMetadata {
    pub title: String,
    pub year: Option<String>,
    pub plot: Option<String>,
    pub poster_url: Option<String>,
    pub backdrop_url: Option<String>,
    pub media_type: Option<String>,
    pub provider_ids: Vec<ProviderRef>,
    pub genres: Option<Vec<String>>,
    pub runtime: Option<i32>,
}

/// One episode of a season listing from the metadata provider.
#[derive(Clone, Debug)]
pub struct EpisodeMetadata {
    pub id: String,
    pub episode_number: i32,
    pub season_number: i32,
    pub name: String,
    pub overview: String,
    pub still_path: Option<String>,
    pub air_date: Option<String>,
}

/// A stored configuration key/value pair.
#[derive(Clone, Debug)]
pub struct Setting {
    pub key: String,
    pub value: String,
}

/// The mathematical shape of one provider-id pair.
pub ghost struct ProviderRefView {
    pub provider: Seq<char>,
    pub id: i64,
}

impl View for ProviderRef {
    type V = ProviderRefView;

    open spec fn view(&self) -> ProviderRefView {
        ProviderRefView { provider: self.provider@, id: self.id }
    }
}

/// The views of a provider-id list.
pub open spec fn provider_views(ids: Seq<ProviderRef>) -> Seq<ProviderRefView> {
    ids.map_values(|p: ProviderRef| p@)
}

/// The first provider id at or after `i` whose name equals `name`.
pub open spec fn provider_id_from(ids: Seq<ProviderRefView>, name: Seq<char>, i: int) -> Option<
    i64,
>
    decreases ids.len() - i,
{
    if i >= ids.len() {
        None
    } else if ids[i].provider == name {
        Some(ids[i].id)
    } else {
        provider_id_from(ids, name, i + 1)
    }
}

/// The first provider id stored under `name`.
pub open spec fn spec_provider_id(ids: Seq<ProviderRefView>, name: Seq<char>) -> Option<i64> {
    provider_id_from(ids, name, 0)
}

/// Look up the external id stored for a provider name.
pub fn provider_id_of(ids: &Vec<ProviderRef>, name: &str) -> (r: Option<i64>)
    ensures
        r == spec_provider_id(provider_views(ids@), name@),
{
    let ghost vs = provider_views(ids@);
    let mut i: usize = 0;
    while i < ids.len()
        invariant
            vs == provider_views(ids@),
            vs.len() == ids@.len(),
            i <= vs.len(),
            forall|k: int| 0 <= k < vs.len() ==> vs[k] == ids@[k]@,
            spec_provider_id(vs, name@) == provider_id_from(vs, name@, i as int),
        decreases ids@.len() - i,
    {
        proof {
            assert(vs[i as int] == ids@[i as int]@);
        }
        if crate::classify::chars_eq_str(&crate::text::chars_of(ids[i].provider.as_str()), name) {
            return Some(ids[i].id);
        }
        i = i + 1;
    }
    None
}

} // verus!
