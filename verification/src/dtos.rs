//! Plain data shapes carried over the library's boundary: requests the
//! service layer hands in, listings and detail views handed back, and
//! the provider's raw response shapes. Timestamps are plain integers.

use vstd::prelude::*;

verus! {

/// Ask to identify a title by a provider-specific id.
#[derive(Clone, Debug)]
pub struct IdentifyRequest {
    pub provider_id: String,
    pub media_type: Option<String>,
}

/// Ask to search the provider for a title.
#[derive(Clone, Debug)]
pub struct SearchQuery {
    pub query: String,
    pub media_type: Option<String>,
}

/// Ask to record a playback position.
#[derive(Clone, Copy, Debug)]
pub struct UpdateProgressRequest {
    pub position: i64,
    pub total_duration: i64,
}

/// Ask to change one configuration value.
#[derive(Clone, Debug)]
pub struct UpdateSettingRequest {
    pub key: String,
    pub value: String,
}

/// Ask to create a library over a root directory.
#[derive(Clone, Debug)]
pub struct CreateLibraryRequest {
    pub name: String,
    pub path: String,
    pub library_type: crate::models::LibraryType,
}

/// Ask to list the directories under a path.
#[derive(Clone, Debug)]
pub struct ListDirectoriesRequest {
    pub path: Option<String>,
}

/// One directory in a directory listing.
#[derive(Clone, Debug)]
pub struct DirectoryEntry {
    pub name: String,
    pub path: String,
}

/// One entry of a library browse: a directory or a playable file.
#[derive(Clone, Debug)]
pub struct FileSystemEntry {
    pub name: String,
    pub path: String,
    pub is_directory: bool,
    pub media_id: Option<i64>,
    pub poster_url: Option<String>,
}

/// The optional relative path a browse starts from.
#[derive(Clone, Debug)]
pub struct BrowseQuery {
    pub path: Option<String>,
}

/// Ask to edit a comic series' descriptive fields.
#[derive(Clone, Debug)]
pub struct UpdateSeriesMetadataRequest {
    pub poster_url: Option<String>,
    pub backdrop_url: Option<String>,
    pub plot: Option<String>,
    pub year: Option<i64>,
    pub genres: Option<String>,
}

/// One series in the TV listing.
#[derive(Clone, Debug)]
pub struct SeriesDto {
    pub name: String,
    pub poster_url: Option<String>,
    pub season_count: i32,
}

/// One season of a series.
#[derive(Clone, Debug)]
pub struct SeasonDto {
    pub season_number: i32,
    pub episode_count: i32,
    pub poster_url: Option<String>,
}

/// One episode of a season.
#[derive(Clone, Debug)]
pub struct EpisodeDto {
    pub id: i64,
    pub title: Option<String>,
    pub episode_number: i32,
    pub poster_url: Option<String>,
    pub file_path: String,
    pub plot: Option<String>,
}

/// A series with its seasons and descriptive fields.
#[derive(Clone, Debug)]
pub struct SeriesDetailDto {
    pub name: String,
    pub poster_url: Option<String>,
    pub backdrop_url: Option<String>,
    pub plot: Option<String>,
    pub year: Option<i64>,
    pub genres: Option<String>,
    pub seasons: Vec<SeasonDto>,
}

/// One comic series, grouped from its chapters.
#[derive(Clone, Debug)]
pub struct ComicSeries {
    pub name: String,
    pub chapter_count: i64,
    pub poster_url: Option<String>,
    pub backdrop_url: Option<String>,
    pub plot: Option<String>,
    pub year: Option<i64>,
    pub genres: Option<String>,
}

/// One chapter of a comic series.
#[derive(Clone, Debug)]
pub struct ComicChapter {
    pub id: i64,
    pub title: Option<String>,
    pub chapter_number: Option<i32>,
    pub poster_url: Option<String>,
    pub file_path: String,
    pub plot: Option<String>,
    pub year: Option<i64>,
}

/// One image page of an archive-backed book: its index in the archive
/// and its entry name.
#[derive(Clone, Debug)]
pub struct BookPage {
    pub index: usize,
    pub filename: String,
}

/// A reading list.
#[derive(Clone, Debug)]
pub struct ReadingList {
    pub id: i64,
    pub name: String,
}

/// Ask to create a reading list.
#[derive(Clone, Debug)]
pub struct CreateReadingListRequest {
    pub name: String,
}

/// Ask to add entries to a reading list.
#[derive(Clone, Debug)]
pub struct AddItemsRequest {
    pub media_ids: Vec<i64>,
}

/// One entry of a reading list, with the joined row fields.
#[derive(Clone, Debug)]
pub struct ReadingListItem {
    pub id: i64,
    pub list_id: i64,
    pub media_id: i64,
    pub position: i64,
    pub title: Option<String>,
    pub poster_url: Option<String>,
}

/// A reading list with its entries.
#[derive(Clone, Debug)]
pub struct ReadingListWithItems {
    pub id: i64,
    pub name: String,
    pub items: Vec<ReadingListItem>,
}

/// One subtitle track of a video.
#[derive(Clone, Debug)]
pub struct SubtitleTrack {
    pub id: String,
    pub label: String,
    pub language: String,
    pub source: String,
    pub url: String,
}

/// One result of a provider search, shaped for display.
#[derive(Clone, Debug)]
pub struct TmdbSearchResult {
    pub id: i64,
    pub title: String,
    pub year: String,
    pub poster_url: String,
    pub overview: String,
}

/// One raw search result from the provider.
#[derive(Clone, Debug)]
pub struct TmdbResult {
    pub id: i64,
    pub title: String,
    pub overview: Option<String>,
    pub poster_path: Option<String>,
    pub backdrop_path: Option<String>,
    pub date: Option<String>,
}

/// A raw search response from the provider.
#[derive(Clone, Debug)]
pub struct TmdbResponse {
    pub results: Vec<TmdbResult>,
}

/// One genre name in a raw detail response.
#[derive(Clone, Debug)]
pub struct TmdbGenre {
    pub name: String,
}

/// The runtime and genre part of a raw detail response.
#[derive(Clone, Debug)]
pub struct TmdbFullResponse {
    pub runtime: Option<i32>,
    pub episode_run_time: Option<Vec<i32>>,
    pub genres: Option<Vec<TmdbGenre>>,
}

/// One raw episode of a season listing from the provider.
#[derive(Clone, Debug)]
pub struct TmdbEpisode {
    pub episode_number: i32,
    pub name: String,
    pub overview: String,
    pub still_path: Option<String>,
}

/// A raw season listing from the provider.
#[derive(Clone, Debug)]
pub struct TmdbSeasonResponse {
    pub episodes: Vec<TmdbEpisode>,
}

/// A detail answer in the provider's flattened shape.
#[derive(Clone, Debug)]
pub struct OmdbResponse {
    pub title: String,
    pub year: String,
    pub poster: String,
    pub plot: String,
    pub media_type: String,
    pub backdrop: Option<String>,
    pub tmdb_id: Option<i64>,
    pub runtime: Option<i32>,
    pub genres: Option<Vec<String>>,
}

} // verus!
