use vortex::catalog::Catalog;
use vortex::models::{Library, LibraryType, NormalizedMetadata, ProviderRef};
use vortex::scan::ScanEngine;

fn comps(parts: &[&str]) -> Vec<String> {
    parts.iter().map(|p| p.to_string()).collect()
}

fn seeded_engine() -> ScanEngine {
    let lib = Library {
        id: 1,
        name: "TV".to_string(),
        path: "/tv".to_string(),
        library_type: LibraryType::TvShows,
    };
    let mut eng = ScanEngine::new(Catalog::new(), "tmdb".to_string());
    for (c, p) in [
        (comps(&["Show", "Season 1", "S01E01.mkv"]), "/tv/Show/Season 1/S01E01.mkv"),
        (comps(&["Show", "Season 1", "S01E02.mkv"]), "/tv/Show/Season 1/S01E02.mkv"),
        (comps(&["Show", "Season 2", "S02E01.mkv"]), "/tv/Show/Season 2/S02E01.mkv"),
        (comps(&["Another", "Season 1", "S01E01.mkv"]), "/tv/Another/Season 1/S01E01.mkv"),
    ] {
        eng.process_file(&lib, &c, p, 100);
    }
    eng
}

fn meta() -> NormalizedMetadata {
    NormalizedMetadata {
        title: "Show".to_string(),
        year: Some("1999".to_string()),
        plot: Some("about".to_string()),
        poster_url: Some("pp".to_string()),
        backdrop_url: Some("bb".to_string()),
        media_type: Some("series".to_string()),
        provider_ids: vec![ProviderRef { provider: "tmdb".to_string(), id: 5 }],
        genres: None,
        runtime: None,
    }
}

#[test]
fn series_refresh_skips_untagged_rows() {
    let mut eng = seeded_engine();
    // freshly scanned rows carry no media-type tag, so the store's
    // `not a book` comparison leaves them all alone
    eng.catalog.update_series_metadata("Show", &meta());
    assert!(eng.catalog.entries.iter().all(|e| e.poster_url.is_none()));
}

#[test]
fn series_refresh_updates_tagged_rows_of_that_series_only() {
    let mut eng = seeded_engine();
    // tag the rows the way enrichment would
    for e in eng.catalog.entries.iter_mut() {
        e.media_type = Some("series".to_string());
    }
    eng.catalog.update_series_metadata("Show", &meta());
    for e in &eng.catalog.entries {
        if e.series_name.as_deref() == Some("Show") {
            assert_eq!(e.poster_url.as_deref(), Some("pp"));
            assert_eq!(e.year, Some(1999));
        } else {
            assert!(e.poster_url.is_none());
        }
    }
}

#[test]
fn episode_refresh_targets_one_episode() {
    let mut eng = seeded_engine();
    for e in eng.catalog.entries.iter_mut() {
        e.media_type = Some("series".to_string());
    }
    eng.catalog.update_episode_details("Show", 1, 2, "The Second", "more", &None);
    for e in &eng.catalog.entries {
        let hit = e.series_name.as_deref() == Some("Show") && e.season_number == Some(1)
            && e.episode_number == Some(2);
        if hit {
            assert_eq!(e.title.as_deref(), Some("The Second"));
            assert_eq!(e.plot.as_deref(), Some("more"));
            assert!(e.still_url.is_none());
        } else {
            assert_ne!(e.title.as_deref(), Some("The Second"));
        }
    }
}

#[test]
fn seasons_are_listed_once_each() {
    let mut eng = seeded_engine();
    for e in eng.catalog.entries.iter_mut() {
        e.media_type = Some("series".to_string());
    }
    let seasons = eng.catalog.get_series_seasons("Show");
    assert_eq!(seasons, vec![1, 2]);
    // untagged rows do not qualify
    let mut eng2 = seeded_engine();
    assert!(eng2.catalog.get_series_seasons("Show").is_empty());
}
