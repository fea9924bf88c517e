use vortex::catalog::Catalog;
use vortex::models::{Library, LibraryType, NormalizedMetadata, EpisodeMetadata, ProviderRef};
use vortex::scan::{FollowUp, ScanEngine};

fn comps(parts: &[&str]) -> Vec<String> {
    parts.iter().map(|p| p.to_string()).collect()
}

fn tv_library() -> Library {
    Library {
        id: 1,
        name: "TV".to_string(),
        path: "/media/tv".to_string(),
        library_type: LibraryType::TvShows,
    }
}

fn engine() -> ScanEngine {
    ScanEngine::new(Catalog::new(), "tmdb".to_string())
}

fn series_meta() -> NormalizedMetadata {
    NormalizedMetadata {
        title: "Show".to_string(),
        year: Some("2001".to_string()),
        plot: Some("A show.".to_string()),
        poster_url: Some("poster-url".to_string()),
        backdrop_url: Some("backdrop-url".to_string()),
        media_type: Some("series".to_string()),
        provider_ids: vec![ProviderRef { provider: "tmdb".to_string(), id: 42 }],
        genres: Some(vec!["Drama".to_string(), "Mystery".to_string()]),
        runtime: Some(45),
    }
}

fn episode(n: i32, name: &str) -> EpisodeMetadata {
    EpisodeMetadata {
        id: n.to_string(),
        episode_number: n,
        season_number: 1,
        name: name.to_string(),
        overview: format!("About {}", name),
        still_path: Some(format!("still-{}", n)),
        air_date: None,
    }
}

#[test]
fn rescan_is_idempotent() {
    let lib = tv_library();
    let mut eng = engine();
    let c = comps(&["Show", "Season 1", "S01E01.mkv"]);
    let first = eng.process_file(&lib, &c, "/media/tv/Show/Season 1/S01E01.mkv", 100);
    assert!(first.inserted);
    assert_eq!(eng.catalog.entries.len(), 1);
    let before = (
        eng.catalog.entries[0].title.clone(),
        eng.catalog.entries[0].series_name.clone(),
        eng.catalog.entries[0].season_number,
        eng.catalog.entries[0].episode_number,
    );

    let second = eng.process_file(&lib, &c, "/media/tv/Show/Season 1/S01E01.mkv", 200);
    assert!(!second.inserted);
    assert!(matches!(second.action, FollowUp::NoAction));
    assert_eq!(eng.catalog.entries.len(), 1);
    let after = (
        eng.catalog.entries[0].title.clone(),
        eng.catalog.entries[0].series_name.clone(),
        eng.catalog.entries[0].season_number,
        eng.catalog.entries[0].episode_number,
    );
    assert_eq!(before, after);
}

#[test]
fn rescan_moves_ownership_and_backfills_only_missing_identity() {
    let lib = tv_library();
    let mut eng = engine();
    let c = comps(&["Show", "Season 1", "S01E01.mkv"]);
    eng.process_file(&lib, &c, "/media/tv/Show/Season 1/S01E01.mkv", 100);

    let other_lib = Library {
        id: 7,
        name: "TV Again".to_string(),
        path: "/media/tv2".to_string(),
        library_type: LibraryType::TvShows,
    };
    eng.process_file(&other_lib, &c, "/media/tv/Show/Season 1/S01E01.mkv", 200);
    // ownership moved, series identity untouched
    assert_eq!(eng.catalog.entries[0].library_id, 7);
    assert_eq!(eng.catalog.entries[0].series_name.as_deref(), Some("Show"));
}

#[test]
fn first_episode_searches_second_reuses_series_metadata() {
    let lib = tv_library();
    let mut eng = engine();
    let c1 = comps(&["Show", "Season 1", "S01E01.mkv"]);
    let out1 = eng.process_file(&lib, &c1, "/media/tv/Show/Season 1/S01E01.mkv", 100);
    let id1 = out1.entry_id.unwrap();
    match &out1.action {
        FollowUp::SearchProvider { term, tv } => {
            assert_eq!(term.as_str(), "Show");
            assert!(*tv);
        }
        other => panic!("expected a provider search, got {:?}", discriminant_name(other)),
    }

    let follow = eng.apply_search_metadata(id1, true, &series_meta());
    match follow {
        FollowUp::EpisodeLookup { series_id, season, episode: ep } => {
            assert_eq!(series_id, 42);
            assert_eq!(season, 1);
            assert_eq!(ep, 1);
        }
        other => panic!("expected an episode lookup, got {:?}", discriminant_name(&other)),
    }
    eng.apply_episode_details(id1, &vec![episode(1, "Pilot"), episode(2, "Second")]);
    assert_eq!(eng.catalog.entries[0].title.as_deref(), Some("Pilot"));
    assert_eq!(eng.catalog.entries[0].still_url.as_deref(), Some("still-1"));
    assert_eq!(eng.catalog.entries[0].genres.as_deref(), Some("Drama, Mystery"));
    assert_eq!(eng.catalog.entries[0].year, Some(2001));

    // the second episode of the same series issues no search call
    let c2 = comps(&["Show", "Season 1", "S01E02.mkv"]);
    let out2 = eng.process_file(&lib, &c2, "/media/tv/Show/Season 1/S01E02.mkv", 150);
    let id2 = out2.entry_id.unwrap();
    match &out2.action {
        FollowUp::EpisodeLookup { series_id, season, episode: ep } => {
            assert_eq!(*series_id, 42);
            assert_eq!(*season, 1);
            assert_eq!(*ep, 2);
        }
        other => panic!("expected an episode lookup, got {:?}", discriminant_name(other)),
    }
    // series-level fields were copied from the first episode's row
    let e2 = &eng.catalog.entries[1];
    assert_eq!(e2.poster_url.as_deref(), Some("poster-url"));
    assert_eq!(e2.year, Some(2001));
    assert_eq!(e2.genres.as_deref(), Some("Drama, Mystery"));
    // while the title still comes from the dedicated episode lookup
    assert_eq!(e2.title.as_deref(), Some("S01E02"));
    eng.apply_episode_details(id2, &vec![episode(1, "Pilot"), episode(2, "Second")]);
    assert_eq!(eng.catalog.entries[1].title.as_deref(), Some("Second"));
    assert_eq!(eng.catalog.entries[1].still_url.as_deref(), Some("still-2"));
}

fn discriminant_name(f: &FollowUp) -> &'static str {
    match f {
        FollowUp::NoAction => "NoAction",
        FollowUp::SearchProvider { .. } => "SearchProvider",
        FollowUp::EpisodeLookup { .. } => "EpisodeLookup",
        FollowUp::ExtractCover { .. } => "ExtractCover",
    }
}

#[test]
fn cleanup_deletes_entry_and_its_progress() {
    let lib = tv_library();
    let mut eng = engine();
    let a = comps(&["Show", "Season 1", "S01E01.mkv"]);
    let b = comps(&["Show", "Season 1", "S01E02.mkv"]);
    let out_a = eng.process_file(&lib, &a, "/media/tv/a.mkv", 100);
    let out_b = eng.process_file(&lib, &b, "/media/tv/b.mkv", 100);
    let id_a = out_a.entry_id.unwrap();
    let id_b = out_b.entry_id.unwrap();
    eng.catalog.set_progress(id_a, 120, 2400, 1000);
    eng.catalog.set_progress(id_b, 60, 2400, 1000);
    // a progress row orphaned before the scan is left alone
    eng.catalog.set_progress(999, 1, 2, 3);

    // only b.mkv still exists on disk
    let present = vec!["/media/tv/b.mkv".to_string()];
    eng.catalog.cleanup_missing(&present);

    assert_eq!(eng.catalog.entries.len(), 1);
    assert_eq!(eng.catalog.entries[0].file_path, "/media/tv/b.mkv");
    let progress_ids: Vec<i64> = eng.catalog.progress.iter().map(|p| p.media_id).collect();
    assert!(!progress_ids.contains(&id_a));
    assert!(progress_ids.contains(&id_b));
    assert!(progress_ids.contains(&999));
}

#[test]
fn other_library_rows_are_movies_and_never_enriched() {
    let lib = Library {
        id: 3,
        name: "Misc".to_string(),
        path: "/media/misc".to_string(),
        library_type: LibraryType::Other,
    };
    let mut eng = engine();
    let out = eng.process_file(&lib, &comps(&["clip.mkv"]), "/media/misc/clip.mkv", 100);
    assert!(out.inserted);
    assert!(matches!(out.action, FollowUp::NoAction));
    assert_eq!(eng.catalog.entries[0].media_type.as_deref(), Some("movie"));
}

#[test]
fn movie_search_overwrites_title_and_fields() {
    let lib = Library {
        id: 2,
        name: "Films".to_string(),
        path: "/media/films".to_string(),
        library_type: LibraryType::Movies,
    };
    let mut eng = engine();
    let out = eng.process_file(
        &lib,
        &comps(&["Great Film (2009).mp4"]),
        "/media/films/Great Film (2009).mp4",
        100,
    );
    assert!(out.inserted);
    let id = out.entry_id.unwrap();
    match &out.action {
        FollowUp::SearchProvider { term, tv } => {
            assert_eq!(term.as_str(), "Great Film (2009)");
            assert!(!*tv);
        }
        other => panic!("expected a provider search, got {:?}", discriminant_name(other)),
    }
    let meta = NormalizedMetadata {
        title: "Great Film".to_string(),
        year: Some("2009".to_string()),
        plot: Some("plot".to_string()),
        poster_url: Some("p".to_string()),
        backdrop_url: None,
        media_type: Some("movie".to_string()),
        provider_ids: vec![ProviderRef { provider: "tmdb".to_string(), id: 9 }],
        genres: Some(vec!["Action".to_string()]),
        runtime: Some(120),
    };
    let follow = eng.apply_search_metadata(id, false, &meta);
    assert!(matches!(follow, FollowUp::NoAction));
    let e = &eng.catalog.entries[0];
    assert_eq!(e.title.as_deref(), Some("Great Film"));
    assert_eq!(e.year, Some(2009));
    assert_eq!(e.media_type.as_deref(), Some("movie"));
    assert_eq!(e.genres.as_deref(), Some("Action"));
    assert_eq!(e.runtime, Some(120));
}

#[test]
fn unparseable_year_becomes_zero() {
    let lib = Library {
        id: 2,
        name: "Films".to_string(),
        path: "/f".to_string(),
        library_type: LibraryType::Movies,
    };
    let mut eng = engine();
    let out = eng.process_file(&lib, &comps(&["x.mp4"]), "/f/x.mp4", 100);
    let id = out.entry_id.unwrap();
    let meta = NormalizedMetadata {
        title: "X".to_string(),
        year: Some("20xx".to_string()),
        plot: None,
        poster_url: None,
        backdrop_url: None,
        media_type: Some("movie".to_string()),
        provider_ids: Vec::new(),
        genres: None,
        runtime: None,
    };
    eng.apply_search_metadata(id, false, &meta);
    assert_eq!(eng.catalog.entries[0].year, Some(0));
    assert!(eng.catalog.entries[0].genres.is_none());
}

#[test]
fn book_inserts_with_chapter_identity_and_cover_request() {
    let lib = Library {
        id: 5,
        name: "Books".to_string(),
        path: "/media/books".to_string(),
        library_type: LibraryType::Books,
    };
    let mut eng = engine();
    let out = eng.process_file(
        &lib,
        &comps(&["Series", "Chapter_012.cbz"]),
        "/media/books/Series/Chapter_012.cbz",
        100,
    );
    assert!(out.inserted);
    let id = out.entry_id.unwrap();
    match out.action {
        FollowUp::ExtractCover { entry_id } => assert_eq!(entry_id, id),
        other => panic!("expected a cover extraction, got {:?}", discriminant_name(&other)),
    }
    let e = &eng.catalog.entries[0];
    assert_eq!(e.media_type.as_deref(), Some("book"));
    assert_eq!(e.series_name.as_deref(), Some("Series"));
    assert_eq!(e.episode_number, Some(12));
    assert_eq!(e.season_number, None);

    // a pdf is a book too, but no cover can be pulled from it
    let out2 = eng.process_file(
        &lib,
        &comps(&["Series", "notes.pdf"]),
        "/media/books/Series/notes.pdf",
        100,
    );
    assert!(out2.inserted);
    assert!(matches!(out2.action, FollowUp::NoAction));
}

#[test]
fn unrecognized_extensions_are_ignored() {
    let lib = tv_library();
    let mut eng = engine();
    let out = eng.process_file(&lib, &comps(&["readme.txt"]), "/media/tv/readme.txt", 100);
    assert!(!out.inserted);
    assert!(out.entry_id.is_none());
    assert!(matches!(out.action, FollowUp::NoAction));
    assert_eq!(eng.catalog.entries.len(), 0);
}

#[test]
fn single_flight_guard_serializes_scans() {
    let mut eng = engine();
    assert!(eng.begin_scan());
    assert!(!eng.begin_scan());
    eng.end_scan();
    assert!(eng.begin_scan());
}
