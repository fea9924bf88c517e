use vortex::classify::{classify_extension, is_archive_extension, split_name, MediaKind};
use vortex::ident::{parse_chapter_number, parse_episode_number, parse_season_number,
    resolve_book, resolve_video};

fn comps(parts: &[&str]) -> Vec<String> {
    parts.iter().map(|p| p.to_string()).collect()
}

#[test]
fn tv_path_with_season_folder() {
    let c = comps(&["Show", "Season 2", "S02E05 - Title.mkv"]);
    let id = resolve_video(&c, "S02E05 - Title", "My Library").unwrap();
    assert_eq!(id.series, "Show");
    assert_eq!(id.season, 2);
    assert_eq!(id.episode, 5);
}

#[test]
fn tv_path_without_season_folder_episode_word() {
    let c = comps(&["Show", "Ep 07.mkv"]);
    let id = resolve_video(&c, "Ep 07", "My Library").unwrap();
    assert_eq!(id.series, "Show");
    assert_eq!(id.season, 1);
    assert_eq!(id.episode, 7);
}

#[test]
fn tv_file_in_library_root_uses_library_name() {
    let c = comps(&["Pilot S01E03.mkv"]);
    let id = resolve_video(&c, "Pilot S01E03", "My Library").unwrap();
    assert_eq!(id.series, "My Library");
    assert_eq!(id.season, 1);
    assert_eq!(id.episode, 3);
}

#[test]
fn tv_file_in_root_without_episode_defaults_to_one() {
    let c = comps(&["Some Film.mkv"]);
    let id = resolve_video(&c, "Some Film", "My Library").unwrap();
    assert_eq!(id.series, "My Library");
    assert_eq!(id.season, 1);
    assert_eq!(id.episode, 1);
}

#[test]
fn empty_components_resolve_to_nothing() {
    let c: Vec<String> = Vec::new();
    assert!(resolve_video(&c, "x", "Lib").is_none());
}

#[test]
fn episode_pattern_order() {
    assert_eq!(parse_episode_number("Show.S01E09.720p"), Some(9));
    assert_eq!(parse_episode_number("show 1x05 final"), Some(5));
    assert_eq!(parse_episode_number("Episode 12"), Some(12));
    assert_eq!(parse_episode_number("ep3"), Some(3));
    assert_eq!(parse_episode_number("Show - 05 - extra"), Some(5));
    assert_eq!(parse_episode_number("pilot e07"), Some(7));
    assert_eq!(parse_episode_number("e2 cold open"), Some(2));
    assert_eq!(parse_episode_number("no numbers here"), None);
}

#[test]
fn sxe_wins_over_later_patterns() {
    // both S01E09 and 1x05 occur; the first pattern in the fixed order wins
    assert_eq!(parse_episode_number("1x05 S01E09"), Some(9));
}

#[test]
fn episode_number_too_large_fails_instead_of_falling_through() {
    // the pattern matches, so the failed number parse ends the whole parse
    assert_eq!(parse_episode_number("s01e99999999999"), None);
}

#[test]
fn dash_delimited_number_can_misfire_on_tags() {
    // an inherited heuristic ambiguity: a delimited bare number is taken
    // as the episode even when it is a quality tag or similar
    assert_eq!(parse_episode_number("Show - 720 - S01"), Some(720));
    // four digits never match the delimited pattern
    assert_eq!(parse_episode_number("Movie - 1080 - final"), None);
}

#[test]
fn season_folder_parsing() {
    assert_eq!(parse_season_number("Season 2"), 2);
    assert_eq!(parse_season_number("season10"), 10);
    assert_eq!(parse_season_number("SEASON  03"), 3);
    assert_eq!(parse_season_number("Specials"), 1);
    assert_eq!(parse_season_number("Season 99999999999"), 1);
}

#[test]
fn chapter_patterns_in_order() {
    assert_eq!(parse_chapter_number("Chapter_012"), Some(12));
    assert_eq!(parse_chapter_number("ch3"), Some(3));
    assert_eq!(parse_chapter_number("ch - 44"), Some(44));
    assert_eq!(parse_chapter_number("randomname"), None);
    // the bare-number fallback can pick up unrelated numbers
    assert_eq!(parse_chapter_number("vol 7 omnibus"), Some(7));
}

#[test]
fn book_identity_from_path() {
    let c = comps(&["Series", "Chapter_012.cbz"]);
    let id = resolve_book(&c, "Chapter_012");
    assert_eq!(id.series.as_deref(), Some("Series"));
    assert_eq!(id.chapter, Some(12));

    let c2 = comps(&["Series", "ch3.cbz"]);
    let id2 = resolve_book(&c2, "ch3");
    assert_eq!(id2.series.as_deref(), Some("Series"));
    assert_eq!(id2.chapter, Some(3));

    let c3 = comps(&["Series", "randomname.cbz"]);
    let id3 = resolve_book(&c3, "randomname");
    assert_eq!(id3.series.as_deref(), Some("Series"));
    assert_eq!(id3.chapter, None);

    // a book directly in the library root has no series
    let c4 = comps(&["loose.cbz"]);
    let id4 = resolve_book(&c4, "loose");
    assert!(id4.series.is_none());
    assert!(id4.chapter.is_none());
}

#[test]
fn extension_classification() {
    for e in ["mp4", "mkv", "avi", "mov", "webm", "wmv", "m4v", "mpg", "mpeg", "flv", "ts"] {
        assert_eq!(classify_extension(e), Some(MediaKind::Video));
    }
    for e in ["pdf", "epub", "cbz", "zip", "cbx"] {
        assert_eq!(classify_extension(e), Some(MediaKind::Book));
    }
    assert_eq!(classify_extension("MKV"), Some(MediaKind::Video));
    assert_eq!(classify_extension("txt"), None);
    assert_eq!(classify_extension(""), None);
    assert!(is_archive_extension("CBZ"));
    assert!(is_archive_extension("zip"));
    assert!(!is_archive_extension("pdf"));
}

#[test]
fn stem_and_extension_splitting() {
    let (stem, ext) = split_name("foo.tar.gz");
    assert_eq!(stem, "foo.tar");
    assert_eq!(ext.as_deref(), Some("gz"));

    let (stem, ext) = split_name("noext");
    assert_eq!(stem, "noext");
    assert!(ext.is_none());

    // a leading dot alone does not start an extension
    let (stem, ext) = split_name(".hidden");
    assert_eq!(stem, ".hidden");
    assert!(ext.is_none());

    let (stem, ext) = split_name("movie.MKV");
    assert_eq!(stem, "movie");
    assert_eq!(ext.as_deref(), Some("MKV"));
}
