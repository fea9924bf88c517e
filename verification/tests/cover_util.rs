use vortex::cover::{is_image, pick_cover};
use vortex::text::{parse_i64_exec, parse_i64_or_zero_exec};
use vortex::util::sanitize_filename;

fn names(parts: &[&str]) -> Vec<String> {
    parts.iter().map(|p| p.to_string()).collect()
}

#[test]
fn image_names_by_extension() {
    assert!(is_image("cover.jpg"));
    assert!(is_image("Cover.JPEG"));
    assert!(is_image("page01.png"));
    assert!(is_image("art.webp"));
    assert!(!is_image("cover.gif"));
    assert!(!is_image("jpg"));
    assert!(!is_image("archive.cbz"));
}

#[test]
fn cover_is_the_lexicographically_first_image() {
    let ns = names(&["zzz/99.png", "info.txt", "pages/002.jpg", "pages/001.jpg"]);
    assert_eq!(pick_cover(&ns), Some(3));
}

#[test]
fn cover_tie_goes_to_the_earliest_entry() {
    let ns = names(&["a.jpg", "a.jpg", "b.png"]);
    assert_eq!(pick_cover(&ns), Some(0));
}

#[test]
fn no_images_no_cover() {
    let ns = names(&["readme.txt", "data.xml"]);
    assert_eq!(pick_cover(&ns), None);
    assert_eq!(pick_cover(&Vec::new()), None);
}

#[test]
fn sanitize_keeps_word_characters_and_replaces_the_rest() {
    assert_eq!(sanitize_filename("My Show: S01/E02"), "My_Show__S01_E02");
    assert_eq!(sanitize_filename("safe-name_01"), "safe-name_01");
    assert_eq!(sanitize_filename(""), "");
    // letters beyond ASCII count as alphanumeric
    assert_eq!(sanitize_filename("Série 1"), "Série_1");
}

#[test]
fn integer_parsing_matches_the_standard_semantics() {
    assert_eq!(parse_i64_exec("2014"), Some(2014));
    assert_eq!(parse_i64_exec("+7"), Some(7));
    assert_eq!(parse_i64_exec("-12"), Some(-12));
    assert_eq!(parse_i64_exec("007"), Some(7));
    assert_eq!(parse_i64_exec(""), None);
    assert_eq!(parse_i64_exec("-"), None);
    assert_eq!(parse_i64_exec("12a"), None);
    assert_eq!(parse_i64_exec("9223372036854775807"), Some(i64::MAX));
    assert_eq!(parse_i64_exec("9223372036854775808"), None);
    assert_eq!(parse_i64_exec("-9223372036854775808"), Some(i64::MIN));
    assert_eq!(parse_i64_exec("-9223372036854775809"), None);
    assert_eq!(parse_i64_or_zero_exec("20xx"), 0);
}
