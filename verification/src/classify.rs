//! Extension-based classification of discovered files, and splitting a
//! file name into stem and extension.

use vstd::prelude::*;
use crate::text::{chars_of, lower, lower_chars_of};

verus! {

/// How a file is routed: to the video pipeline or to the book pipeline.
#[derive(PartialEq, Eq, Structural, Clone, Copy, Debug)]
pub enum MediaKind {
    Video,
    Book,
}

/// The fixed set of video extensions, on the lowercased extension.
pub open spec fn is_video_ext(e: Seq<char>) -> bool {
    ||| e == "mp4"@
    ||| e == "mkv"@
    ||| e == "avi"@
    ||| e == "mov"@
    ||| e == "webm"@
    ||| e == "wmv"@
    ||| e == "m4v"@
    ||| e == "mpg"@
    ||| e == "mpeg"@
    ||| e == "flv"@
    ||| e == "ts"@
}

/// The fixed set of book extensions, on the lowercased extension.
pub open spec fn is_book_ext(e: Seq<char>) -> bool {
    ||| e == "pdf"@
    ||| e == "epub"@
    ||| e == "cbz"@
    ||| e == "zip"@
    ||| e == "cbx"@
}

/// The archive extensions among the book extensions, the only ones the
/// cover extractor can open.
pub open spec fn is_archive_ext(e: Seq<char>) -> bool {
    e == "cbz"@ || e == "zip"@ || e == "cbx"@
}

/// Routing of a lowercased extension; unrecognized extensions go nowhere.
pub open spec fn spec_classify(e: Seq<char>) -> Option<MediaKind> {
    if is_video_ext(e) {
        Some(MediaKind::Video)
    } else if is_book_ext(e) {
        Some(MediaKind::Book)
    } else {
        None
    }
}

/// The characters of `v` are exactly those of `s`.
pub fn chars_eq_str(v: &Vec<char>, s: &str) -> (r: bool)
    ensures
        r == (v@ == s@),
{
    let n = s.unicode_len();
    if v.len() != n {
        return false;
    }
    let mut i: usize = 0;
    while i < n
        invariant
            n == s@.len(),
            v@.len() == n,
            i <= n,
            forall|k: int| 0 <= k < i ==> v@[k] == s@[k],
        decreases n - i,
    {
        if v[i] != s.get_char(i) {
            return false;
        }
        i = i + 1;
    }
    proof {
        assert(v@ =~= s@);
    }
    true
}

/// Classify a file extension, case folded, against the two fixed sets.
pub fn classify_extension(ext: &str) -> (r: Option<MediaKind>)
    ensures
        r == spec_classify(lower(ext@)),
{
    let v = lower_chars_of(ext);
    if chars_eq_str(&v, "mp4") || chars_eq_str(&v, "mkv") || chars_eq_str(&v, "avi")
        || chars_eq_str(&v, "mov") || chars_eq_str(&v, "webm") || chars_eq_str(&v, "wmv")
        || chars_eq_str(&v, "m4v") || chars_eq_str(&v, "mpg") || chars_eq_str(&v, "mpeg")
        || chars_eq_str(&v, "flv") || chars_eq_str(&v, "ts") {
        Some(MediaKind::Video)
    } else if chars_eq_str(&v, "pdf") || chars_eq_str(&v, "epub") || chars_eq_str(&v, "cbz")
        || chars_eq_str(&v, "zip") || chars_eq_str(&v, "cbx") {
        Some(MediaKind::Book)
    } else {
        None
    }
}

/// Whether the lowercased extension names an archive a cover can be
/// pulled from.
pub fn is_archive_extension(ext: &str) -> (r: bool)
    ensures
        r == is_archive_ext(lower(ext@)),
{
    let v = lower_chars_of(ext);
    chars_eq_str(&v, "cbz") || chars_eq_str(&v, "zip") || chars_eq_str(&v, "cbx")
}

/// Position of the last `.` at index 1 or later, scanning down from `i`.
pub open spec fn last_dot_from(s: Seq<char>, i: int) -> Option<int>
    decreases i,
{
    if i < 1 || i >= s.len() {
        None
    } else if s[i] == '.' {
        Some(i)
    } else {
        last_dot_from(s, i - 1)
    }
}

/// Position of the last `.` of a file name that separates an extension,
/// which a leading dot alone does not.
pub open spec fn last_dot(s: Seq<char>) -> Option<int> {
    last_dot_from(s, s.len() - 1)
}

/// The file name's stem: everything before the last extension dot, or
/// the whole name when there is none.
pub open spec fn stem_of(s: Seq<char>) -> Seq<char> {
    match last_dot(s) {
        None => s,
        Some(i) => s.subrange(0, i),
    }
}

/// The file name's extension: everything after the last extension dot.
pub open spec fn ext_of(s: Seq<char>) -> Option<Seq<char>> {
    match last_dot(s) {
        None => None,
        Some(i) => Some(s.subrange(i + 1, s.len() as int)),
    }
}

/// Exec scan for the last extension dot at or below `i`.
fn last_dot_from_exec(v: &Vec<char>, i: usize) -> (r: Option<usize>)
    requires
        i < v@.len(),
    ensures
        crate::ident::opt_pos(r) == last_dot_from(v@, i as int),
        r is Some ==> 1 <= r->Some_0 <= i,
    decreases i,
{
    if i < 1 {
        None
    } else if v[i] == '.' {
        Some(i)
    } else {
        last_dot_from_exec(v, i - 1)
    }
}

/// Split a file name into its stem and its optional extension.
pub fn split_name(name: &str) -> (r: (String, Option<String>))
    ensures
        r.0@ == stem_of(name@),
        r.1 is Some <==> ext_of(name@) is Some,
        r.1 is Some ==> r.1->Some_0@ == ext_of(name@)->Some_0,
{
    let v = chars_of(name);
    let n = v.len();
    if n == 0 {
        return (name.to_owned(), None);
    }
    match last_dot_from_exec(&v, n - 1) {
        None => (name.to_owned(), None),
        Some(i) => {
            let stem = name.substring_char(0, i).to_owned();
            let ext = name.substring_char(i + 1, n).to_owned();
            (stem, Some(ext))
        },
    }
}

} // verus!
