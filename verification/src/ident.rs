//! Identity resolver: pure functions that map a file's path components
//! and filename stem to an inferred series/season/episode identity for
//! video, or series/chapter identity for books.
//!
//! Episode and season numbers are read from the ASCII-lowercased text by
//! a fixed, ordered list of patterns; the first pattern with a match
//! anywhere in the text wins, and within one pattern the leftmost match
//! wins. Digit runs are maximal, and a matched number that does not fit
//! in an `i32` makes the whole parse fail, as an integer parse of the
//! captured digits would.

use vstd::prelude::*;
use crate::text::{digit_run_end, digit_run_end_exec, digits_to_i32, digits_val, is_digit,
    is_digit_exec, is_sep, is_sep_exec, is_space, is_space_exec, lemma_digit_run, lower,
    lower_chars_of, sep_run_end, sep_run_end_exec, space_run_end, space_run_end_exec};

verus! {

/// A match of `s<digits>e(<digits>)` starting at position `p`.
pub open spec fn match_sxe_at(s: Seq<char>, p: int) -> bool {
    &&& 0 <= p < s.len()
    &&& s[p] == 's'
    &&& {
        let q = digit_run_end(s, p + 1);
        &&& q > p + 1
        &&& q < s.len()
        &&& s[q] == 'e'
        &&& digit_run_end(s, q + 1) > q + 1
    }
}

/// The captured digit range of a `s<digits>e(<digits>)` match at `p`.
pub open spec fn cap_sxe(s: Seq<char>, p: int) -> (int, int) {
    let q = digit_run_end(s, p + 1);
    (q + 1, digit_run_end(s, q + 1))
}

/// A match of `<digits>x(<digits>)` starting at position `p`.
pub open spec fn match_nxn_at(s: Seq<char>, p: int) -> bool {
    &&& 0 <= p < s.len()
    &&& is_digit(s[p])
    &&& {
        let q = digit_run_end(s, p);
        &&& q < s.len()
        &&& s[q] == 'x'
        &&& digit_run_end(s, q + 1) > q + 1
    }
}

/// The captured digit range of a `<digits>x(<digits>)` match at `p`.
pub open spec fn cap_nxn(s: Seq<char>, p: int) -> (int, int) {
    let q = digit_run_end(s, p);
    (q + 1, digit_run_end(s, q + 1))
}

/// `ep`, the literal letters `isode`, optional whitespace, digits.
pub open spec fn match_episode_word_at(s: Seq<char>, p: int) -> bool {
    &&& 0 <= p
    &&& p + 7 <= s.len()
    &&& s[p] == 'e' && s[p + 1] == 'p' && s[p + 2] == 'i' && s[p + 3] == 's' && s[p + 4] == 'o'
        && s[p + 5] == 'd' && s[p + 6] == 'e'
    &&& {
        let w = space_run_end(s, p + 7);
        w < s.len() && is_digit(s[w])
    }
}

/// `ep`, optional whitespace, digits, without the `isode` letters.
pub open spec fn match_ep_short_at(s: Seq<char>, p: int) -> bool {
    &&& 0 <= p
    &&& p + 2 <= s.len()
    &&& s[p] == 'e' && s[p + 1] == 'p'
    &&& {
        let w = space_run_end(s, p + 2);
        w < s.len() && is_digit(s[w])
    }
}

/// A match of `ep(isode)?\s*(<digits>)` starting at position `p`; the
/// longer spelling is preferred, as the pattern's optional group is.
pub open spec fn match_ep_at(s: Seq<char>, p: int) -> bool {
    match_episode_word_at(s, p) || match_ep_short_at(s, p)
}

/// The captured digit range of an `ep(isode)?\s*(<digits>)` match at `p`.
pub open spec fn cap_ep(s: Seq<char>, p: int) -> (int, int) {
    let w = if match_episode_word_at(s, p) {
        space_run_end(s, p + 7)
    } else {
        space_run_end(s, p + 2)
    };
    (w, digit_run_end(s, w))
}

/// A dash or whitespace, the delimiters around a bare episode number.
pub open spec fn is_delim(c: char) -> bool {
    c == '-' || is_space(c)
}

/// A match of `[-\s](<digits>{1,3})[-\s]` starting at position `p`: a
/// delimiter, one to three digits, a delimiter.
pub open spec fn match_delim_num_at(s: Seq<char>, p: int) -> bool {
    &&& 0 <= p < s.len()
    &&& is_delim(s[p])
    &&& {
        let e = digit_run_end(s, p + 1);
        &&& p + 1 < e <= p + 4
        &&& e < s.len()
        &&& is_delim(s[e])
    }
}

/// The captured digit range of a delimited-number match at `p`.
pub open spec fn cap_delim_num(s: Seq<char>, p: int) -> (int, int) {
    (p + 1, digit_run_end(s, p + 1))
}

/// A match of `(^|\s)e(<digits>)` starting at position `p`: an `e`
/// with digits after it, at the start of the text or after whitespace.
pub open spec fn match_bound_e_at(s: Seq<char>, p: int) -> bool {
    ||| (p == 0 && s.len() >= 2 && s[0] == 'e' && is_digit(s[1]))
    ||| (0 <= p && p + 2 < s.len() && is_space(s[p]) && s[p + 1] == 'e' && is_digit(s[p + 2]))
}

/// The captured digit range of a bound-`e` match at `p`.
pub open spec fn cap_bound_e(s: Seq<char>, p: int) -> (int, int) {
    if p == 0 && s.len() >= 2 && s[0] == 'e' && is_digit(s[1]) {
        (1, digit_run_end(s, 1))
    } else {
        (p + 2, digit_run_end(s, p + 2))
    }
}

/// Position of the leftmost match of pattern `f` at or after `p`.
pub open spec fn find_from(s: Seq<char>, p: int, f: spec_fn(Seq<char>, int) -> bool) -> Option<
    int,
>
    decreases s.len() - p,
{
    if p >= s.len() {
        None
    } else if f(s, p) {
        Some(p)
    } else {
        find_from(s, p + 1, f)
    }
}

/// An exec option of positions, viewed as the spec option.
pub open spec fn opt_pos(o: Option<usize>) -> Option<int> {
    match o {
        None => None,
        Some(u) => Some(u as int),
    }
}

/// Exec test for a `s<digits>e(<digits>)` match at `p`.
pub fn match_sxe_at_exec(v: &Vec<char>, p: usize) -> (r: bool)
    requires
        p < v@.len(),
    ensures
        r == match_sxe_at(v@, p as int),
{
    let n = v.len();
    if v[p] != 's' {
        return false;
    }
    let q = digit_run_end_exec(v, p + 1);
    q > p + 1 && q < n && v[q] == 'e' && digit_run_end_exec(v, q + 1) > q + 1
}

/// Exec test for a `<digits>x(<digits>)` match at `p`.
pub fn match_nxn_at_exec(v: &Vec<char>, p: usize) -> (r: bool)
    requires
        p < v@.len(),
    ensures
        r == match_nxn_at(v@, p as int),
{
    let n = v.len();
    if !is_digit_exec(v[p]) {
        return false;
    }
    let q = digit_run_end_exec(v, p);
    q < n && v[q] == 'x' && digit_run_end_exec(v, q + 1) > q + 1
}

/// Exec test for the `episode` spelling at `p`.
pub fn match_episode_word_at_exec(v: &Vec<char>, p: usize) -> (r: bool)
    requires
        p < v@.len(),
    ensures
        r == match_episode_word_at(v@, p as int),
{
    let n = v.len();
    if n < 7 || p > n - 7 {
        return false;
    }
    if !(v[p] == 'e' && v[p + 1] == 'p' && v[p + 2] == 'i' && v[p + 3] == 's' && v[p + 4] == 'o'
        && v[p + 5] == 'd' && v[p + 6] == 'e') {
        return false;
    }
    let w = space_run_end_exec(v, p + 7);
    w < v.len() && is_digit_exec(v[w])
}

/// Exec test for the `ep` spelling at `p`.
pub fn match_ep_short_at_exec(v: &Vec<char>, p: usize) -> (r: bool)
    requires
        p < v@.len(),
    ensures
        r == match_ep_short_at(v@, p as int),
{
    let n = v.len();
    if n < 2 || p > n - 2 {
        return false;
    }
    if !(v[p] == 'e' && v[p + 1] == 'p') {
        return false;
    }
    let w = space_run_end_exec(v, p + 2);
    w < v.len() && is_digit_exec(v[w])
}

/// Exec test for an `ep(isode)?\s*(<digits>)` match at `p`.
pub fn match_ep_at_exec(v: &Vec<char>, p: usize) -> (r: bool)
    requires
        p < v@.len(),
    ensures
        r == match_ep_at(v@, p as int),
{
    match_episode_word_at_exec(v, p) || match_ep_short_at_exec(v, p)
}

/// Exec test for a dash or whitespace delimiter.
pub fn is_delim_exec(c: char) -> (r: bool)
    ensures
        r == is_delim(c),
{
    c == '-' || is_space_exec(c)
}

/// Exec test for a `[-\s](<digits>{1,3})[-\s]` match at `p`.
pub fn match_delim_num_at_exec(v: &Vec<char>, p: usize) -> (r: bool)
    requires
        p < v@.len(),
    ensures
        r == match_delim_num_at(v@, p as int),
{
    let n = v.len();
    if !is_delim_exec(v[p]) {
        return false;
    }
    let e = digit_run_end_exec(v, p + 1);
    p + 1 < e && e - p - 1 <= 3 && e < n && is_delim_exec(v[e])
}

/// Exec test for a `(^|\s)e(<digits>)` match at `p`.
pub fn match_bound_e_at_exec(v: &Vec<char>, p: usize) -> (r: bool)
    requires
        p < v@.len(),
    ensures
        r == match_bound_e_at(v@, p as int),
{
    let n = v.len();
    if p == 0 && n >= 2 && v[0] == 'e' && is_digit_exec(v[1]) {
        return true;
    }
    n >= 3 && p < n - 2 && is_space_exec(v[p]) && v[p + 1] == 'e' && is_digit_exec(v[p + 2])
}

/// The `s<digits>e(<digits>)` pattern as a predicate on positions.
pub open spec fn sxe_pat() -> spec_fn(Seq<char>, int) -> bool {
    |s: Seq<char>, p: int| match_sxe_at(s, p)
}

/// The `<digits>x(<digits>)` pattern as a predicate on positions.
pub open spec fn nxn_pat() -> spec_fn(Seq<char>, int) -> bool {
    |s: Seq<char>, p: int| match_nxn_at(s, p)
}

/// The `ep(isode)?\s*(<digits>)` pattern as a predicate on positions.
pub open spec fn ep_pat() -> spec_fn(Seq<char>, int) -> bool {
    |s: Seq<char>, p: int| match_ep_at(s, p)
}

/// The delimited-number pattern as a predicate on positions.
pub open spec fn delim_num_pat() -> spec_fn(Seq<char>, int) -> bool {
    |s: Seq<char>, p: int| match_delim_num_at(s, p)
}

/// The bound-`e` pattern as a predicate on positions.
pub open spec fn bound_e_pat() -> spec_fn(Seq<char>, int) -> bool {
    |s: Seq<char>, p: int| match_bound_e_at(s, p)
}

/// Leftmost match of the `s<digits>e(<digits>)` pattern.
pub fn find_sxe(v: &Vec<char>) -> (r: Option<usize>)
    ensures
        opt_pos(r) == find_from(v@, 0, sxe_pat()),
{
    let mut p: usize = 0;
    while p < v.len()
        invariant
            p <= v@.len(),
            find_from(v@, 0, sxe_pat()) == find_from(v@, p as int, sxe_pat()),
        decreases v@.len() - p,
    {
        if match_sxe_at_exec(v, p) {
            return Some(p);
        }
        p = p + 1;
    }
    None
}

/// Leftmost match of the `<digits>x(<digits>)` pattern.
pub fn find_nxn(v: &Vec<char>) -> (r: Option<usize>)
    ensures
        opt_pos(r) == find_from(v@, 0, nxn_pat()),
{
    let mut p: usize = 0;
    while p < v.len()
        invariant
            p <= v@.len(),
            find_from(v@, 0, nxn_pat()) == find_from(v@, p as int, nxn_pat()),
        decreases v@.len() - p,
    {
        if match_nxn_at_exec(v, p) {
            return Some(p);
        }
        p = p + 1;
    }
    None
}

/// Leftmost match of the `ep(isode)?\s*(<digits>)` pattern.
pub fn find_ep(v: &Vec<char>) -> (r: Option<usize>)
    ensures
        opt_pos(r) == find_from(v@, 0, ep_pat()),
{
    let mut p: usize = 0;
    while p < v.len()
        invariant
            p <= v@.len(),
            find_from(v@, 0, ep_pat()) == find_from(v@, p as int, ep_pat()),
        decreases v@.len() - p,
    {
        if match_ep_at_exec(v, p) {
            return Some(p);
        }
        p = p + 1;
    }
    None
}

/// Leftmost match of the delimited-number pattern.
pub fn find_delim_num(v: &Vec<char>) -> (r: Option<usize>)
    ensures
        opt_pos(r) == find_from(v@, 0, delim_num_pat()),
{
    let mut p: usize = 0;
    while p < v.len()
        invariant
            p <= v@.len(),
            find_from(v@, 0, delim_num_pat()) == find_from(v@, p as int, delim_num_pat()),
        decreases v@.len() - p,
    {
        if match_delim_num_at_exec(v, p) {
            return Some(p);
        }
        p = p + 1;
    }
    None
}

/// Leftmost match of the bound-`e` pattern.
pub fn find_bound_e(v: &Vec<char>) -> (r: Option<usize>)
    ensures
        opt_pos(r) == find_from(v@, 0, bound_e_pat()),
{
    let mut p: usize = 0;
    while p < v.len()
        invariant
            p <= v@.len(),
            find_from(v@, 0, bound_e_pat()) == find_from(v@, p as int, bound_e_pat()),
        decreases v@.len() - p,
    {
        if match_bound_e_at_exec(v, p) {
            return Some(p);
        }
        p = p + 1;
    }
    None
}

/// The digit range captured from `s` by the first of the five episode
/// patterns that matches anywhere, leftmost match first.
pub open spec fn episode_capture(s: Seq<char>) -> Option<(int, int)> {
    if find_from(s, 0, sxe_pat()) is Some {
        Some(cap_sxe(s, find_from(s, 0, sxe_pat())->Some_0))
    } else if find_from(s, 0, nxn_pat()) is Some {
        Some(cap_nxn(s, find_from(s, 0, nxn_pat())->Some_0))
    } else if find_from(s, 0, ep_pat()) is Some {
        Some(cap_ep(s, find_from(s, 0, ep_pat())->Some_0))
    } else if find_from(s, 0, delim_num_pat()) is Some {
        Some(cap_delim_num(s, find_from(s, 0, delim_num_pat())->Some_0))
    } else if find_from(s, 0, bound_e_pat()) is Some {
        Some(cap_bound_e(s, find_from(s, 0, bound_e_pat())->Some_0))
    } else {
        None
    }
}

/// The value of the digit range `(i, j)` of `s`, when it fits in `i32`.
pub open spec fn cap_value(s: Seq<char>, i: int, j: int) -> Option<i32> {
    if digits_val(s, i, j) <= i32::MAX {
        Some(digits_val(s, i, j) as i32)
    } else {
        None
    }
}

/// The episode number read from the ASCII-lowercased stem `s`, if any
/// pattern matches and the matched number fits in `i32`.
pub open spec fn spec_episode_number(s: Seq<char>) -> Option<i32> {
    match episode_capture(s) {
        None => None,
        Some((i, j)) => cap_value(s, i, j),
    }
}

/// A found position satisfies its pattern; an exhausted search means no
/// position does.
pub proof fn lemma_find_from(s: Seq<char>, p: int, f: spec_fn(Seq<char>, int) -> bool)
    requires
        0 <= p,
    ensures
        match find_from(s, p, f) {
            Some(q) => p <= q < s.len() && f(s, q) && (forall|m: int| p <= m < q ==> !(#[trigger] f(s, m))),
            None => forall|m: int| p <= m < s.len() ==> !(#[trigger] f(s, m)),
        },
    decreases s.len() - p,
{
    if p < s.len() && !f(s, p) {
        lemma_find_from(s, p + 1, f);
    }
}

/// Episode number parsed from a filename stem: the first of the five
/// patterns that matches the lowercased stem decides, and its captured
/// digits are parsed, so an over-large number gives `None`.
pub fn parse_episode_number(stem: &str) -> (r: Option<i32>)
    ensures
        r == spec_episode_number(lower(stem@)),
{
    let v = lower_chars_of(stem);
    let ghost s = v@;
    if let Some(p) = find_sxe(&v) {
        proof {
            lemma_find_from(s, 0, sxe_pat());
        }
        let q = digit_run_end_exec(&v, p + 1);
        let i = q + 1;
        let j = digit_run_end_exec(&v, i);
        proof {
            lemma_digit_run(s, i as int);
        }
        return digits_to_i32(&v, i, j);
    }
    if let Some(p) = find_nxn(&v) {
        proof {
            lemma_find_from(s, 0, nxn_pat());
        }
        let q = digit_run_end_exec(&v, p);
        let i = q + 1;
        let j = digit_run_end_exec(&v, i);
        proof {
            lemma_digit_run(s, i as int);
        }
        return digits_to_i32(&v, i, j);
    }
    if let Some(p) = find_ep(&v) {
        proof {
            lemma_find_from(s, 0, ep_pat());
        }
        let i = if match_episode_word_at_exec(&v, p) {
            proof {
                assert(p + 7 <= v@.len());
            }
            space_run_end_exec(&v, p + 7)
        } else {
            proof {
                assert(match_ep_short_at(s, p as int));
                assert(p + 2 <= v@.len());
            }
            space_run_end_exec(&v, p + 2)
        };
        let j = digit_run_end_exec(&v, i);
        proof {
            lemma_digit_run(s, i as int);
        }
        return digits_to_i32(&v, i, j);
    }
    if let Some(p) = find_delim_num(&v) {
        proof {
            lemma_find_from(s, 0, delim_num_pat());
        }
        let i = p + 1;
        let j = digit_run_end_exec(&v, i);
        proof {
            lemma_digit_run(s, i as int);
        }
        return digits_to_i32(&v, i, j);
    }
    if let Some(p) = find_bound_e(&v) {
        proof {
            lemma_find_from(s, 0, bound_e_pat());
        }
        let i = if p == 0 && v.len() >= 2 && v[0] == 'e' && is_digit_exec(v[1]) {
            1
        } else {
            p + 2
        };
        let j = digit_run_end_exec(&v, i);
        proof {
            lemma_digit_run(s, i as int);
        }
        return digits_to_i32(&v, i, j);
    }
    None
}

/// A match of `season\s*(<digits>)` starting at position `p`.
pub open spec fn match_season_at(s: Seq<char>, p: int) -> bool {
    &&& 0 <= p
    &&& p + 6 <= s.len()
    &&& s[p] == 's' && s[p + 1] == 'e' && s[p + 2] == 'a' && s[p + 3] == 's' && s[p + 4] == 'o'
        && s[p + 5] == 'n'
    &&& {
        let w = space_run_end(s, p + 6);
        w < s.len() && is_digit(s[w])
    }
}

/// The captured digit range of a season match at `p`.
pub open spec fn cap_season(s: Seq<char>, p: int) -> (int, int) {
    let w = space_run_end(s, p + 6);
    (w, digit_run_end(s, w))
}

/// The season pattern as a predicate on positions.
pub open spec fn season_pat() -> spec_fn(Seq<char>, int) -> bool {
    |s: Seq<char>, p: int| match_season_at(s, p)
}

/// The season number read from the ASCII-lowercased folder name `s`:
/// the leftmost `season\s*(<digits>)` match, with 1 when the folder
/// does not match or the number does not fit in `i32`.
pub open spec fn spec_season_number(s: Seq<char>) -> i32 {
    match find_from(s, 0, season_pat()) {
        None => 1,
        Some(p) => {
            let (i, j) = cap_season(s, p);
            if digits_val(s, i, j) <= i32::MAX {
                digits_val(s, i, j) as i32
            } else {
                1
            }
        },
    }
}

/// Exec test for a season match at `p`.
pub fn match_season_at_exec(v: &Vec<char>, p: usize) -> (r: bool)
    requires
        p < v@.len(),
    ensures
        r == match_season_at(v@, p as int),
{
    let n = v.len();
    if n < 6 || p > n - 6 {
        return false;
    }
    if !(v[p] == 's' && v[p + 1] == 'e' && v[p + 2] == 'a' && v[p + 3] == 's' && v[p + 4] == 'o'
        && v[p + 5] == 'n') {
        return false;
    }
    let w = space_run_end_exec(v, p + 6);
    w < v.len() && is_digit_exec(v[w])
}

/// Season number parsed from a season folder name.
pub fn parse_season_number(folder: &str) -> (r: i32)
    ensures
        r == spec_season_number(lower(folder@)),
{
    let v = lower_chars_of(folder);
    let ghost s = v@;
    let mut p: usize = 0;
    while p < v.len()
        invariant
            p <= v@.len(),
            s == v@,
            s == lower(folder@),
            find_from(s, 0, season_pat()) == find_from(s, p as int, season_pat()),
        decreases v@.len() - p,
    {
        if match_season_at_exec(&v, p) {
            proof {
                assert(season_pat()(s, p as int));
                assert(find_from(s, p as int, season_pat()) == Some(p as int));
            }
            let i = space_run_end_exec(&v, p + 6);
            let j = digit_run_end_exec(&v, i);
            proof {
                lemma_digit_run(s, i as int);
            }
            let parsed = digits_to_i32(&v, i, j);
            return match parsed {
                Some(x) => x,
                None => 1,
            };
        }
        p = p + 1;
    }
    1
}

/// A match of `chapter[_\-\s]*(<digits>)` starting at position `p`.
pub open spec fn match_chapter_word_at(s: Seq<char>, p: int) -> bool {
    &&& 0 <= p
    &&& p + 7 <= s.len()
    &&& s[p] == 'c' && s[p + 1] == 'h' && s[p + 2] == 'a' && s[p + 3] == 'p' && s[p + 4] == 't'
        && s[p + 5] == 'e' && s[p + 6] == 'r'
    &&& {
        let w = sep_run_end(s, p + 7);
        w < s.len() && is_digit(s[w])
    }
}

/// The captured digit range of a chapter-word match at `p`.
pub open spec fn cap_chapter_word(s: Seq<char>, p: int) -> (int, int) {
    let w = sep_run_end(s, p + 7);
    (w, digit_run_end(s, w))
}

/// A match of `ch[_\-\s]*(<digits>)` starting at position `p`.
pub open spec fn match_ch_at(s: Seq<char>, p: int) -> bool {
    &&& 0 <= p
    &&& p + 2 <= s.len()
    &&& s[p] == 'c' && s[p + 1] == 'h'
    &&& {
        let w = sep_run_end(s, p + 2);
        w < s.len() && is_digit(s[w])
    }
}

/// The captured digit range of a short chapter match at `p`.
pub open spec fn cap_ch(s: Seq<char>, p: int) -> (int, int) {
    let w = sep_run_end(s, p + 2);
    (w, digit_run_end(s, w))
}

/// A bare digit at position `p`, the fallback chapter pattern.
pub open spec fn match_bare_digit_at(s: Seq<char>, p: int) -> bool {
    0 <= p < s.len() && is_digit(s[p])
}

/// The chapter-word pattern as a predicate on positions.
pub open spec fn chapter_word_pat() -> spec_fn(Seq<char>, int) -> bool {
    |s: Seq<char>, p: int| match_chapter_word_at(s, p)
}

/// The short chapter pattern as a predicate on positions.
pub open spec fn ch_pat() -> spec_fn(Seq<char>, int) -> bool {
    |s: Seq<char>, p: int| match_ch_at(s, p)
}

/// The bare-digit pattern as a predicate on positions.
pub open spec fn bare_digit_pat() -> spec_fn(Seq<char>, int) -> bool {
    |s: Seq<char>, p: int| match_bare_digit_at(s, p)
}

/// The chapter number read from the ASCII-lowercased stem `s`: the
/// `chapter` spelling first, then `ch`, then the first bare number
/// anywhere in the stem; `None` when no digit occurs at all or the
/// matched number does not fit in `i32`.
pub open spec fn spec_chapter_number(s: Seq<char>) -> Option<i32> {
    if find_from(s, 0, chapter_word_pat()) is Some {
        let (i, j) = cap_chapter_word(s, find_from(s, 0, chapter_word_pat())->Some_0);
        cap_value(s, i, j)
    } else if find_from(s, 0, ch_pat()) is Some {
        let (i, j) = cap_ch(s, find_from(s, 0, ch_pat())->Some_0);
        cap_value(s, i, j)
    } else if find_from(s, 0, bare_digit_pat()) is Some {
        let p = find_from(s, 0, bare_digit_pat())->Some_0;
        cap_value(s, p, digit_run_end(s, p))
    } else {
        None
    }
}

/// Exec test for a chapter-word match at `p`.
pub fn match_chapter_word_at_exec(v: &Vec<char>, p: usize) -> (r: bool)
    requires
        p < v@.len(),
    ensures
        r == match_chapter_word_at(v@, p as int),
{
    let n = v.len();
    if n < 7 || p > n - 7 {
        return false;
    }
    if !(v[p] == 'c' && v[p + 1] == 'h' && v[p + 2] == 'a' && v[p + 3] == 'p' && v[p + 4] == 't'
        && v[p + 5] == 'e' && v[p + 6] == 'r') {
        return false;
    }
    let w = sep_run_end_exec(v, p + 7);
    w < v.len() && is_digit_exec(v[w])
}

/// Exec test for a short chapter match at `p`.
pub fn match_ch_at_exec(v: &Vec<char>, p: usize) -> (r: bool)
    requires
        p < v@.len(),
    ensures
        r == match_ch_at(v@, p as int),
{
    let n = v.len();
    if n < 2 || p > n - 2 {
        return false;
    }
    if !(v[p] == 'c' && v[p + 1] == 'h') {
        return false;
    }
    let w = sep_run_end_exec(v, p + 2);
    w < v.len() && is_digit_exec(v[w])
}

/// Leftmost match of the chapter-word pattern.
pub fn find_chapter_word(v: &Vec<char>) -> (r: Option<usize>)
    ensures
        opt_pos(r) == find_from(v@, 0, chapter_word_pat()),
{
    let mut p: usize = 0;
    while p < v.len()
        invariant
            p <= v@.len(),
            find_from(v@, 0, chapter_word_pat()) == find_from(v@, p as int, chapter_word_pat()),
        decreases v@.len() - p,
    {
        if match_chapter_word_at_exec(v, p) {
            return Some(p);
        }
        p = p + 1;
    }
    None
}

/// Leftmost match of the short chapter pattern.
pub fn find_ch(v: &Vec<char>) -> (r: Option<usize>)
    ensures
        opt_pos(r) == find_from(v@, 0, ch_pat()),
{
    let mut p: usize = 0;
    while p < v.len()
        invariant
            p <= v@.len(),
            find_from(v@, 0, ch_pat()) == find_from(v@, p as int, ch_pat()),
        decreases v@.len() - p,
    {
        if match_ch_at_exec(v, p) {
            return Some(p);
        }
        p = p + 1;
    }
    None
}

/// Leftmost bare digit.
pub fn find_bare_digit(v: &Vec<char>) -> (r: Option<usize>)
    ensures
        opt_pos(r) == find_from(v@, 0, bare_digit_pat()),
{
    let mut p: usize = 0;
    while p < v.len()
        invariant
            p <= v@.len(),
            find_from(v@, 0, bare_digit_pat()) == find_from(v@, p as int, bare_digit_pat()),
        decreases v@.len() - p,
    {
        if is_digit_exec(v[p]) {
            return Some(p);
        }
        p = p + 1;
    }
    None
}

/// Chapter number parsed from a book filename stem.
pub fn parse_chapter_number(stem: &str) -> (r: Option<i32>)
    ensures
        r == spec_chapter_number(lower(stem@)),
{
    let v = lower_chars_of(stem);
    let ghost s = v@;
    if let Some(p) = find_chapter_word(&v) {
        proof {
            lemma_find_from(s, 0, chapter_word_pat());
        }
        let i = sep_run_end_exec(&v, p + 7);
        let j = digit_run_end_exec(&v, i);
        proof {
            lemma_digit_run(s, i as int);
        }
        return digits_to_i32(&v, i, j);
    }
    if let Some(p) = find_ch(&v) {
        proof {
            lemma_find_from(s, 0, ch_pat());
        }
        let i = sep_run_end_exec(&v, p + 2);
        let j = digit_run_end_exec(&v, i);
        proof {
            lemma_digit_run(s, i as int);
        }
        return digits_to_i32(&v, i, j);
    }
    if let Some(p) = find_bare_digit(&v) {
        proof {
            lemma_find_from(s, 0, bare_digit_pat());
        }
        let j = digit_run_end_exec(&v, p);
        proof {
            lemma_digit_run(s, p as int);
        }
        return digits_to_i32(&v, p, j);
    }
    None
}

/// Resolved video identity: series name, season and episode numbers.
pub struct VideoIdentity {
    pub series: String,
    pub season: i32,
    pub episode: i32,
}

/// The episode number for a stem, with 1 when no pattern matches or
/// the matched number does not fit.
pub open spec fn episode_or_default(s: Seq<char>) -> i32 {
    match spec_episode_number(s) {
        Some(e) => e,
        None => 1,
    }
}

/// Video identity resolved from the path components of a file relative
/// to its library root (the filename last), its stem, and the library
/// display name used when the file sits directly in the root.
pub open spec fn spec_resolve_video(
    comps: Seq<Seq<char>>,
    stem: Seq<char>,
    lib_name: Seq<char>,
) -> Option<(Seq<char>, i32, i32)> {
    if comps.len() == 0 {
        None
    } else {
        let ep = episode_or_default(lower(stem));
        if comps.len() >= 3 {
            Some((comps[0], spec_season_number(lower(comps[1])), ep))
        } else if comps.len() == 2 {
            Some((comps[0], 1, ep))
        } else {
            Some((lib_name, 1, ep))
        }
    }
}

/// Resolve a video file's series/season/episode identity.
///
/// Depth three or more: the first component names the series and the
/// second is matched as a season folder. Depth two: series with season
/// 1. Depth one: the library display name stands in for the series.
pub fn resolve_video(components: &Vec<String>, stem: &str, library_name: &str) -> (r: Option<
    VideoIdentity,
>)
    ensures
        r is Some <==> spec_resolve_video(components.deep_view(), stem@, library_name@) is Some,
        r is Some ==> {
            let sp = spec_resolve_video(components.deep_view(), stem@, library_name@)->Some_0;
            &&& r->Some_0.series@ == sp.0
            &&& r->Some_0.season == sp.1
            &&& r->Some_0.episode == sp.2
        },
{
    let ghost comps = components.deep_view();
    if components.len() == 0 {
        return None;
    }
    let episode = match parse_episode_number(stem) {
        Some(e) => e,
        None => 1,
    };
    if components.len() >= 3 {
        let season = parse_season_number(components[1].as_str());
        proof {
            assert(comps[0] == components@[0]@);
            assert(comps[1] == components@[1]@);
        }
        Some(VideoIdentity { series: components[0].clone(), season, episode })
    } else if components.len() == 2 {
        proof {
            assert(comps[0] == components@[0]@);
        }
        Some(VideoIdentity { series: components[0].clone(), season: 1, episode })
    } else {
        Some(VideoIdentity { series: library_name.to_owned(), season: 1, episode })
    }
}

/// Resolved book identity: optional series name and chapter number.
pub struct BookIdentity {
    pub series: Option<String>,
    pub chapter: Option<i32>,
}

/// Book identity resolved from path components and filename stem: no
/// series at depth one or less, else the first component names the
/// series and the stem is matched for a chapter number.
pub open spec fn spec_resolve_book(comps: Seq<Seq<char>>, stem: Seq<char>) -> (
    Option<Seq<char>>,
    Option<i32>,
) {
    if comps.len() <= 1 {
        (None, None)
    } else {
        (Some(comps[0]), spec_chapter_number(lower(stem)))
    }
}

/// Resolve a book file's series/chapter identity.
pub fn resolve_book(components: &Vec<String>, stem: &str) -> (r: BookIdentity)
    ensures
        ({
            let sp = spec_resolve_book(components.deep_view(), stem@);
            &&& (r.series is Some <==> sp.0 is Some)
            &&& (r.series is Some ==> r.series->Some_0@ == sp.0->Some_0)
            &&& r.chapter == sp.1
        }),
{
    let ghost comps = components.deep_view();
    if components.len() <= 1 {
        BookIdentity { series: None, chapter: None }
    } else {
        proof {
            assert(comps[0] == components@[0]@);
        }
        BookIdentity {
            series: Some(components[0].clone()),
            chapter: parse_chapter_number(stem),
        }
    }
}

} // verus!
