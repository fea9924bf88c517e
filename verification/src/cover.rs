//! Cover selection for archive-backed books: from a listing of archive
//! entry names, pick the image that sorts first.
//!
//! Opening the archive and reading the chosen entry's bytes is the
//! caller's work; this module only decides which entry is the cover.

use vstd::prelude::*;
use crate::text::{chars_of, ends_with, lex_le, lower, lower_chars_of};

verus! {

/// `lex_le` relates every pair one way or the other.
pub proof fn lemma_lex_le_total(a: Seq<char>, b: Seq<char>)
    ensures
        lex_le(a, b) || lex_le(b, a),
    decreases a.len(),
{
    if a.len() > 0 && b.len() > 0 && a[0] == b[0] {
        lemma_lex_le_total(a.skip(1), b.skip(1));
    }
}

/// `lex_le` is transitive.
pub proof fn lemma_lex_le_trans(a: Seq<char>, b: Seq<char>, c: Seq<char>)
    requires
        lex_le(a, b),
        lex_le(b, c),
    ensures
        lex_le(a, c),
    decreases a.len(),
{
    if a.len() > 0 && b.len() > 0 && c.len() > 0 && a[0] == b[0] && b[0] == c[0] {
        lemma_lex_le_trans(a.skip(1), b.skip(1), c.skip(1));
    }
}

/// Exec lexicographic comparison from position `i` on.
fn lex_le_from(a: &Vec<char>, b: &Vec<char>, i: usize) -> (r: bool)
    requires
        i <= a@.len(),
        i <= b@.len(),
    ensures
        r == lex_le(a@.skip(i as int), b@.skip(i as int)),
    decreases a@.len() - i,
{
    if i == a.len() {
        true
    } else if i == b.len() {
        false
    } else if a[i] != b[i] {
        a[i] < b[i]
    } else {
        let r = lex_le_from(a, b, i + 1);
        proof {
            assert(a@.skip(i as int).skip(1) =~= a@.skip(i as int + 1));
            assert(b@.skip(i as int).skip(1) =~= b@.skip(i as int + 1));
        }
        r
    }
}

/// Exec lexicographic comparison of two character vectors.
pub fn lex_le_exec(a: &Vec<char>, b: &Vec<char>) -> (r: bool)
    ensures
        r == lex_le(a@, b@),
{
    let r = lex_le_from(a, b, 0);
    proof {
        assert(a@.skip(0) =~= a@);
        assert(b@.skip(0) =~= b@);
    }
    r
}

/// Whether the suffix of `v` equals the characters of `s`.
fn ends_with_exec(v: &Vec<char>, s: &str) -> (r: bool)
    ensures
        r == ends_with(v@, s@),
{
    let n = s.unicode_len();
    let m = v.len();
    if m < n {
        return false;
    }
    let mut i: usize = 0;
    while i < n
        invariant
            n == s@.len(),
            m == v@.len(),
            n <= m,
            i <= n,
            forall|k: int| 0 <= k < i ==> v@[m - n + k] == s@[k],
        decreases n - i,
    {
        if v[m - n + i] != s.get_char(i) {
            proof {
                assert(v@.skip(m as int - n as int)[i as int] != s@[i as int]);
            }
            return false;
        }
        i = i + 1;
    }
    proof {
        assert(v@.skip(m as int - n as int) =~= s@);
    }
    true
}

/// An entry name counts as an image when its lowercased form ends in
/// one of the four image extensions.
pub open spec fn is_image_name(s: Seq<char>) -> bool {
    ||| ends_with(lower(s), ".jpg"@)
    ||| ends_with(lower(s), ".jpeg"@)
    ||| ends_with(lower(s), ".png"@)
    ||| ends_with(lower(s), ".webp"@)
}

/// Whether a file name names an image, by its extension, case folded.
pub fn is_image(filename: &str) -> (r: bool)
    ensures
        r == is_image_name(filename@),
{
    let v = lower_chars_of(filename);
    ends_with_exec(&v, ".jpg") || ends_with_exec(&v, ".jpeg") || ends_with_exec(&v, ".png")
        || ends_with_exec(&v, ".webp")
}

/// Pick the cover among archive entry names: the image name that sorts
/// first lexicographically, the earliest listed on a tie. `None` when
/// no entry is an image.
pub fn pick_cover(names: &Vec<String>) -> (r: Option<usize>)
    ensures
        match r {
            None => forall|j: int|
                0 <= j < names.deep_view().len() ==> !is_image_name(names.deep_view()[j]),
            Some(i) => {
                &&& i < names.deep_view().len()
                &&& is_image_name(names.deep_view()[i as int])
                &&& forall|j: int|
                    0 <= j < names.deep_view().len() && is_image_name(names.deep_view()[j])
                        ==> lex_le(names.deep_view()[i as int], names.deep_view()[j])
                &&& forall|j: int|
                    0 <= j < i && is_image_name(names.deep_view()[j]) ==> !lex_le(
                        names.deep_view()[j],
                        names.deep_view()[i as int],
                    )
            },
        },
{
    let ghost ns = names.deep_view();
    let mut best: Option<usize> = None;
    let mut best_chars: Vec<char> = Vec::new();
    let mut i: usize = 0;
    while i < names.len()
        invariant
            names.deep_view() == ns,
            names@.len() == ns.len(),
            i <= ns.len(),
            forall|k: int| 0 <= k < ns.len() ==> ns[k] == names@[k]@,
            match best {
                None => forall|j: int| 0 <= j < i ==> !is_image_name(ns[j]),
                Some(b) => {
                    &&& b < i
                    &&& is_image_name(ns[b as int])
                    &&& best_chars@ == ns[b as int]
                    &&& forall|j: int|
                        0 <= j < i && is_image_name(ns[j]) ==> lex_le(ns[b as int], ns[j])
                    &&& forall|j: int|
                        0 <= j < b && is_image_name(ns[j]) ==> !lex_le(ns[j], ns[b as int])
                },
            },
        decreases names@.len() - i,
    {
        proof {
            assert(ns[i as int] == names@[i as int]@);
        }
        let img = is_image(names[i].as_str());
        if img {
            let cur = chars_of(names[i].as_str());
            proof {
                assert(cur@ == ns[i as int]);
                lemma_lex_le_total(cur@, cur@);
            }
            match best {
                None => {
                    best = Some(i);
                    best_chars = cur;
                },
                Some(b) => {
                    if !lex_le_exec(&best_chars, &cur) {
                        proof {
                            lemma_lex_le_total(best_chars@, cur@);
                            assert forall|j: int|
                                0 <= j < i + 1 && is_image_name(ns[j]) implies lex_le(
                                ns[i as int],
                                ns[j],
                            ) by {
                                if j < i {
                                    lemma_lex_le_trans(ns[i as int], ns[b as int], ns[j]);
                                }
                            }
                            assert forall|j: int|
                                0 <= j < i && is_image_name(ns[j]) implies !lex_le(
                                ns[j],
                                ns[i as int],
                            ) by {
                                if lex_le(ns[j], ns[i as int]) {
                                    lemma_lex_le_trans(ns[b as int], ns[j], ns[i as int]);
                                }
                            }
                        }
                        best = Some(i);
                        best_chars = cur;
                    }
                },
            }
        } else {
            proof {
                assert(!is_image_name(ns[i as int]));
            }
        }
        i = i + 1;
    }
    best
}

} // verus!
