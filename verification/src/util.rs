//! Small utilities: filename sanitizing for cached image names.

use vstd::prelude::*;

verus! {

/// Whether `c` counts as alphanumeric, the way the standard library's
/// Unicode tables classify it. The result depends on the character alone.
pub uninterp spec fn char_is_alphanumeric(c: char) -> bool;

/// Relies on char::is_alphanumeric: true exactly for Unicode letters
/// and numbers; a pure function of the character.
#[verifier::external_body]
fn is_alphanumeric_char(c: char) -> (r: bool)
    ensures
        r == char_is_alphanumeric(c),
{
    c.is_alphanumeric()
}

/// Relies on String::push: appends one character at the end.
#[verifier::external_body]
fn push_char(s: &mut String, c: char)
    ensures
        final(s)@ == old(s)@.push(c),
{
    s.push(c);
}

/// `s` with every character that is neither alphanumeric nor `-` nor
/// `_` replaced by `_`.
pub open spec fn sanitized(s: Seq<char>) -> Seq<char> {
    s.map_values(
        |c: char|
            if char_is_alphanumeric(c) || c == '-' || c == '_' {
                c
            } else {
                '_'
            },
    )
}

/// Make a name safe to use as a cached image file name: keep
/// alphanumeric characters, dashes and underscores, replace the rest
/// with underscores.
pub fn sanitize_filename(name: &str) -> (r: String)
    ensures
        r@ == sanitized(name@),
{
    let v = crate::text::chars_of(name);
    let mut r = String::new();
    let mut i: usize = 0;
    while i < v.len()
        invariant
            v@ == name@,
            i <= v@.len(),
            r@ == sanitized(name@.subrange(0, i as int)),
        decreases v@.len() - i,
    {
        let c = v[i];
        if is_alphanumeric_char(c) || c == '-' || c == '_' {
            push_char(&mut r, c);
        } else {
            push_char(&mut r, '_');
        }
        i = i + 1;
        proof {
            assert(r@ =~= sanitized(name@.subrange(0, i as int)));
        }
    }
    proof {
        assert(r@ =~= sanitized(name@));
    }
    r
}

} // verus!
