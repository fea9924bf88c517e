//! Character-level utilities shared by the identity resolver and the
//! cover selector: digit runs, ASCII case folding, and numeric parsing.

use vstd::prelude::*;

verus! {

/// A decimal digit.
pub open spec fn is_digit(c: char) -> bool {
    '0' <= c && c <= '9'
}

/// ASCII whitespace, the characters the resolver's patterns treat as `\s`.
pub open spec fn is_space(c: char) -> bool {
    c == ' ' || c == '\t' || c == '\n' || c == '\r' || c == '\x0b' || c == '\x0c'
}

/// ASCII case folding of one character; other characters are unchanged.
pub open spec fn lower_char(c: char) -> char {
    if 'A' <= c && c <= 'Z' {
        ((c as u8) + 32) as char
    } else {
        c
    }
}

/// ASCII case folding of a character sequence.
pub open spec fn lower(s: Seq<char>) -> Seq<char> {
    s.map_values(|c: char| lower_char(c))
}

/// Exec ASCII case folding of one character.
pub fn lower_char_exec(c: char) -> (r: char)
    ensures
        r == lower_char(c),
{
    if 'A' <= c && c <= 'Z' {
        ((c as u8) + 32) as char
    } else {
        c
    }
}

/// Numeric value of the digit character `c`.
pub open spec fn digit_of(c: char) -> int {
    c as int - '0' as int
}

/// End of the digit run that starts at `i`: the first index at or after
/// `i` that is out of range or holds a non-digit.
pub open spec fn digit_run_end(s: Seq<char>, i: int) -> int
    decreases s.len() - i,
{
    if 0 <= i < s.len() && is_digit(s[i]) {
        digit_run_end(s, i + 1)
    } else {
        i
    }
}

/// End of the whitespace run that starts at `i`.
pub open spec fn space_run_end(s: Seq<char>, i: int) -> int
    decreases s.len() - i,
{
    if 0 <= i < s.len() && is_space(s[i]) {
        space_run_end(s, i + 1)
    } else {
        i
    }
}

/// An underscore, dash or whitespace, the separator class between a
/// chapter word and its number.
pub open spec fn is_sep(c: char) -> bool {
    c == '_' || c == '-' || is_space(c)
}

/// End of the separator run that starts at `i`.
pub open spec fn sep_run_end(s: Seq<char>, i: int) -> int
    decreases s.len() - i,
{
    if 0 <= i < s.len() && is_sep(s[i]) {
        sep_run_end(s, i + 1)
    } else {
        i
    }
}

/// Value of the digit characters `s[i..j)` read as a decimal number.
pub open spec fn digits_val(s: Seq<char>, i: int, j: int) -> int
    decreases j - i,
{
    if i >= j {
        0
    } else {
        digits_val(s, i, j - 1) * 10 + digit_of(s[j - 1])
    }
}

/// Lexicographic order on character sequences, by code point.
pub open spec fn lex_le(a: Seq<char>, b: Seq<char>) -> bool
    decreases a.len(),
{
    if a.len() == 0 {
        true
    } else if b.len() == 0 {
        false
    } else if a[0] != b[0] {
        a[0] < b[0]
    } else {
        lex_le(a.skip(1), b.skip(1))
    }
}

/// `suf` is a suffix of `s`.
pub open spec fn ends_with(s: Seq<char>, suf: Seq<char>) -> bool {
    s.len() >= suf.len() && s.skip(s.len() - suf.len()) == suf
}

/// Every position of the digit run is a digit, the run ends at a
/// non-digit or at the end, and the run never moves left.
pub proof fn lemma_digit_run(s: Seq<char>, i: int)
    requires
        0 <= i <= s.len(),
    ensures
        i <= digit_run_end(s, i) <= s.len(),
        forall|k: int| i <= k < digit_run_end(s, i) ==> is_digit(s[k]),
        digit_run_end(s, i) == s.len() || !is_digit(s[digit_run_end(s, i)]),
    decreases s.len() - i,
{
    if i < s.len() && is_digit(s[i]) {
        lemma_digit_run(s, i + 1);
    }
}

/// A run of digits has a non-negative value.
pub proof fn lemma_digits_val_nonneg(s: Seq<char>, i: int, j: int)
    requires
        0 <= i,
        j <= s.len(),
        forall|k: int| i <= k < j ==> is_digit(s[k]),
    ensures
        digits_val(s, i, j) >= 0,
    decreases j - i,
{
    if i < j {
        lemma_digits_val_nonneg(s, i, j - 1);
    }
}

/// Reading more digits never shrinks the value.
pub proof fn lemma_digits_val_grows(s: Seq<char>, i: int, k: int, j: int)
    requires
        0 <= i <= k <= j,
        j <= s.len(),
        forall|m: int| i <= m < j ==> is_digit(s[m]),
    ensures
        digits_val(s, i, j) >= digits_val(s, i, k),
    decreases j - k,
{
    if k < j {
        lemma_digits_val_grows(s, i, k, j - 1);
        lemma_digits_val_nonneg(s, i, j - 1);
    }
}

/// Exec test for a decimal digit.
pub fn is_digit_exec(c: char) -> (r: bool)
    ensures
        r == is_digit(c),
{
    '0' <= c && c <= '9'
}

/// Exec test for ASCII whitespace.
pub fn is_space_exec(c: char) -> (r: bool)
    ensures
        r == is_space(c),
{
    c == ' ' || c == '\t' || c == '\n' || c == '\r' || c == '\x0b' || c == '\x0c'
}

/// End of the digit run starting at `i`.
pub fn digit_run_end_exec(v: &Vec<char>, i: usize) -> (r: usize)
    requires
        i <= v@.len(),
    ensures
        r == digit_run_end(v@, i as int),
        i <= r <= v@.len(),
    decreases v@.len() - i,
{
    if i < v.len() && is_digit_exec(v[i]) {
        digit_run_end_exec(v, i + 1)
    } else {
        i
    }
}

/// End of the whitespace run starting at `i`.
pub fn space_run_end_exec(v: &Vec<char>, i: usize) -> (r: usize)
    requires
        i <= v@.len(),
    ensures
        r == space_run_end(v@, i as int),
        i <= r <= v@.len(),
    decreases v@.len() - i,
{
    if i < v.len() && is_space_exec(v[i]) {
        space_run_end_exec(v, i + 1)
    } else {
        i
    }
}

/// Exec test for a separator character.
pub fn is_sep_exec(c: char) -> (r: bool)
    ensures
        r == is_sep(c),
{
    c == '_' || c == '-' || is_space_exec(c)
}

/// End of the separator run starting at `i`.
pub fn sep_run_end_exec(v: &Vec<char>, i: usize) -> (r: usize)
    requires
        i <= v@.len(),
    ensures
        r == sep_run_end(v@, i as int),
        i <= r <= v@.len(),
    decreases v@.len() - i,
{
    if i < v.len() && is_sep_exec(v[i]) {
        sep_run_end_exec(v, i + 1)
    } else {
        i
    }
}

/// Value of the digit run `v[i..j)` as an `i32`, or `None` when the
/// value does not fit, as an integer parse of those digits would fail.
pub fn digits_to_i32(v: &Vec<char>, i: usize, j: usize) -> (r: Option<i32>)
    requires
        i <= j <= v@.len(),
        forall|k: int| i <= k < j ==> is_digit(v@[k]),
    ensures
        digits_val(v@, i as int, j as int) <= i32::MAX ==> r == Some(
            digits_val(v@, i as int, j as int) as i32,
        ),
        digits_val(v@, i as int, j as int) > i32::MAX ==> r is None,
{
    let mut acc: i64 = 0;
    let mut k: usize = i;
    while k < j
        invariant
            i <= k <= j <= v@.len(),
            forall|m: int| i <= m < j ==> is_digit(v@[m]),
            acc == digits_val(v@, i as int, k as int),
            0 <= acc <= i32::MAX,
        decreases j - k,
    {
        let d: i64 = (v[k] as u32) as i64 - 48;
        acc = acc * 10 + d;
        k = k + 1;
        if acc > i32::MAX as i64 {
            proof {
                lemma_digits_val_grows(v@, i as int, k as int, j as int);
            }
            return None;
        }
    }
    Some(acc as i32)
}

/// The signed decimal integer denoted by `s`, if `s` is an optional
/// sign followed by one or more digits and the value fits in `i64`.
pub open spec fn parse_i64(s: Seq<char>) -> Option<i64> {
    let start: int = if s.len() > 0 && (s[0] == '+' || s[0] == '-') {
        1
    } else {
        0
    };
    if s.len() > start && (forall|k: int| start <= k < s.len() ==> is_digit(s[k])) {
        let m = digits_val(s, start, s.len() as int);
        let value: int = if s.len() > 0 && s[0] == '-' {
            -m
        } else {
            m
        };
        if i64::MIN <= value <= i64::MAX {
            Some(value as i64)
        } else {
            None
        }
    } else {
        None
    }
}

/// `s` parsed as an `i64`, with failures mapped to 0, the reading a
/// stored year gets when the provider's year string is not a number.
pub open spec fn parse_i64_or_zero(s: Seq<char>) -> i64 {
    match parse_i64(s) {
        Some(v) => v,
        None => 0,
    }
}

/// Exec parse of a signed decimal integer.
pub fn parse_i64_exec(s: &str) -> (r: Option<i64>)
    ensures
        r == parse_i64(s@),
{
    let v = chars_of(s);
    let start: usize = if v.len() > 0 && (v[0] == '+' || v[0] == '-') {
        1
    } else {
        0
    };
    if v.len() <= start {
        return None;
    }
    let neg = v[0] == '-';
    let mut acc: u128 = 0;
    let mut k: usize = start;
    while k < v.len()
        invariant
            start <= k <= v@.len(),
            v@ == s@,
            start == (if v@.len() > 0 && (v@[0] == '+' || v@[0] == '-') {
                1int
            } else {
                0int
            }),
            v@.len() > start,
            neg == (v@[0] == '-'),
            forall|m: int| start <= m < k ==> is_digit(v@[m]),
            acc == digits_val(v@, start as int, k as int),
            acc <= 0x8000_0000_0000_0000u128,
        decreases v@.len() - k,
    {
        if !is_digit_exec(v[k]) {
            return None;
        }
        let d: u128 = (v[k] as u32) as u128 - 48;
        acc = acc * 10 + d;
        k = k + 1;
        if acc > 0x8000_0000_0000_0000u128 {
            proof {
                if (forall|m: int| start <= m < v@.len() ==> is_digit(v@[m])) {
                    lemma_digits_val_grows(v@, start as int, k as int, v@.len() as int);
                    assert(digits_val(v@, start as int, v@.len() as int) > i64::MAX);
                    assert(-digits_val(v@, start as int, v@.len() as int) < i64::MIN);
                }
            }
            return None;
        }
    }
    if neg {
        if acc == 0x8000_0000_0000_0000u128 {
            Some(i64::MIN)
        } else {
            Some(-((acc as i64)))
        }
    } else {
        if acc == 0x8000_0000_0000_0000u128 {
            None
        } else {
            Some(acc as i64)
        }
    }
}

/// Exec parse with failures mapped to 0.
pub fn parse_i64_or_zero_exec(s: &str) -> (r: i64)
    ensures
        r == parse_i64_or_zero(s@),
{
    match parse_i64_exec(s) {
        Some(v) => v,
        None => 0,
    }
}

/// The characters of a string, in order, as a vector.
pub fn chars_of(s: &str) -> (r: Vec<char>)
    ensures
        r@ == s@,
{
    let n = s.unicode_len();
    let mut r: Vec<char> = Vec::new();
    let mut i: usize = 0;
    while i < n
        invariant
            n == s@.len(),
            i <= n,
            r@ == s@.subrange(0, i as int),
        decreases n - i,
    {
        r.push(s.get_char(i));
        i = i + 1;
        proof {
            assert(r@ =~= s@.subrange(0, i as int));
        }
    }
    proof {
        assert(r@ =~= s@);
    }
    r
}

/// The characters of a string, ASCII case folded.
pub fn lower_chars_of(s: &str) -> (r: Vec<char>)
    ensures
        r@ == lower(s@),
{
    let cs = chars_of(s);
    let mut r: Vec<char> = Vec::new();
    let mut i: usize = 0;
    while i < cs.len()
        invariant
            cs@ == s@,
            i <= cs@.len(),
            r@ == lower(s@.subrange(0, i as int)),
        decreases cs@.len() - i,
    {
        r.push(lower_char_exec(cs[i]));
        i = i + 1;
        proof {
            assert(r@ =~= lower(s@.subrange(0, i as int)));
        }
    }
    proof {
        assert(r@ =~= lower(s@));
    }
    r
}

} // verus!
