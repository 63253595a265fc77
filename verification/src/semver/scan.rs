//! Scanning: the executable side of the grammar's building blocks.

use vstd::prelude::*;
use vstd::string::StrSliceExecFns;
use super::grammar::{
    digit_at, digits_end, is_digit, is_lowercase, is_separator, is_whitespace, keyword_at,
    letters_end, trim_end, trim_start, trimmed,
};

verus! {

/// Tells whether `c` is a digit.
pub(crate) fn digit(c: char) -> (yes: bool)
    ensures
        yes == is_digit(c),
{
    '0' <= c && c <= '9'
}

/// Tells whether `c` is a lower-case letter.
pub(crate) fn lowercase(c: char) -> (yes: bool)
    ensures
        yes == is_lowercase(c),
{
    'a' <= c && c <= 'z'
}

/// Tells whether `c` is a separator.
pub(crate) fn separator(c: char) -> (yes: bool)
    ensures
        yes == is_separator(c),
{
    c == '.' || c == '-' || c == '_'
}

/// Tells whether `c` is whitespace.
pub(crate) fn whitespace(c: char) -> (yes: bool)
    ensures
        yes == is_whitespace(c),
{
    ('\u{9}' <= c && c <= '\u{d}') || c == ' ' || c == '\u{85}' || c == '\u{a0}' || c
        == '\u{1680}' || ('\u{2000}' <= c && c <= '\u{200a}') || c == '\u{2028}' || c
        == '\u{2029}' || c == '\u{202f}' || c == '\u{205f}' || c == '\u{3000}'
}

/// Finds the part of `s` that is left when the whitespace at both ends is
/// taken away: where it starts and where it ends.
pub(crate) fn trim_bounds(s: &[char]) -> (bounds: (usize, usize))
    ensures
        bounds.0 <= bounds.1 <= s.len(),
        s@.subrange(bounds.0 as int, bounds.1 as int) == trimmed(s@),
{
    let mut start: usize = 0;
    proof {
        assert(s@.subrange(0, s.len() as int) =~= s@);
    }
    while start < s.len() && whitespace(s[start])
        invariant
            start <= s.len(),
            trim_start(s@) == trim_start(s@.subrange(start as int, s.len() as int)),
        decreases s.len() - start,
    {
        proof {
            assert(s@.subrange(start as int, s.len() as int).drop_first() =~= s@.subrange(
                start + 1,
                s.len() as int,
            ));
        }
        start += 1;
    }
    let mut end: usize = s.len();
    while start < end && whitespace(s[end - 1])
        invariant
            start <= end <= s.len(),
            trim_start(s@) == s@.subrange(start as int, s.len() as int),
            trimmed(s@) == trim_end(s@.subrange(start as int, end as int)),
        decreases end - start,
    {
        proof {
            assert(s@.subrange(start as int, end as int).drop_last() =~= s@.subrange(
                start as int,
                end - 1,
            ));
        }
        end -= 1;
    }
    (start, end)
}

/// Finds the end of the run of digits that starts at `from`.
pub(crate) fn scan_digits(s: &[char], from: usize) -> (end: usize)
    requires
        from <= s.len(),
    ensures
        end == digits_end(s@, from as int),
        from <= end <= s.len(),
        forall|i: int| from <= i < end ==> is_digit(#[trigger] s@[i]),
        !digit_at(s@, end as int),
{
    let mut end: usize = from;
    while end < s.len() && digit(s[end])
        invariant
            from <= end <= s.len(),
            digits_end(s@, end as int) == digits_end(s@, from as int),
            forall|i: int| from <= i < end ==> is_digit(#[trigger] s@[i]),
        decreases s.len() - end,
    {
        end += 1;
    }
    end
}

/// Finds the end of the run of lower-case letters that starts at `from`.
pub(crate) fn scan_letters(s: &[char], from: usize) -> (end: usize)
    requires
        from <= s.len(),
    ensures
        end == letters_end(s@, from as int),
        from <= end <= s.len(),
{
    let mut end: usize = from;
    while end < s.len() && lowercase(s[end])
        invariant
            from <= end <= s.len(),
            letters_end(s@, end as int) == letters_end(s@, from as int),
        decreases s.len() - end,
    {
        end += 1;
    }
    end
}

/// Tells whether the characters of `s` from `from` up to `to` spell `word`.
pub(crate) fn spells(s: &[char], from: usize, to: usize, word: &str) -> (yes: bool)
    requires
        from <= to <= s.len(),
    ensures
        yes == (s@.subrange(from as int, to as int) == word@),
{
    let len = word.unicode_len();
    if to - from != len {
        return false;
    }
    let mut i: usize = 0;
    while i < len
        invariant
            from <= to <= s.len(),
            len == to - from,
            len == word@.len(),
            i <= len,
            forall|k: int| 0 <= k < i ==> s@[from + k] == word@[k],
        decreases len - i,
    {
        if s[from + i] != word.get_char(i) {
            return false;
        }
        i += 1;
    }
    proof {
        assert(s@.subrange(from as int, to as int) =~= word@);
    }
    true
}

/// Tells whether `word` stands in `s` at `at` with a digit after it.
pub(crate) fn keyword_stands(s: &[char], at: usize, word: &str) -> (yes: bool)
    requires
        at <= s.len(),
    ensures
        yes == keyword_at(s@, at as int, word@),
{
    let len = word.unicode_len();
    if len >= s.len() - at {
        return false;
    }
    spells(s, at, at + len, word) && digit(s[at + len])
}

} // verus!
