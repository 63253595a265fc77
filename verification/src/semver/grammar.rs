//! The grammar of version identifiers, as functions on sequences of
//! characters.
//!
//! A version is read from the start of a text, in one pass, as these tokens
//! in this order:
//!
//! 1. an optional `v`;
//! 2. an optional epoch: digits and a `!`, read as an epoch only where a
//!    digit follows the `!`;
//! 3. the major version: digits;
//! 4. any number of further segments, each a `.` and digits;
//! 5. an optional pre-release: lower-case letters, the cycle label, and
//!    optional digits;
//! 6. an optional post-release: an optional separator (`.`, `-` or `_`), one
//!    of `post`, `r` and `rev`, and digits;
//! 7. an optional development release: an optional separator, `dev`, and
//!    digits.
//!
//! Each token takes as many characters as it can. What follows the last
//! token is not looked at. [`tokens`] gives the text of each token, or `None`
//! where the text has no major version at its place.

use vstd::prelude::*;

verus! {

/// An ASCII decimal digit.
pub open spec fn is_digit(c: char) -> bool {
    '0' <= c && c <= '9'
}

/// An ASCII lower-case letter.
pub open spec fn is_lowercase(c: char) -> bool {
    'a' <= c && c <= 'z'
}

/// A character that may stand before a post-release or development marker.
pub open spec fn is_separator(c: char) -> bool {
    c == '.' || c == '-' || c == '_'
}

/// A character with the Unicode property `White_Space`.
pub open spec fn is_whitespace(c: char) -> bool {
    ||| '\u{9}' <= c && c <= '\u{d}'
    ||| c == ' '
    ||| c == '\u{85}'
    ||| c == '\u{a0}'
    ||| c == '\u{1680}'
    ||| '\u{2000}' <= c && c <= '\u{200a}'
    ||| c == '\u{2028}'
    ||| c == '\u{2029}'
    ||| c == '\u{202f}'
    ||| c == '\u{205f}'
    ||| c == '\u{3000}'
}

/// `s` without the whitespace at its start.
pub open spec fn trim_start(s: Seq<char>) -> Seq<char>
    decreases s.len(),
{
    if s.len() > 0 && is_whitespace(s.first()) {
        trim_start(s.drop_first())
    } else {
        s
    }
}

/// `s` without the whitespace at its end.
pub open spec fn trim_end(s: Seq<char>) -> Seq<char>
    decreases s.len(),
{
    if s.len() > 0 && is_whitespace(s.last()) {
        trim_end(s.drop_last())
    } else {
        s
    }
}

/// `s` without the whitespace at its start and at its end.
pub open spec fn trimmed(s: Seq<char>) -> Seq<char> {
    trim_end(trim_start(s))
}

/// A digit stands at `at`.
pub open spec fn digit_at(s: Seq<char>, at: int) -> bool {
    0 <= at < s.len() && is_digit(s[at])
}

/// The end of the longest run of digits that starts at `from`; `from` itself
/// where no digit stands there.
pub open spec fn digits_end(s: Seq<char>, from: int) -> int
    decreases s.len() - from,
{
    if digit_at(s, from) {
        digits_end(s, from + 1)
    } else {
        from
    }
}

/// The end of the longest run of lower-case letters that starts at `from`;
/// `from` itself where no such letter stands there.
pub open spec fn letters_end(s: Seq<char>, from: int) -> int
    decreases s.len() - from,
{
    if 0 <= from < s.len() && is_lowercase(s[from]) {
        letters_end(s, from + 1)
    } else {
        from
    }
}

/// Where the numbers of the version start: after the `v`, if there is one.
pub open spec fn numbers_start(s: Seq<char>) -> int {
    if s.len() > 0 && s[0] == 'v' {
        1
    } else {
        0
    }
}

/// The text starts with an epoch: digits, a `!` and the first digit of the
/// major version.
pub open spec fn has_epoch(s: Seq<char>) -> bool {
    let end = digits_end(s, numbers_start(s));
    &&& numbers_start(s) < end < s.len()
    &&& s[end] == '!'
    &&& digit_at(s, end + 1)
}

/// The digits of the epoch, where the text has one.
pub open spec fn epoch_text(s: Seq<char>) -> Seq<char> {
    s.subrange(numbers_start(s), digits_end(s, numbers_start(s)))
}

/// Where the major version has to start.
pub open spec fn release_start(s: Seq<char>) -> int {
    if has_epoch(s) {
        digits_end(s, numbers_start(s)) + 1
    } else {
        numbers_start(s)
    }
}

/// The text holds a version: a major version stands at its place.
pub open spec fn has_major(s: Seq<char>) -> bool {
    digit_at(s, release_start(s))
}

/// A further release segment starts at `at`: a `.` and a digit.
pub open spec fn segment_follows(s: Seq<char>, at: int) -> bool {
    0 <= at < s.len() && s[at] == '.' && digit_at(s, at + 1)
}

/// The digit groups of the release whose first group starts at `from`.
pub open spec fn release_texts(s: Seq<char>, from: int) -> Seq<Seq<char>>
    decreases s.len() - from,
{
    let end = digits_end(s, from);
    if from <= end && segment_follows(s, end) {
        seq![s.subrange(from, end)] + release_texts(s, end + 1)
    } else {
        seq![s.subrange(from, end)]
    }
}

/// The end of the release whose first group starts at `from`.
pub open spec fn release_end(s: Seq<char>, from: int) -> int
    decreases s.len() - from,
{
    let end = digits_end(s, from);
    if from <= end && segment_follows(s, end) {
        release_end(s, end + 1)
    } else {
        end
    }
}

/// The cycle label of the pre-release that starts at `at`: the lower-case
/// letters that stand there, if any.
pub open spec fn label_text(s: Seq<char>, at: int) -> Option<Seq<char>> {
    if at < letters_end(s, at) {
        Some(s.subrange(at, letters_end(s, at)))
    } else {
        None
    }
}

/// The digits of the pre-release that starts at `at`: those that follow its
/// cycle label, if any.
pub open spec fn pre_release_text(s: Seq<char>, at: int) -> Option<Seq<char>> {
    let label_end = letters_end(s, at);
    if at < label_end && label_end < digits_end(s, label_end) {
        Some(s.subrange(label_end, digits_end(s, label_end)))
    } else {
        None
    }
}

/// The end of the pre-release that starts at `at`: of the digits after the
/// label, of the label where no digits follow it, `at` where no label
/// stands there.
pub open spec fn pre_release_end(s: Seq<char>, at: int) -> int {
    let label_end = letters_end(s, at);
    if at < label_end {
        digits_end(s, label_end)
    } else {
        at
    }
}

/// The word `word` stands at `at` and a digit follows it.
pub open spec fn keyword_at(s: Seq<char>, at: int, word: Seq<char>) -> bool {
    &&& 0 <= at
    &&& at + word.len() < s.len()
    &&& s.subrange(at, at + word.len()) == word
    &&& is_digit(s[at + word.len()])
}

/// A position and the one after the separator that stands there, if any.
pub open spec fn skip_separator(s: Seq<char>, at: int) -> int {
    if 0 <= at < s.len() && is_separator(s[at]) {
        at + 1
    } else {
        at
    }
}

/// The post-release keyword that stands at `at` with a digit after it.
pub open spec fn post_keyword_at(s: Seq<char>, at: int) -> Option<Seq<char>> {
    if keyword_at(s, at, "post"@) {
        Some("post"@)
    } else if keyword_at(s, at, "r"@) {
        Some("r"@)
    } else if keyword_at(s, at, "rev"@) {
        Some("rev"@)
    } else {
        None
    }
}

/// The development keyword that stands at `at` with a digit after it.
pub open spec fn dev_keyword_at(s: Seq<char>, at: int) -> Option<Seq<char>> {
    if keyword_at(s, at, "dev"@) {
        Some("dev"@)
    } else {
        None
    }
}

/// The digits of a marker whose optional separator starts at `at`, given
/// the keyword found after the separator: where they start and end.
pub open spec fn marker_digits(s: Seq<char>, at: int, keyword: Option<Seq<char>>) -> Option<
    (int, int),
> {
    match keyword {
        Some(word) => {
            let start = skip_separator(s, at) + word.len();
            Some((start, digits_end(s, start)))
        },
        None => None,
    }
}

/// The digits of the post-release marker that starts at `at`.
pub open spec fn post_digits(s: Seq<char>, at: int) -> Option<(int, int)> {
    marker_digits(s, at, post_keyword_at(s, skip_separator(s, at)))
}

/// The digits of the development marker that starts at `at`.
pub open spec fn dev_digits(s: Seq<char>, at: int) -> Option<(int, int)> {
    marker_digits(s, at, dev_keyword_at(s, skip_separator(s, at)))
}

/// Where the scan stands after a marker that started at `at`: at the end of
/// its digits, or still at `at` where there was no marker.
pub open spec fn marker_end(at: int, digits: Option<(int, int)>) -> int {
    match digits {
        Some(range) => range.1,
        None => at,
    }
}

/// The characters of an optional range of `s`.
pub open spec fn text_of(s: Seq<char>, range: Option<(int, int)>) -> Option<Seq<char>> {
    match range {
        Some(range) => Some(s.subrange(range.0, range.1)),
        None => None,
    }
}

/// The text of each token of a version.
pub struct Tokens {
    /// The digits of the epoch.
    pub epoch: Option<Seq<char>>,
    /// The digit groups of the release, the major version first.
    pub release: Seq<Seq<char>>,
    /// The cycle label of the pre-release.
    pub label: Option<Seq<char>>,
    /// The digits after the cycle label.
    pub pre: Option<Seq<char>>,
    /// The digits of the post-release.
    pub post: Option<Seq<char>>,
    /// The digits of the development release.
    pub dev: Option<Seq<char>>,
}

/// The tokens of the version that `s` starts with, or `None` where no major
/// version stands at its place.
pub open spec fn tokens(s: Seq<char>) -> Option<Tokens> {
    if has_major(s) {
        let pre_release = release_end(s, release_start(s));
        let post = pre_release_end(s, pre_release);
        let dev = marker_end(post, post_digits(s, post));
        Some(
            Tokens {
                epoch: if has_epoch(s) {
                    Some(epoch_text(s))
                } else {
                    None
                },
                release: release_texts(s, release_start(s)),
                label: label_text(s, pre_release),
                pre: pre_release_text(s, pre_release),
                post: text_of(s, post_digits(s, post)),
                dev: text_of(s, dev_digits(s, dev)),
            },
        )
    } else {
        None
    }
}

/// What a run of digits is: it starts at `from`, holds digits only and ends
/// at the end of the text or before a character that is no digit.
pub proof fn lemma_digits_end(s: Seq<char>, from: int)
    requires
        0 <= from <= s.len(),
    ensures
        from <= digits_end(s, from) <= s.len(),
        forall|i: int| from <= i < digits_end(s, from) ==> is_digit(#[trigger] s[i]),
        !digit_at(s, digits_end(s, from)),
    decreases s.len() - from,
{
    if digit_at(s, from) {
        lemma_digits_end(s, from + 1);
    }
}

/// What a run of letters is: it starts at `from`, holds lower-case letters
/// only and ends at the end of the text or before a character that is none.
pub proof fn lemma_letters_end(s: Seq<char>, from: int)
    requires
        0 <= from <= s.len(),
    ensures
        from <= letters_end(s, from) <= s.len(),
        forall|i: int| from <= i < letters_end(s, from) ==> is_lowercase(#[trigger] s[i]),
        letters_end(s, from) < s.len() ==> !is_lowercase(s[letters_end(s, from)]),
    decreases s.len() - from,
{
    if from < s.len() && is_lowercase(s[from]) {
        lemma_letters_end(s, from + 1);
    }
}

} // verus!
