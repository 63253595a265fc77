//! Reading a version from text.
//!
//! [`parsed`] says what every text is read as: the whitespace at both ends
//! goes, the grammar finds the tokens, and the tokens are turned into
//! numbers and a cycle, in the order in which they stand. The first token
//! that cannot be turned decides the failure.

use std::str::FromStr;
use vstd::prelude::*;
use vstd::slice::slice_subrange;
use vstd::string::StrSliceExecFns;
use super::grammar::{
    dev_digits, digit_at, digits_end, has_epoch, is_digit, keyword_at, label_text,
    marker_digits, numbers_start, post_digits, pre_release_end, pre_release_text, release_end,
    release_start, release_texts, segment_follows, skip_separator, tokens, trimmed, Tokens,
};
use super::number::{number_of, read_number};
use super::scan::{
    digit, keyword_stands, scan_digits, scan_letters, separator, spells, trim_bounds,
};
use crate::text::chars_of;
use super::{ParseFailure, ParseVersionError, PreReleaseCycle, Version, VersionView};

verus! {

/// The cycle that a label names: `a` and `alpha` name `Alpha`, `b` and
/// `beta` name `Beta`, and `rc`, `c`, `pre` and `preview` name
/// `ReleaseCandidate`. No other label names a cycle.
pub open spec fn cycle_of(label: Seq<char>) -> Option<PreReleaseCycle> {
    if label == "a"@ || label == "alpha"@ {
        Some(PreReleaseCycle::Alpha)
    } else if label == "b"@ || label == "beta"@ {
        Some(PreReleaseCycle::Beta)
    } else if label == "rc"@ || label == "c"@ || label == "pre"@ || label == "preview"@ {
        Some(PreReleaseCycle::ReleaseCandidate)
    } else {
        None
    }
}

/// The number of an optional token, or the failure that its digits cause.
pub open spec fn optional_number(token: Option<Seq<char>>) -> Result<Option<u32>, ParseFailure> {
    match token {
        None => Ok(None),
        Some(digits) => match number_of(digits) {
            Some(number) => Ok(Some(number)),
            None => Err(ParseFailure::ParseNumber(digits)),
        },
    }
}

/// The numbers of the release segments, or the failure that the first
/// segment beyond `u32::MAX` causes.
pub open spec fn release_numbers(texts: Seq<Seq<char>>) -> Result<Seq<u32>, ParseFailure>
    decreases texts.len(),
{
    if texts.len() == 0 {
        Ok(Seq::empty())
    } else {
        match number_of(texts.first()) {
            None => Err(ParseFailure::ParseNumber(texts.first())),
            Some(number) => match release_numbers(texts.drop_first()) {
                Ok(numbers) => Ok(seq![number] + numbers),
                Err(failure) => Err(failure),
            },
        }
    }
}

/// The pre-release that a label and the digits after it stand for. The
/// label is looked up first; a label without digits has the number 0.
pub open spec fn pre_release_of(label: Option<Seq<char>>, digits: Option<Seq<char>>) -> Result<
    Option<(PreReleaseCycle, u32)>,
    ParseFailure,
> {
    match label {
        None => Ok(None),
        Some(label) => match cycle_of(label) {
            None => Err(ParseFailure::InvalidPreRelease),
            Some(cycle) => match digits {
                None => Ok(Some((cycle, 0u32))),
                Some(digits) => match number_of(digits) {
                    Some(number) => Ok(Some((cycle, number))),
                    None => Err(ParseFailure::ParseNumber(digits)),
                },
            },
        },
    }
}

/// The version that the tokens stand for, or the failure of the first token
/// that stands for nothing.
pub open spec fn evaluate(found: Tokens) -> Result<VersionView, ParseFailure> {
    match optional_number(found.epoch) {
        Err(failure) => Err(failure),
        Ok(epoch) => match release_numbers(found.release) {
            Err(failure) => Err(failure),
            Ok(segments) => match pre_release_of(found.label, found.pre) {
                Err(failure) => Err(failure),
                Ok(pre_release) => match optional_number(found.post) {
                    Err(failure) => Err(failure),
                    Ok(post_release) => match optional_number(found.dev) {
                        Err(failure) => Err(failure),
                        Ok(dev_release) => Ok(
                            VersionView {
                                epoch,
                                segments,
                                pre_release,
                                post_release,
                                dev_release,
                            },
                        ),
                    },
                },
            },
        },
    }
}

/// What a text is read as when the version has to stand at its very start:
/// the version that its tokens stand for, or the reason why there is none.
pub open spec fn parsed_from_start(s: Seq<char>) -> Result<VersionView, ParseFailure> {
    match tokens(s) {
        None => Err(ParseFailure::InvalidFormat),
        Some(found) => evaluate(found),
    }
}

/// What a text is read as: the version that it starts with once the
/// whitespace at its ends is gone, or the reason why there is none.
pub open spec fn parsed(text: Seq<char>) -> Result<VersionView, ParseFailure> {
    parsed_from_start(trimmed(text))
}

/// The numbers read so far, followed by what the rest gives.
spec fn followed_by(done: Seq<u32>, rest: Result<Seq<u32>, ParseFailure>) -> Result<
    Seq<u32>,
    ParseFailure,
> {
    match rest {
        Ok(numbers) => Ok(done + numbers),
        Err(failure) => Err(failure),
    }
}

/// `s` is the part of `text` that starts at `base`.
spec fn part_of(s: Seq<char>, text: Seq<char>, base: int) -> bool {
    &&& 0 <= base
    &&& base + s.len() <= text.len()
    &&& text.subrange(base, base + s.len()) == s
}

/// The failure of the digits that stand in `s` from `from` up to `to`.
fn number_failure(s: &[char], from: usize, to: usize, text: &str, base: usize) -> (failure:
    ParseVersionError)
    requires
        from <= to <= s.len(),
        part_of(s@, text@, base as int),
        text@.len() <= usize::MAX,
    ensures
        failure@ == ParseFailure::ParseNumber(s@.subrange(from as int, to as int)),
{
    let digits = text.substring_char(base + from, base + to);
    proof {
        assert(digits@ =~= text@.subrange(base as int, base + s.len()).subrange(
            from as int,
            to as int,
        ));
    }
    ParseVersionError::ParseNumber(digits.to_owned())
}

/// Looks up the cycle that the characters of `s` from `from` up to `to`
/// name.
fn lookup_cycle(s: &[char], from: usize, to: usize) -> (cycle: Option<PreReleaseCycle>)
    requires
        from <= to <= s.len(),
    ensures
        cycle == cycle_of(s@.subrange(from as int, to as int)),
{
    if spells(s, from, to, "a") || spells(s, from, to, "alpha") {
        Some(PreReleaseCycle::Alpha)
    } else if spells(s, from, to, "b") || spells(s, from, to, "beta") {
        Some(PreReleaseCycle::Beta)
    } else if spells(s, from, to, "rc") || spells(s, from, to, "c") || spells(s, from, to, "pre")
        || spells(s, from, to, "preview") {
        Some(PreReleaseCycle::ReleaseCandidate)
    } else {
        None
    }
}

/// Finds the epoch, if there is one, and the place of the major version.
fn find_release(s: &[char]) -> (found: (Option<(usize, usize)>, usize))
    ensures
        found.0 is Some <==> has_epoch(s@),
        found.0 matches Some(range) ==> {
            &&& range.0 == numbers_start(s@)
            &&& range.1 == digits_end(s@, numbers_start(s@))
            &&& range.0 <= range.1 <= s.len()
            &&& forall|i: int| range.0 <= i < range.1 ==> is_digit(#[trigger] s@[i])
        },
        found.1 == release_start(s@),
        found.1 <= s.len(),
{
    let start: usize = if s.len() > 0 && s[0] == 'v' {
        1
    } else {
        0
    };
    let end = scan_digits(s, start);
    if start < end && end < s.len() && s[end] == '!' && end + 1 < s.len() && digit(s[end + 1]) {
        (Some((start, end)), end + 1)
    } else {
        (None, start)
    }
}

/// Reads the release whose major version starts at `from`: the numbers of
/// its segments, and where it ends.
fn read_release(s: &[char], from: usize, text: &str, base: usize) -> (release: Result<
    (Vec<u32>, usize),
    ParseVersionError,
>)
    requires
        digit_at(s@, from as int),
        part_of(s@, text@, base as int),
        text@.len() <= usize::MAX,
    ensures
        match release {
            Ok((numbers, end)) => {
                &&& release_numbers(release_texts(s@, from as int)) == Ok::<
                    Seq<u32>,
                    ParseFailure,
                >(numbers@)
                &&& end == release_end(s@, from as int)
                &&& end <= s.len()
                &&& numbers@.len() > 0
            },
            Err(failure) => release_numbers(release_texts(s@, from as int)) == Err::<
                Seq<u32>,
                ParseFailure,
            >(failure@),
        },
{
    let mut numbers: Vec<u32> = Vec::new();
    let mut at: usize = from;
    loop
        invariant
            digit_at(s@, at as int),
            part_of(s@, text@, base as int),
            text@.len() <= usize::MAX,
            release_end(s@, at as int) == release_end(s@, from as int),
            followed_by(numbers@, release_numbers(release_texts(s@, at as int)))
                == release_numbers(release_texts(s@, from as int)),
        decreases s.len() - at,
    {
        let end = scan_digits(s, at);
        let ghost texts = release_texts(s@, at as int);
        let ghost group = s@.subrange(at as int, end as int);
        let more = end < s.len() && s[end] == '.' && end + 1 < s.len() && digit(s[end + 1]);
        proof {
            assert(more == segment_follows(s@, end as int));
            assert(texts.first() == group);
            if more {
                assert(texts.drop_first() =~= release_texts(s@, end + 1));
            } else {
                assert(texts.drop_first() =~= Seq::<Seq<char>>::empty());
            }
        }
        match read_number(s, at, end) {
            None => {
                return Err(number_failure(s, at, end, text, base));
            },
            Some(number) => {
                proof {
                    let rest = release_numbers(texts.drop_first());
                    if rest is Ok {
                        assert(numbers@ + (seq![number] + rest->Ok_0) =~= numbers@.push(number)
                            + rest->Ok_0);
                    }
                    assert(followed_by(numbers@, release_numbers(texts)) == followed_by(
                        numbers@.push(number),
                        rest,
                    ));
                }
                numbers.push(number);
            },
        }
        if more {
            at = end + 1;
        } else {
            return Ok((numbers, end));
        }
    }
}

/// Reads the pre-release that starts at `at`, if one does, and tells where
/// it ends.
fn read_pre_release(s: &[char], at: usize, text: &str, base: usize) -> (pre_release: Result<
    (Option<(PreReleaseCycle, u32)>, usize),
    ParseVersionError,
>)
    requires
        at <= s.len(),
        part_of(s@, text@, base as int),
        text@.len() <= usize::MAX,
    ensures
        match pre_release {
            Ok((found, end)) => {
                &&& pre_release_of(label_text(s@, at as int), pre_release_text(s@, at as int))
                    == Ok::<Option<(PreReleaseCycle, u32)>, ParseFailure>(found)
                &&& end == pre_release_end(s@, at as int)
                &&& end <= s.len()
            },
            Err(failure) => pre_release_of(
                label_text(s@, at as int),
                pre_release_text(s@, at as int),
            ) == Err::<Option<(PreReleaseCycle, u32)>, ParseFailure>(failure@),
        },
{
    let label_end = scan_letters(s, at);
    if at == label_end {
        return Ok((None, at));
    }
    let cycle = match lookup_cycle(s, at, label_end) {
        None => {
            return Err(ParseVersionError::InvalidPreRelease);
        },
        Some(cycle) => cycle,
    };
    let end = scan_digits(s, label_end);
    if label_end == end {
        return Ok((Some((cycle, 0)), end));
    }
    match read_number(s, label_end, end) {
        None => Err(number_failure(s, label_end, end, text, base)),
        Some(number) => Ok((Some((cycle, number)), end)),
    }
}

/// Finds the digits of a marker whose keyword `word` stands at
/// `word_start`.
fn digits_after(s: &[char], at: usize, word_start: usize, word: &str) -> (range: (usize, usize))
    requires
        at <= s.len(),
        word_start == skip_separator(s@, at as int),
        keyword_at(s@, word_start as int, word@),
    ensures
        marker_digits(s@, at as int, Some(word@)) == Some((range.0 as int, range.1 as int)),
        range.0 < range.1 <= s.len(),
        forall|i: int| range.0 <= i < range.1 ==> is_digit(#[trigger] s@[i]),
{
    let start = word_start + word.unicode_len();
    let end = scan_digits(s, start);
    (start, end)
}

/// The place after the separator that stands at `at`, if one does.
fn after_separator(s: &[char], at: usize) -> (next: usize)
    requires
        at <= s.len(),
    ensures
        next == skip_separator(s@, at as int),
        next <= s.len(),
{
    if at < s.len() && separator(s[at]) {
        at + 1
    } else {
        at
    }
}

/// Finds the digits of the post-release marker that starts at `at`.
fn find_post(s: &[char], at: usize) -> (range: Option<(usize, usize)>)
    requires
        at <= s.len(),
    ensures
        match range {
            Some(range) => {
                &&& post_digits(s@, at as int) == Some((range.0 as int, range.1 as int))
                &&& range.0 < range.1 <= s.len()
                &&& forall|i: int| range.0 <= i < range.1 ==> is_digit(#[trigger] s@[i])
            },
            None => post_digits(s@, at as int) is None,
        },
{
    let word_start = after_separator(s, at);
    if keyword_stands(s, word_start, "post") {
        Some(digits_after(s, at, word_start, "post"))
    } else if keyword_stands(s, word_start, "r") {
        Some(digits_after(s, at, word_start, "r"))
    } else if keyword_stands(s, word_start, "rev") {
        Some(digits_after(s, at, word_start, "rev"))
    } else {
        None
    }
}

/// Finds the digits of the development marker that starts at `at`.
fn find_dev(s: &[char], at: usize) -> (range: Option<(usize, usize)>)
    requires
        at <= s.len(),
    ensures
        match range {
            Some(range) => {
                &&& dev_digits(s@, at as int) == Some((range.0 as int, range.1 as int))
                &&& range.0 < range.1 <= s.len()
                &&& forall|i: int| range.0 <= i < range.1 ==> is_digit(#[trigger] s@[i])
            },
            None => dev_digits(s@, at as int) is None,
        },
{
    let word_start = after_separator(s, at);
    if keyword_stands(s, word_start, "dev") {
        Some(digits_after(s, at, word_start, "dev"))
    } else {
        None
    }
}

/// Reads the number that stands in an optional range of digits.
fn read_optional(s: &[char], range: Option<(usize, usize)>, text: &str, base: usize) -> (number:
    Result<Option<u32>, ParseVersionError>)
    requires
        range matches Some(range) ==> {
            &&& range.0 <= range.1 <= s.len()
            &&& forall|i: int| range.0 <= i < range.1 ==> is_digit(#[trigger] s@[i])
        },
        part_of(s@, text@, base as int),
        text@.len() <= usize::MAX,
    ensures
        match number {
            Ok(number) => optional_number(
                match range {
                    Some(range) => Some(s@.subrange(range.0 as int, range.1 as int)),
                    None => None,
                },
            ) == Ok::<Option<u32>, ParseFailure>(number),
            Err(failure) => optional_number(
                match range {
                    Some(range) => Some(s@.subrange(range.0 as int, range.1 as int)),
                    None => None,
                },
            ) == Err::<Option<u32>, ParseFailure>(failure@),
        },
{
    match range {
        None => Ok(None),
        Some((from, to)) => match read_number(s, from, to) {
            Some(number) => Ok(Some(number)),
            None => Err(number_failure(s, from, to, text, base)),
        },
    }
}

/// Reads the version that `s` starts with.
fn read_version(s: &[char], text: &str, base: usize) -> (result: Result<
    Version,
    ParseVersionError,
>)
    requires
        part_of(s@, text@, base as int),
        text@.len() <= usize::MAX,
    ensures
        match result {
            Ok(version) => parsed_from_start(s@) == Ok::<VersionView, ParseFailure>(version@),
            Err(failure) => parsed_from_start(s@) == Err::<VersionView, ParseFailure>(failure@),
        },
{
    let (epoch_range, release) = find_release(s);
    if !(release < s.len() && digit(s[release])) {
        return Err(ParseVersionError::InvalidFormat);
    }
    let epoch = match read_optional(s, epoch_range, text, base) {
        Err(failure) => {
            return Err(failure);
        },
        Ok(epoch) => epoch,
    };
    let (segments, pre_release_start) = match read_release(s, release, text, base) {
        Err(failure) => {
            return Err(failure);
        },
        Ok(release) => release,
    };
    let (pre_release, post_start) = match read_pre_release(s, pre_release_start, text, base) {
        Err(failure) => {
            return Err(failure);
        },
        Ok(pre_release) => pre_release,
    };
    let post_range = find_post(s, post_start);
    let post_release = match read_optional(s, post_range, text, base) {
        Err(failure) => {
            return Err(failure);
        },
        Ok(post_release) => post_release,
    };
    let dev_start = match post_range {
        Some(range) => range.1,
        None => post_start,
    };
    let dev_range = find_dev(s, dev_start);
    let dev_release = match read_optional(s, dev_range, text, base) {
        Err(failure) => {
            return Err(failure);
        },
        Ok(dev_release) => dev_release,
    };
    let made = Version::new(epoch, segments, pre_release, post_release, dev_release);
    Ok(made.unwrap())
}

impl Version {
    /// Reads a version from `text`.
    ///
    /// The whitespace at both ends of the text is ignored. The version
    /// stands at the start of what is left; what follows its last token is
    /// ignored too. The result is `Err(InvalidFormat)` where no major
    /// version stands at its place, `Err(InvalidPreRelease)` where the
    /// letters after the release name no cycle, and `Err(ParseNumber)` with
    /// the digits of the first number beyond `u32::MAX`; the failure of the
    /// token that stands first in the text is the one returned.
    pub fn parse(text: &str) -> (result: Result<Version, ParseVersionError>)
        ensures
            match result {
                Ok(version) => parsed(text@) == Ok::<VersionView, ParseFailure>(version@),
                Err(failure) => parsed(text@) == Err::<VersionView, ParseFailure>(failure@),
            },
    {
        let chars = chars_of(text);
        let (start, end) = trim_bounds(chars.as_slice());
        let body = slice_subrange(chars.as_slice(), start, end);
        read_version(body, text, start)
    }
}

impl FromStr for Version {
    type Err = ParseVersionError;

    /// Reads a version from `text`, as [`Version::parse`] does.
    fn from_str(text: &str) -> (result: Result<Version, ParseVersionError>)
        ensures
            match result {
                Ok(version) => parsed(text@) == Ok::<VersionView, ParseFailure>(version@),
                Err(failure) => parsed(text@) == Err::<VersionView, ParseFailure>(failure@),
            },
    {
        Version::parse(text)
    }
}

impl PreReleaseCycle {
    /// Looks up the cycle that `label` names; `Err(InvalidPreRelease)` where
    /// it names none.
    pub fn parse(label: &str) -> (result: Result<PreReleaseCycle, ParseVersionError>)
        ensures
            result == match cycle_of(label@) {
                Some(cycle) => Ok::<PreReleaseCycle, ParseVersionError>(cycle),
                None => Err::<PreReleaseCycle, ParseVersionError>(
                    ParseVersionError::InvalidPreRelease,
                ),
            },
    {
        let chars = chars_of(label);
        proof {
            assert(chars@.subrange(0, chars@.len() as int) =~= label@);
        }
        match lookup_cycle(chars.as_slice(), 0, chars.len()) {
            Some(cycle) => Ok(cycle),
            None => Err(ParseVersionError::InvalidPreRelease),
        }
    }
}

impl FromStr for PreReleaseCycle {
    type Err = ParseVersionError;

    /// Looks up the cycle that `label` names, as [`PreReleaseCycle::parse`]
    /// does.
    fn from_str(label: &str) -> (result: Result<PreReleaseCycle, ParseVersionError>)
        ensures
            result == match cycle_of(label@) {
                Some(cycle) => Ok::<PreReleaseCycle, ParseVersionError>(cycle),
                None => Err::<PreReleaseCycle, ParseVersionError>(
                    ParseVersionError::InvalidPreRelease,
                ),
            },
    {
        PreReleaseCycle::parse(label)
    }
}

} // verus!
