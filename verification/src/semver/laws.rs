//! What holds of every text that is read and of every version that is
//! compared.

use std::cmp::Ordering;
use vstd::prelude::*;
use super::grammar::{
    dev_digits, digit_at, digits_end, has_major, is_digit, is_lowercase, is_whitespace,
    lemma_digits_end, lemma_letters_end, letters_end, marker_end, numbers_start, post_digits,
    pre_release_end, release_end, release_start, release_texts, segment_follows, text_of, tokens,
    trim_end, trim_start, trimmed, Tokens,
};
use super::number::number_of;
use super::order::{lemma_order_tie_is_identity, version_order};
use super::parse::{cycle_of, parsed, release_numbers};
use super::{ParseFailure, Version, VersionView};

verus! {

/// A text that has whitespace neither at its start nor at its end.
pub open spec fn is_trimmed(s: Seq<char>) -> bool {
    s.len() > 0 ==> !is_whitespace(s.first()) && !is_whitespace(s.last())
}

/// One digit or more, and nothing else.
pub open spec fn is_number(text: Seq<char>) -> bool {
    text.len() > 0 && forall|i: int| 0 <= i < text.len() ==> is_digit(#[trigger] text[i])
}

/// One lower-case letter or more, and nothing else.
pub open spec fn is_label(text: Seq<char>) -> bool {
    text.len() > 0 && forall|i: int| 0 <= i < text.len() ==> is_lowercase(#[trigger] text[i])
}

/// An optional token is absent or a number.
pub open spec fn is_optional_number(token: Option<Seq<char>>) -> bool {
    token matches Some(text) ==> is_number(text)
}

proof fn lemma_trim_start(s: Seq<char>)
    ensures
        trim_start(s).len() <= s.len(),
        trim_start(s) == s.skip(s.len() - trim_start(s).len()),
        trim_start(s).len() > 0 ==> !is_whitespace(trim_start(s).first()),
    decreases s.len(),
{
    if s.len() > 0 && is_whitespace(s.first()) {
        lemma_trim_start(s.drop_first());
        assert(s.drop_first().skip(s.len() - 1 - trim_start(s).len()) =~= s.skip(
            s.len() - trim_start(s).len(),
        ));
    } else {
        assert(s.skip(0) =~= s);
    }
}

proof fn lemma_trim_end(s: Seq<char>)
    ensures
        trim_end(s).len() <= s.len(),
        trim_end(s) == s.take(trim_end(s).len() as int),
        trim_end(s).len() > 0 ==> !is_whitespace(trim_end(s).last()),
    decreases s.len(),
{
    if s.len() > 0 && is_whitespace(s.last()) {
        lemma_trim_end(s.drop_last());
        assert(s.drop_last().take(trim_end(s).len() as int) =~= s.take(trim_end(s).len() as int));
    } else {
        assert(s.take(s.len() as int) =~= s);
    }
}

/// What is left of a text without the whitespace at its ends is a part of
/// the text, has no whitespace at its ends, and stays as it is when the
/// whitespace at its ends is taken away once more.
pub proof fn lemma_trimmed(text: Seq<char>)
    ensures
        is_trimmed(trimmed(text)),
        trimmed(trimmed(text)) == trimmed(text),
        exists|from: int, to: int|
            0 <= from <= to <= text.len() && trimmed(text) == #[trigger] text.subrange(from, to),
{
    let front = trim_start(text);
    let both = trimmed(text);
    lemma_trim_start(text);
    lemma_trim_end(front);
    let from = text.len() - front.len();
    assert(both =~= text.subrange(from, from + both.len()));
    if both.len() > 0 {
        assert(both.first() == front.first());
    }
    lemma_is_trimmed(both);
}

/// A text without whitespace at its ends stays as it is when the whitespace
/// at its ends is taken away.
pub proof fn lemma_is_trimmed(s: Seq<char>)
    requires
        is_trimmed(s),
    ensures
        trimmed(s) == s,
{
}

/// The whitespace at the ends of a text does not count: the text is read as
/// what is left of it without that whitespace.
pub proof fn lemma_parsed_ignores_whitespace(text: Seq<char>)
    ensures
        parsed(text) == parsed(trimmed(text)),
{
    lemma_trimmed(text);
}

proof fn lemma_release_shape(s: Seq<char>, from: int)
    requires
        digit_at(s, from),
    ensures
        from < release_end(s, from) <= s.len(),
        !digit_at(s, release_end(s, from)),
        release_texts(s, from).len() > 0,
        forall|i: int|
            0 <= i < release_texts(s, from).len() ==> is_number(
                #[trigger] release_texts(s, from)[i],
            ),
    decreases s.len() - from,
{
    let end = digits_end(s, from);
    lemma_digits_end(s, from);
    assert(digits_end(s, from) == digits_end(s, from + 1));
    lemma_digits_end(s, from + 1);
    let group = s.subrange(from, end);
    assert(is_number(group));
    if segment_follows(s, end) {
        lemma_release_shape(s, end + 1);
    }
}

/// The digit groups with a `.` between each two of them.
pub open spec fn dotted(texts: Seq<Seq<char>>) -> Seq<char>
    decreases texts.len(),
{
    if texts.len() == 0 {
        Seq::empty()
    } else if texts.len() == 1 {
        texts.first()
    } else {
        texts.first() + seq!['.'] + dotted(texts.drop_first())
    }
}

/// The release is written in the text as its digit groups with a `.`
/// between each two of them, from its start to its end, and nothing of it
/// is left out.
pub proof fn lemma_release_is_dotted(s: Seq<char>, from: int)
    requires
        digit_at(s, from),
    ensures
        dotted(release_texts(s, from)) == s.subrange(from, release_end(s, from)),
    decreases s.len() - from,
{
    let end = digits_end(s, from);
    lemma_digits_end(s, from);
    lemma_release_shape(s, from);
    let texts = release_texts(s, from);
    if segment_follows(s, end) {
        let rest = release_texts(s, end + 1);
        lemma_release_is_dotted(s, end + 1);
        lemma_release_shape(s, end + 1);
        assert(texts.first() == s.subrange(from, end));
        assert(texts.drop_first() =~= rest);
        assert(s.subrange(from, end) + seq!['.'] + s.subrange(end + 1, release_end(s, from))
            =~= s.subrange(from, release_end(s, from)));
    }
}

/// The tokens stand in the text one after the other, in the order of the
/// grammar, and none of them reaches beyond the end of the text.
pub proof fn lemma_tokens_in_order(s: Seq<char>)
    requires
        has_major(s),
    ensures
        ({
            let release = release_start(s);
            let pre_release = release_end(s, release);
            let post = pre_release_end(s, pre_release);
            let dev = marker_end(post, post_digits(s, post));
            let end = marker_end(dev, dev_digits(s, dev));
            0 <= numbers_start(s) <= release < pre_release <= post <= dev <= end <= s.len()
        }),
{
    let release = release_start(s);
    lemma_digits_end(s, numbers_start(s));
    lemma_release_shape(s, release);
    let pre_release = release_end(s, release);
    lemma_letters_end(s, pre_release);
    lemma_digits_end(s, letters_end(s, pre_release));
    let post = pre_release_end(s, pre_release);
    lemma_marker_shape(s, post, post_digits(s, post));
    let dev = marker_end(post, post_digits(s, post));
    lemma_marker_shape(s, dev, dev_digits(s, dev));
}

/// The tokens are what the grammar names them: the epoch, each release
/// segment and the numbers of the pre-release, the post-release and the
/// development release are digits, one at least; the label is lower-case
/// letters, one at least; there is a release segment; and only a pre-release
/// with a label has a number.
pub proof fn lemma_tokens_shape(s: Seq<char>)
    requires
        tokens(s) is Some,
    ensures
        is_optional_number(tokens(s)->Some_0.epoch),
        tokens(s)->Some_0.release.len() > 0,
        forall|i: int|
            0 <= i < tokens(s)->Some_0.release.len() ==> is_number(
                #[trigger] tokens(s)->Some_0.release[i],
            ),
        tokens(s)->Some_0.label matches Some(label) ==> is_label(label),
        is_optional_number(tokens(s)->Some_0.pre),
        tokens(s)->Some_0.pre is Some ==> tokens(s)->Some_0.label is Some,
        is_optional_number(tokens(s)->Some_0.post),
        is_optional_number(tokens(s)->Some_0.dev),
{
    let numbers = numbers_start(s);
    lemma_digits_end(s, numbers);
    let release = release_start(s);
    lemma_release_shape(s, release);
    let pre_release = release_end(s, release);
    lemma_letters_end(s, pre_release);
    let label_end = letters_end(s, pre_release);
    lemma_digits_end(s, label_end);
    let post = pre_release_end(s, pre_release);
    lemma_marker_shape(s, post, post_digits(s, post));
    let dev = marker_end(post, post_digits(s, post));
    lemma_marker_shape(s, dev, dev_digits(s, dev));
}

proof fn lemma_marker_shape(s: Seq<char>, at: int, digits: Option<(int, int)>)
    requires
        0 <= at <= s.len(),
        digits == post_digits(s, at) || digits == dev_digits(
            s,
            at,
        ),
    ensures
        is_optional_number(text_of(s, digits)),
        at <= marker_end(at, digits) <= s.len(),
{
    if digits is Some {
        let start = digits->Some_0.0;
        lemma_digits_end(s, start);
        assert(digit_at(s, start));
        assert(digits_end(s, start) == digits_end(s, start + 1));
        lemma_digits_end(s, start + 1);
    }
}

/// Every digit group of the release writes a number within `u32::MAX`.
pub open spec fn release_fits(texts: Seq<Seq<char>>) -> bool {
    forall|i: int| 0 <= i < texts.len() ==> number_of(#[trigger] texts[i]) is Some
}

/// An optional group of digits is absent or writes a number within
/// `u32::MAX`.
pub open spec fn fits(token: Option<Seq<char>>) -> bool {
    match token {
        Some(digits) => number_of(digits) is Some,
        None => true,
    }
}

/// Every token stands for something: each number is within `u32::MAX`, and
/// the label, if there is one, names a cycle.
pub open spec fn well_formed(found: Tokens) -> bool {
    &&& fits(found.epoch)
    &&& release_fits(found.release)
    &&& (found.label matches Some(label) ==> cycle_of(label) is Some)
    &&& fits(found.pre)
    &&& fits(found.post)
    &&& fits(found.dev)
}

proof fn lemma_release_numbers(texts: Seq<Seq<char>>)
    ensures
        release_numbers(texts) is Ok <==> release_fits(texts),
        release_numbers(texts) matches Ok(numbers) ==> {
            &&& numbers.len() == texts.len()
            &&& forall|i: int|
                0 <= i < texts.len() ==> number_of(texts[i]) == Some(#[trigger] numbers[i])
        },
        release_numbers(texts) matches Err(failure) ==> failure is ParseNumber,
    decreases texts.len(),
{
    if texts.len() > 0 {
        let rest = texts.drop_first();
        lemma_release_numbers(rest);
        if number_of(texts.first()) is Some && release_fits(rest) {
            assert forall|i: int| 0 <= i < texts.len() implies number_of(
                #[trigger] texts[i],
            ) is Some by {
                if i > 0 {
                    assert(number_of(rest[i - 1]) is Some);
                }
            }
        }
    }
}

/// A text is read as a version exactly when a major version stands at its
/// place, every number is within `u32::MAX` and the label after the
/// release, if there is one, names a cycle.
pub proof fn lemma_parsed_ok(text: Seq<char>)
    ensures
        parsed(text) is Ok <==> (tokens(trimmed(text)) matches Some(found) && well_formed(found)),
{
    if tokens(trimmed(text)) is Some {
        lemma_release_numbers(tokens(trimmed(text))->Some_0.release);
    }
}

/// A text fails with `InvalidFormat` exactly when no major version stands at
/// its place; no later token can cause that failure.
pub proof fn lemma_parsed_invalid_format(text: Seq<char>)
    ensures
        parsed(text) == Err::<VersionView, ParseFailure>(ParseFailure::InvalidFormat)
            <==> !has_major(trimmed(text)),
{
    if tokens(trimmed(text)) is Some {
        lemma_release_numbers(tokens(trimmed(text))->Some_0.release);
    }
}

/// A text that starts, after its whitespace, with neither a digit nor a `v`
/// fails with `InvalidFormat`; so does a text that holds whitespace only.
pub proof fn lemma_parsed_needs_leading_number(text: Seq<char>)
    requires
        trimmed(text).len() == 0 || !(is_digit(trimmed(text)[0]) || trimmed(text)[0] == 'v'),
    ensures
        parsed(text) == Err::<VersionView, ParseFailure>(ParseFailure::InvalidFormat),
{
    reveal_with_fuel(digits_end, 2);
}

/// A text fails with `InvalidPreRelease` exactly when a major version stands
/// at its place, the epoch and every release segment are within `u32::MAX`,
/// and the letters after the release name no cycle.
pub proof fn lemma_parsed_invalid_pre_release(text: Seq<char>)
    ensures
        parsed(text) == Err::<VersionView, ParseFailure>(ParseFailure::InvalidPreRelease) <==> (
        tokens(trimmed(text)) matches Some(found) && fits(found.epoch) && release_fits(
            found.release,
        ) && found.label is Some && cycle_of(found.label->Some_0) is None),
{
    if tokens(trimmed(text)) is Some {
        lemma_release_numbers(tokens(trimmed(text))->Some_0.release);
    }
}

/// Every version that is read has as many segments as the text has digit
/// groups in its release, one at least, and each segment is the number that
/// its group writes.
pub proof fn lemma_parsed_segments(text: Seq<char>)
    requires
        parsed(text) is Ok,
    ensures
        parsed(text)->Ok_0.segments.len() > 0,
        parsed(text)->Ok_0.segments.len() == tokens(trimmed(text))->Some_0.release.len(),
        forall|i: int|
            0 <= i < parsed(text)->Ok_0.segments.len() ==> number_of(
                tokens(trimmed(text))->Some_0.release[i],
            ) == Some(#[trigger] parsed(text)->Ok_0.segments[i]),
{
    let s = trimmed(text);
    lemma_release_numbers(tokens(s)->Some_0.release);
    assert(release_texts(s, release_start(s)).len() > 0);
}

/// Reading is a function of the text: whenever the same text is read as two
/// versions, they are the same version, and they tie in the order.
pub proof fn lemma_parse_is_deterministic(text: Seq<char>, first: Version, second: Version)
    requires
        parsed(text) == Ok::<VersionView, ParseFailure>(first@),
        parsed(text) == Ok::<VersionView, ParseFailure>(second@),
    ensures
        first@ == second@,
        version_order(first@, second@) == Ordering::Equal,
{
    lemma_order_tie_is_identity(first, second);
}

} // verus!
