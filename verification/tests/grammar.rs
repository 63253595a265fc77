use std::str::FromStr;

use pipfile_diff::semver::{ParseVersionError, PreReleaseCycle, Version};
use regex::{Captures, Regex};

fn version(
    epoch: Option<u32>,
    segments: Vec<u32>,
    pre_release: Option<(PreReleaseCycle, u32)>,
    post_release: Option<u32>,
    dev_release: Option<u32>,
) -> Version {
    Version::new(epoch, segments, pre_release, post_release, dev_release).unwrap()
}

fn release(segments: Vec<u32>) -> Version {
    version(None, segments, None, None, None)
}

fn too_large(digits: &str) -> Result<Version, ParseVersionError> {
    Err(ParseVersionError::ParseNumber(digits.to_owned()))
}

#[test]
fn bare_major_version() {
    let parsed = Version::parse("1").unwrap();
    assert_eq!(parsed.epoch(), None);
    assert_eq!(parsed.segments(), &vec![1]);
    assert_eq!(parsed.major(), 1);
    assert_eq!(parsed.pre_release(), None);
    assert_eq!(parsed.post_release(), None);
    assert_eq!(parsed.dev_release(), None);
}

#[test]
fn whitespace_at_both_ends_is_ignored() {
    assert_eq!(Version::parse("  1.2 \n"), Ok(release(vec![1, 2])));
    assert_eq!(Version::parse("\t1.2"), Ok(release(vec![1, 2])));
    assert_eq!(Version::parse("\u{a0}1.2\u{3000}"), Ok(release(vec![1, 2])));
    assert_eq!(Version::parse("1.2\u{2003}\u{85}"), Ok(release(vec![1, 2])));
}

#[test]
fn whitespace_is_what_unicode_calls_white_space() {
    let mut code: u32 = 0;
    while code <= 0x10ffff {
        if let Some(c) = char::from_u32(code) {
            let text = format!("{c}1{c}");
            let expected = c.is_whitespace() || c.is_ascii_digit();
            assert_eq!(Version::parse(&text).is_ok(), expected, "U+{code:04X}");
        }
        code += if code < 0x4000 { 1 } else { 13 };
    }
}

#[test]
fn whitespace_only_is_no_version() {
    assert_eq!(Version::parse(""), Err(ParseVersionError::InvalidFormat));
    assert_eq!(Version::parse("   "), Err(ParseVersionError::InvalidFormat));
}

#[test]
fn leading_v_is_skipped_once() {
    assert_eq!(Version::parse("v1.2"), Ok(release(vec![1, 2])));
    assert_eq!(Version::parse("vv1.2"), Err(ParseVersionError::InvalidFormat));
    assert_eq!(Version::parse("v"), Err(ParseVersionError::InvalidFormat));
    assert_eq!(Version::parse("V1"), Err(ParseVersionError::InvalidFormat));
}

#[test]
fn text_has_to_start_with_the_version() {
    assert_eq!(Version::parse("a"), Err(ParseVersionError::InvalidFormat));
    assert_eq!(Version::parse("a1"), Err(ParseVersionError::InvalidFormat));
    assert_eq!(Version::parse("==1.0"), Err(ParseVersionError::InvalidFormat));
    assert_eq!(Version::parse(".1"), Err(ParseVersionError::InvalidFormat));
    assert_eq!(Version::parse("!1"), Err(ParseVersionError::InvalidFormat));
}

#[test]
fn what_follows_the_version_is_ignored() {
    assert_eq!(Version::parse("1.2 and more"), Ok(release(vec![1, 2])));
    assert_eq!(Version::parse("1.2."), Ok(release(vec![1, 2])));
    assert_eq!(Version::parse("1.2..3"), Ok(release(vec![1, 2])));
    assert_eq!(Version::parse("1.2+local"), Ok(release(vec![1, 2])));
    assert_eq!(Version::parse("1.2.post"), Ok(release(vec![1, 2])));
    assert_eq!(Version::parse("1.2-dev"), Ok(release(vec![1, 2])));
    assert_eq!(Version::parse("1.2.dev-3"), Ok(release(vec![1, 2])));
}

#[test]
fn epoch_needs_a_major_version_after_it() {
    assert_eq!(
        Version::parse("3!1.0"),
        Ok(version(Some(3), vec![1, 0], None, None, None))
    );
    assert_eq!(
        Version::parse("0!1"),
        Ok(version(Some(0), vec![1], None, None, None))
    );
    assert_eq!(Version::parse("3!"), Ok(release(vec![3])));
    assert_eq!(Version::parse("3!a"), Ok(release(vec![3])));
    assert_eq!(Version::parse("3!!1"), Ok(release(vec![3])));
    assert_eq!(Version::parse("1!2!3"), Ok(version(Some(1), vec![2], None, None, None)));
}

#[test]
fn leading_zeros_do_not_count() {
    assert_eq!(Version::parse("007.010"), Ok(release(vec![7, 10])));
    assert_eq!(
        Version::parse("0000000000000000000000000000000000000001"),
        Ok(release(vec![1]))
    );
}

#[test]
fn numbers_end_at_u32_max() {
    assert_eq!(Version::parse("4294967295"), Ok(release(vec![u32::MAX])));
    assert_eq!(Version::parse("4294967296"), too_large("4294967296"));
    assert_eq!(Version::parse("04294967296"), too_large("04294967296"));
    assert_eq!(
        Version::parse("99999999999999999999999999"),
        too_large("99999999999999999999999999")
    );
}

#[test]
fn each_number_can_be_too_large() {
    assert_eq!(Version::parse("4294967296!1"), too_large("4294967296"));
    assert_eq!(Version::parse("1.4294967297"), too_large("4294967297"));
    assert_eq!(Version::parse("1.2.3.4294967298"), too_large("4294967298"));
    assert_eq!(Version::parse("1a4294967299"), too_large("4294967299"));
    assert_eq!(Version::parse("1.post4294967300"), too_large("4294967300"));
    assert_eq!(Version::parse("1.dev4294967301"), too_large("4294967301"));
}

#[test]
fn the_failure_that_stands_first_is_returned() {
    assert_eq!(
        Version::parse("4294967296!4294967297"),
        too_large("4294967296")
    );
    assert_eq!(Version::parse("4294967296x1"), too_large("4294967296"));
    assert_eq!(
        Version::parse("1.4294967296.4294967297"),
        too_large("4294967296")
    );
    assert_eq!(
        Version::parse("1x4294967296"),
        Err(ParseVersionError::InvalidPreRelease)
    );
    assert_eq!(
        Version::parse("1a4294967296.post4294967297"),
        too_large("4294967296")
    );
    assert_eq!(
        Version::parse("1.post4294967296.dev4294967297"),
        too_large("4294967296")
    );
    assert_eq!(
        Version::parse(" \t4294967296 "),
        too_large("4294967296")
    );
}

#[test]
fn cycle_labels_and_their_synonyms() {
    let cycle = |text: &str| Version::parse(text).unwrap().pre_release();
    assert_eq!(cycle("1a2"), Some((PreReleaseCycle::Alpha, 2)));
    assert_eq!(cycle("1alpha2"), Some((PreReleaseCycle::Alpha, 2)));
    assert_eq!(cycle("1b2"), Some((PreReleaseCycle::Beta, 2)));
    assert_eq!(cycle("1beta2"), Some((PreReleaseCycle::Beta, 2)));
    assert_eq!(cycle("1rc2"), Some((PreReleaseCycle::ReleaseCandidate, 2)));
    assert_eq!(cycle("1c2"), Some((PreReleaseCycle::ReleaseCandidate, 2)));
    assert_eq!(cycle("1pre2"), Some((PreReleaseCycle::ReleaseCandidate, 2)));
    assert_eq!(cycle("1preview2"), Some((PreReleaseCycle::ReleaseCandidate, 2)));
    assert_eq!(cycle("1"), None);
}

#[test]
fn cycle_lookup_by_label() {
    assert_eq!(PreReleaseCycle::parse("a"), Ok(PreReleaseCycle::Alpha));
    assert_eq!(PreReleaseCycle::parse("alpha"), Ok(PreReleaseCycle::Alpha));
    assert_eq!(PreReleaseCycle::parse("b"), Ok(PreReleaseCycle::Beta));
    assert_eq!(PreReleaseCycle::parse("beta"), Ok(PreReleaseCycle::Beta));
    assert_eq!(PreReleaseCycle::parse("rc"), Ok(PreReleaseCycle::ReleaseCandidate));
    assert_eq!(PreReleaseCycle::parse("c"), Ok(PreReleaseCycle::ReleaseCandidate));
    assert_eq!(PreReleaseCycle::parse("pre"), Ok(PreReleaseCycle::ReleaseCandidate));
    assert_eq!(
        PreReleaseCycle::parse("preview"),
        Ok(PreReleaseCycle::ReleaseCandidate)
    );
    assert_eq!(
        "beta".parse::<PreReleaseCycle>(),
        Ok(PreReleaseCycle::Beta)
    );
    for label in ["", "d", "A", "Alpha", "alph", "alphaa", "r", "post", "dev", " a", "a "] {
        assert_eq!(
            PreReleaseCycle::parse(label),
            Err(ParseVersionError::InvalidPreRelease),
            "{label:?}"
        );
    }
}

#[test]
fn unknown_label_is_an_invalid_pre_release() {
    assert_eq!(
        Version::parse("1.0d3"),
        Err(ParseVersionError::InvalidPreRelease)
    );
    assert_eq!(
        Version::parse("1.0final"),
        Err(ParseVersionError::InvalidPreRelease)
    );
    assert_eq!(
        Version::parse("1.0post1"),
        Err(ParseVersionError::InvalidPreRelease)
    );
    assert_eq!(
        Version::parse("1.0dev1"),
        Err(ParseVersionError::InvalidPreRelease)
    );
    assert_eq!(
        Version::parse("1.0r1"),
        Err(ParseVersionError::InvalidPreRelease)
    );
    assert_eq!(
        Version::parse("1.0alphabeta"),
        Err(ParseVersionError::InvalidPreRelease)
    );
}

#[test]
fn label_without_digits_has_number_zero() {
    assert_eq!(
        Version::parse("1.0a"),
        Ok(version(None, vec![1, 0], Some((PreReleaseCycle::Alpha, 0)), None, None))
    );
    assert_eq!(
        Version::parse("1.0rc.post2"),
        Ok(version(
            None,
            vec![1, 0],
            Some((PreReleaseCycle::ReleaseCandidate, 0)),
            Some(2),
            None
        ))
    );
}

#[test]
fn post_release_keywords_and_separators() {
    let post = |text: &str| Version::parse(text).unwrap().post_release();
    assert_eq!(post("1.post2"), Some(2));
    assert_eq!(post("1-post2"), Some(2));
    assert_eq!(post("1_post2"), Some(2));
    assert_eq!(post("1.r3"), Some(3));
    assert_eq!(post("1-rev4"), Some(4));
    assert_eq!(post("1a1post5"), Some(5));
    assert_eq!(post("1a1r6"), Some(6));
    assert_eq!(post("1a1rev7"), Some(7));
    assert_eq!(post("1.post"), None);
    assert_eq!(post("1..post2"), None);
    assert_eq!(post("1.pos2"), None);
    assert_eq!(post("1.re2"), None);
    assert_eq!(post("1+post2"), None);
}

#[test]
fn dev_release_marker() {
    let dev = |text: &str| Version::parse(text).unwrap().dev_release();
    assert_eq!(dev("1.dev2"), Some(2));
    assert_eq!(dev("1-dev2"), Some(2));
    assert_eq!(dev("1_dev2"), Some(2));
    assert_eq!(dev("1a1dev3"), Some(3));
    assert_eq!(dev("1.post1dev4"), Some(4));
    assert_eq!(dev("1.post1.dev5"), Some(5));
    assert_eq!(dev("1.dev"), None);
    assert_eq!(dev("1.dev2.post3"), Some(2));
    assert_eq!(Version::parse("1.dev2.post3").unwrap().post_release(), None);
}

#[test]
fn every_token_at_once() {
    assert_eq!(
        Version::parse("v1!2.3.4.9rc1.post5.dev6"),
        Ok(version(
            Some(1),
            vec![2, 3, 4, 9],
            Some((PreReleaseCycle::ReleaseCandidate, 1)),
            Some(5),
            Some(6)
        ))
    );
    assert_eq!(
        Version::parse("10!20alpha30_rev40-dev50"),
        Ok(version(
            Some(10),
            vec![20],
            Some((PreReleaseCycle::Alpha, 30)),
            Some(40),
            Some(50)
        ))
    );
}

#[test]
fn parsing_twice_gives_the_same_version() {
    for text in ["1.0.0", "1!2.3.4.9rc1.post5.dev6", " v7.8b ", "1.0d3", "a", "4294967296"] {
        assert_eq!(Version::parse(text), Version::parse(text));
        assert_eq!(text.parse::<Version>(), Version::parse(text));
    }
}

fn pattern() -> Regex {
    let parts = [
        r"^v?",
        r"(?:(?P<epoch>[0-9]+)!)?",
        r"(?P<major>[0-9]+)(?P<segments>(?:\.[0-9]+)*)",
        r"(?:(?P<label>[a-z]+)(?P<pre>[0-9]+)?)?",
        r"(?:(?:\.|-|_)?(?:post|r|rev)(?P<post>[0-9]+))?",
        r"(?:(?:\.|-|_)?dev(?P<dev>[0-9]+))?",
    ];
    Regex::new(&parts.concat()).unwrap()
}

fn number(digits: &str) -> Result<u32, ParseVersionError> {
    digits
        .parse::<u32>()
        .map_err(|_| ParseVersionError::ParseNumber(digits.to_owned()))
}

fn group(found: &Captures, name: &str) -> Result<Option<u32>, ParseVersionError> {
    match found.name(name) {
        Some(digits) => Ok(Some(number(digits.as_str())?)),
        None => Ok(None),
    }
}

fn by_pattern(pattern: &Regex, text: &str) -> Result<Version, ParseVersionError> {
    let found = match pattern.captures(text.trim()) {
        Some(found) => found,
        None => return Err(ParseVersionError::InvalidFormat),
    };
    let epoch = group(&found, "epoch")?;
    let mut segments = vec![number(&found["major"])?];
    for digits in found["segments"].split('.').skip(1) {
        segments.push(number(digits)?);
    }
    let pre_release = match found.name("label") {
        Some(label) => {
            let cycle = PreReleaseCycle::from_str(label.as_str())?;
            Some((cycle, group(&found, "pre")?.unwrap_or(0)))
        }
        None => None,
    };
    let post_release = group(&found, "post")?;
    let dev_release = group(&found, "dev")?;
    Ok(version(epoch, segments, pre_release, post_release, dev_release))
}

const PIECES: [&str; 40] = [
    "v", "0", "1", "7", "42", "007", "4294967295", "4294967296", "!", ".", "-", "_", "a", "b",
    "c", "rc", "alpha", "beta", "pre", "preview", "post", "r", "rev", "dev", "d", "e", "x", "po",
    "re", "de", " ", "\t", "\n", "\u{a0}", "\u{200b}", "+", "A", "1.2", ".post3", ".dev4",
];

#[test]
fn scanner_agrees_with_the_pattern_on_generated_texts() {
    let pattern = pattern();
    let mut state: u64 = 0x2545_f491_4f6c_dd1d;
    let mut step = || {
        state ^= state << 13;
        state ^= state >> 7;
        state ^= state << 17;
        state
    };
    for _ in 0..60_000 {
        let pieces = step() % 9;
        let mut text = String::new();
        for _ in 0..pieces {
            text.push_str(PIECES[(step() % (PIECES.len() as u64)) as usize]);
        }
        assert_eq!(Version::parse(&text), by_pattern(&pattern, &text), "{text:?}");
    }
}

#[test]
fn scanner_agrees_with_the_pattern_on_short_texts() {
    let pattern = pattern();
    let letters = ['1', '0', 'v', '!', '.', '-', 'a', 'r', 'e', 'p', 'o', 's', 't', 'd', ' '];
    let mut text = String::new();
    let mut indices = vec![0usize; 0];
    loop {
        text.clear();
        for index in indices.iter() {
            text.push(letters[*index]);
        }
        assert_eq!(Version::parse(&text), by_pattern(&pattern, &text), "{text:?}");
        let mut place = 0;
        while place < indices.len() && indices[place] + 1 == letters.len() {
            indices[place] = 0;
            place += 1;
        }
        if place == indices.len() {
            if indices.len() == 4 {
                break;
            }
            indices.push(0);
        } else {
            indices[place] += 1;
        }
    }
}

#[test]
fn scanner_agrees_with_the_pattern_on_texts_built_from_tokens() {
    let pattern = pattern();
    let pieces = [
        "1", "23", ".", "-", "_", "!", "v", "a", "rc", "post", "r", "rev", "dev", "x",
    ];
    let mut text = String::new();
    let mut indices = vec![0usize; 0];
    loop {
        text.clear();
        for index in indices.iter() {
            text.push_str(pieces[*index]);
        }
        assert_eq!(Version::parse(&text), by_pattern(&pattern, &text), "{text:?}");
        let with_major = format!("1{text}");
        assert_eq!(
            Version::parse(&with_major),
            by_pattern(&pattern, &with_major),
            "{with_major:?}"
        );
        let mut place = 0;
        while place < indices.len() && indices[place] + 1 == pieces.len() {
            indices[place] = 0;
            place += 1;
        }
        if place == indices.len() {
            if indices.len() == 4 {
                break;
            }
            indices.push(0);
        } else {
            indices[place] += 1;
        }
    }
}
