use std::cmp::Ordering;

use pipfile_diff::semver::{PreReleaseCycle, Version};

fn parse(text: &str) -> Version {
    Version::parse(text).unwrap()
}

fn order(a: &str, b: &str) -> Ordering {
    parse(a).cmp(&parse(b))
}

const SAMPLES: [&str; 30] = [
    "0",
    "0.0",
    "1",
    "1.0",
    "1.0.0",
    "1.0.1",
    "1.1",
    "2",
    "10",
    "0!1",
    "0!2",
    "1!0",
    "1!1",
    "1a",
    "1a1",
    "1a2",
    "1b1",
    "1rc1",
    "1c1",
    "1.post1",
    "1.post2",
    "1a1.post1",
    "1.dev1",
    "1.dev2",
    "1a1.dev1",
    "1.post1.dev1",
    "1a1.post1.dev1",
    "4294967295",
    "1.4294967295",
    "4294967295!4294967295.4294967295rc4294967295.post4294967295.dev4294967295",
];

#[test]
fn every_version_ties_with_itself() {
    for text in SAMPLES {
        assert_eq!(order(text, text), Ordering::Equal, "{text}");
        assert_eq!(parse(text), parse(text), "{text}");
        assert_eq!(parse(text).clone(), parse(text), "{text}");
    }
}

#[test]
fn ties_are_between_the_same_versions_only() {
    for a in SAMPLES {
        for b in SAMPLES {
            let same = parse(a).segments() == parse(b).segments()
                && parse(a).epoch() == parse(b).epoch()
                && parse(a).pre_release() == parse(b).pre_release()
                && parse(a).post_release() == parse(b).post_release()
                && parse(a).dev_release() == parse(b).dev_release();
            assert_eq!(order(a, b) == Ordering::Equal, same, "{a} {b}");
            assert_eq!(parse(a) == parse(b), same, "{a} {b}");
        }
    }
    assert_eq!(order("1rc1", "1c1"), Ordering::Equal);
    assert_eq!(order("v1.0", " 1.0 "), Ordering::Equal);
    assert_eq!(order("1.post1", "1-r1"), Ordering::Equal);
}

#[test]
fn swapping_the_sides_mirrors_the_order() {
    for a in SAMPLES {
        for b in SAMPLES {
            assert_eq!(order(a, b), order(b, a).reverse(), "{a} {b}");
        }
    }
}

#[test]
fn order_is_transitive() {
    for a in SAMPLES {
        for b in SAMPLES {
            for c in SAMPLES {
                if order(a, b) == Ordering::Less && order(b, c) == Ordering::Less {
                    assert_eq!(order(a, c), Ordering::Less, "{a} {b} {c}");
                }
                if order(a, b) != Ordering::Greater && order(b, c) != Ordering::Greater {
                    assert_ne!(order(a, c), Ordering::Greater, "{a} {b} {c}");
                }
            }
        }
    }
}

#[test]
fn operators_follow_the_order() {
    for a in SAMPLES {
        for b in SAMPLES {
            let (left, right) = (parse(a), parse(b));
            let found = order(a, b);
            assert_eq!(left.partial_cmp(&right), Some(found), "{a} {b}");
            assert_eq!(left < right, found == Ordering::Less, "{a} {b}");
            assert_eq!(left <= right, found != Ordering::Greater, "{a} {b}");
            assert_eq!(left > right, found == Ordering::Greater, "{a} {b}");
            assert_eq!(left >= right, found != Ordering::Less, "{a} {b}");
            assert_eq!(left == right, found == Ordering::Equal, "{a} {b}");
        }
    }
}

#[test]
fn any_epoch_ranks_above_no_epoch() {
    assert_eq!(order("1!1.0", "2.0"), Ordering::Greater);
    assert_eq!(order("0!1", "1"), Ordering::Greater);
    assert_eq!(order("0!0", "4294967295.post1"), Ordering::Greater);
    assert_eq!(order("1", "0!0.dev1"), Ordering::Less);
    assert_eq!(order("2!1.0", "1!2.0"), Ordering::Greater);
}

#[test]
fn segments_are_not_padded() {
    assert_eq!(order("1", "1.0"), Ordering::Less);
    assert_eq!(order("1.0", "1.0.0"), Ordering::Less);
    assert_eq!(order("1.0.0", "1"), Ordering::Greater);
    assert_eq!(order("1.1", "1.0.9"), Ordering::Greater);
    assert_eq!(order("2", "1.9.9.9"), Ordering::Greater);
    assert_eq!(order("1.2.3", "1.2.4"), Ordering::Less);
    assert_eq!(order("1.10", "1.9"), Ordering::Greater);
}

#[test]
fn segments_decide_before_any_marker() {
    assert_eq!(order("1.1.dev1", "1.0.post9"), Ordering::Greater);
    assert_eq!(order("1.0a1", "1.post9"), Ordering::Greater);
}

#[test]
fn post_release_decides_before_pre_release() {
    assert_eq!(order("1.post1", "1"), Ordering::Greater);
    assert_eq!(order("1.post2", "1.post1"), Ordering::Greater);
    assert_eq!(order("1.post0", "1"), Ordering::Greater);
    assert_eq!(order("1a1.post1", "1"), Ordering::Greater);
    assert_eq!(order("1a1.post1", "1rc9"), Ordering::Greater);
    assert_eq!(order("1a1.post1", "1.post1"), Ordering::Less);
    assert_eq!(order("1.post1.dev1", "1.dev9"), Ordering::Greater);
}

#[test]
fn final_release_ranks_above_every_pre_release() {
    assert_eq!(order("1.0.0", "1.0.0a1"), Ordering::Greater);
    assert_eq!(order("1.0.0", "1.0.0rc4294967295"), Ordering::Greater);
    assert_eq!(order("1.0.0b1", "1.0.0a1"), Ordering::Greater);
    assert_eq!(order("1.0.0b1", "1.0.0a2"), Ordering::Greater);
    assert_eq!(order("1.0.0rc1", "1.0.0b1"), Ordering::Greater);
    assert_eq!(order("1.0.0rc2", "1.0.0rc1"), Ordering::Greater);
    assert_eq!(order("1.0.0a", "1.0.0a1"), Ordering::Less);
    assert_eq!(order("1.0.0a0", "1.0.0a"), Ordering::Equal);
}

#[test]
fn development_release_decides_last() {
    assert_eq!(order("1.0.0", "1.0.0.dev1"), Ordering::Greater);
    assert_eq!(order("1.0.0a1", "1.0.0a1.dev1"), Ordering::Greater);
    assert_eq!(order("1.0.0.dev1", "1.0.0a1.dev1"), Ordering::Greater);
    assert_eq!(order("1.0.0.dev1", "1.0.0a1"), Ordering::Greater);
    assert_eq!(order("1.0.0.dev2", "1.0.0.dev1"), Ordering::Greater);
    assert_eq!(order("1.0.0.dev0", "1.0.0"), Ordering::Less);
}

#[test]
fn cycles_stand_in_the_order_of_maturity() {
    assert!(PreReleaseCycle::Alpha < PreReleaseCycle::Beta);
    assert!(PreReleaseCycle::Beta < PreReleaseCycle::ReleaseCandidate);
    assert_eq!(
        PreReleaseCycle::Alpha.cmp(&PreReleaseCycle::Alpha),
        Ordering::Equal
    );
}

#[test]
fn versions_built_from_fields_are_ordered_like_parsed_ones() {
    let built = Version::new(Some(1), vec![2, 3], Some((PreReleaseCycle::Beta, 4)), None, Some(5))
        .unwrap();
    assert_eq!(built.cmp(&parse("1!2.3b4.dev5")), Ordering::Equal);
    assert_eq!(built.cmp(&parse("1!2.3b4")), Ordering::Less);
    assert_eq!(built.cmp(&parse("1!2.3b3")), Ordering::Greater);
    assert_eq!(built, parse("1!2.3b4.dev5"));
}
