//! The total order on versions.
//!
//! Two versions are compared field by field, and the first field that tells
//! them apart decides: epoch, release segments, post-release, pre-release,
//! development release. An epoch or a post-release that is absent ranks below
//! any that is present; a pre-release or a development release that is absent
//! ranks above any that is present.

use std::cmp::Ordering;
use vstd::prelude::*;
use super::prefix::{
    common_prefix, common_prefix_len, is_common_prefix_len, lemma_common_prefix_len,
    lemma_common_prefix_of_prefix,
};
use super::{PreReleaseCycle, Version, VersionView};

verus! {

/// How `a` stands to `b` among the numbers.
pub open spec fn number_order(a: u32, b: u32) -> Ordering {
    if a < b {
        Ordering::Less
    } else if a == b {
        Ordering::Equal
    } else {
        Ordering::Greater
    }
}

/// The ordering seen from the other side.
pub open spec fn mirrored(order: Ordering) -> Ordering {
    match order {
        Ordering::Less => Ordering::Greater,
        Ordering::Equal => Ordering::Equal,
        Ordering::Greater => Ordering::Less,
    }
}

/// `first`, unless it is a tie: `second` breaks it.
pub open spec fn tie_break(first: Ordering, second: Ordering) -> Ordering {
    match first {
        Ordering::Equal => second,
        _ => first,
    }
}

/// Order of two optional numbers where an absent one ranks below every
/// present one.
pub open spec fn absent_lowest(a: Option<u32>, b: Option<u32>) -> Ordering {
    match (a, b) {
        (None, None) => Ordering::Equal,
        (None, Some(_)) => Ordering::Less,
        (Some(_), None) => Ordering::Greater,
        (Some(x), Some(y)) => number_order(x, y),
    }
}

/// Order of two optional numbers where an absent one ranks above every
/// present one.
pub open spec fn absent_highest(a: Option<u32>, b: Option<u32>) -> Ordering {
    match (a, b) {
        (None, None) => Ordering::Equal,
        (None, Some(_)) => Ordering::Greater,
        (Some(_), None) => Ordering::Less,
        (Some(x), Some(y)) => number_order(x, y),
    }
}

/// Order of two cycles: `Alpha < Beta < ReleaseCandidate`.
pub open spec fn cycle_order(a: PreReleaseCycle, b: PreReleaseCycle) -> Ordering {
    if a.rank() < b.rank() {
        Ordering::Less
    } else if a.rank() == b.rank() {
        Ordering::Equal
    } else {
        Ordering::Greater
    }
}

/// Order of two optional pre-releases: a final release ranks above every
/// pre-release, and two pre-releases go by cycle, then by number.
pub open spec fn pre_release_order(
    a: Option<(PreReleaseCycle, u32)>,
    b: Option<(PreReleaseCycle, u32)>,
) -> Ordering {
    match (a, b) {
        (None, None) => Ordering::Equal,
        (None, Some(_)) => Ordering::Greater,
        (Some(_), None) => Ordering::Less,
        (Some(x), Some(y)) => tie_break(cycle_order(x.0, y.0), number_order(x.1, y.1)),
    }
}

/// Order of two segment sequences, taken as they are, without padding: the
/// first position where they differ decides, and where one is a prefix of
/// the other the shorter one is the lesser.
pub open spec fn segments_order(a: Seq<u32>, b: Seq<u32>) -> Ordering {
    let shared = common_prefix_len(a, b);
    if shared < a.len() && shared < b.len() {
        number_order(a[shared], b[shared])
    } else if a.len() < b.len() {
        Ordering::Less
    } else if a.len() == b.len() {
        Ordering::Equal
    } else {
        Ordering::Greater
    }
}

/// The order of two versions.
pub open spec fn version_order(a: VersionView, b: VersionView) -> Ordering {
    tie_break(
        absent_lowest(a.epoch, b.epoch),
        tie_break(
            segments_order(a.segments, b.segments),
            tie_break(
                absent_lowest(a.post_release, b.post_release),
                tie_break(
                    pre_release_order(a.pre_release, b.pre_release),
                    absent_highest(a.dev_release, b.dev_release),
                ),
            ),
        ),
    )
}

fn order_numbers(a: u32, b: u32) -> (order: Ordering)
    ensures
        order == number_order(a, b),
{
    if a < b {
        Ordering::Less
    } else if a == b {
        Ordering::Equal
    } else {
        Ordering::Greater
    }
}

fn order_absent_lowest(a: Option<u32>, b: Option<u32>) -> (order: Ordering)
    ensures
        order == absent_lowest(a, b),
{
    match (a, b) {
        (None, None) => Ordering::Equal,
        (None, Some(_)) => Ordering::Less,
        (Some(_), None) => Ordering::Greater,
        (Some(x), Some(y)) => order_numbers(x, y),
    }
}

fn order_absent_highest(a: Option<u32>, b: Option<u32>) -> (order: Ordering)
    ensures
        order == absent_highest(a, b),
{
    match (a, b) {
        (None, None) => Ordering::Equal,
        (None, Some(_)) => Ordering::Greater,
        (Some(_), None) => Ordering::Less,
        (Some(x), Some(y)) => order_numbers(x, y),
    }
}

fn cycle_rank(cycle: PreReleaseCycle) -> (rank: u32)
    ensures
        rank == cycle.rank(),
{
    match cycle {
        PreReleaseCycle::Alpha => 0,
        PreReleaseCycle::Beta => 1,
        PreReleaseCycle::ReleaseCandidate => 2,
    }
}

fn order_pre_releases(
    a: Option<(PreReleaseCycle, u32)>,
    b: Option<(PreReleaseCycle, u32)>,
) -> (order: Ordering)
    ensures
        order == pre_release_order(a, b),
{
    match (a, b) {
        (None, None) => Ordering::Equal,
        (None, Some(_)) => Ordering::Greater,
        (Some(_), None) => Ordering::Less,
        (Some(x), Some(y)) => {
            match order_numbers(cycle_rank(x.0), cycle_rank(y.0)) {
                Ordering::Equal => order_numbers(x.1, y.1),
                decided => decided,
            }
        },
    }
}

fn order_segments(a: &Vec<u32>, b: &Vec<u32>) -> (order: Ordering)
    ensures
        order == segments_order(a@, b@),
{
    let shared = common_prefix(a, b);
    if shared < a.len() && shared < b.len() {
        order_numbers(a[shared], b[shared])
    } else if a.len() < b.len() {
        Ordering::Less
    } else if a.len() == b.len() {
        Ordering::Equal
    } else {
        Ordering::Greater
    }
}

impl Version {
    /// Ranks `self` against `other`.
    pub fn cmp(&self, other: &Version) -> (order: Ordering)
        ensures
            order == version_order(self@, other@),
    {
        match order_absent_lowest(self.epoch(), other.epoch()) {
            Ordering::Equal => {},
            decided => {
                return decided;
            },
        }
        match order_segments(self.segments(), other.segments()) {
            Ordering::Equal => {},
            decided => {
                return decided;
            },
        }
        match order_absent_lowest(self.post_release(), other.post_release()) {
            Ordering::Equal => {},
            decided => {
                return decided;
            },
        }
        match order_pre_releases(self.pre_release(), other.pre_release()) {
            Ordering::Equal => {},
            decided => {
                return decided;
            },
        }
        order_absent_highest(self.dev_release(), other.dev_release())
    }
}

impl PartialOrd for PreReleaseCycle {
    fn partial_cmp(&self, other: &PreReleaseCycle) -> (order: Option<Ordering>) {
        Some(order_numbers(cycle_rank(*self), cycle_rank(*other)))
    }
}

impl vstd::std_specs::cmp::PartialOrdSpecImpl for PreReleaseCycle {
    open spec fn obeys_partial_cmp_spec() -> bool {
        true
    }

    open spec fn partial_cmp_spec(&self, other: &PreReleaseCycle) -> Option<Ordering> {
        Some(cycle_order(*self, *other))
    }
}

impl PartialEq for Version {
    fn eq(&self, other: &Version) -> (equal: bool) {
        proof {
            lemma_order_tie_is_identity(*self, *other);
        }
        match self.cmp(other) {
            Ordering::Equal => true,
            _ => false,
        }
    }
}

impl vstd::std_specs::cmp::PartialEqSpecImpl for Version {
    open spec fn obeys_eq_spec() -> bool {
        true
    }

    open spec fn eq_spec(&self, other: &Version) -> bool {
        self@ == other@
    }
}

impl PartialOrd for Version {
    fn partial_cmp(&self, other: &Version) -> (order: Option<Ordering>) {
        Some(self.cmp(other))
    }
}

impl vstd::std_specs::cmp::PartialOrdSpecImpl for Version {
    open spec fn obeys_partial_cmp_spec() -> bool {
        true
    }

    open spec fn partial_cmp_spec(&self, other: &Version) -> Option<Ordering> {
        Some(version_order(self@, other@))
    }
}

proof fn lemma_segments_tie(a: Seq<u32>, b: Seq<u32>)
    ensures
        segments_order(a, b) == Ordering::Equal <==> a == b,
{
    lemma_common_prefix_len(a, b);
    if segments_order(a, b) == Ordering::Equal {
        assert(a =~= b);
    }
}

proof fn lemma_segments_mirrored(a: Seq<u32>, b: Seq<u32>)
    ensures
        segments_order(b, a) == mirrored(segments_order(a, b)),
{
    lemma_common_prefix_len(a, b);
    lemma_common_prefix_len(b, a);
    assert(is_common_prefix_len(b, a, common_prefix_len(a, b)));
}

proof fn lemma_segments_transitive(a: Seq<u32>, b: Seq<u32>, c: Seq<u32>)
    requires
        segments_order(a, b) == Ordering::Less,
        segments_order(b, c) == Ordering::Less,
    ensures
        segments_order(a, c) == Ordering::Less,
{
    lemma_common_prefix_len(a, b);
    lemma_common_prefix_len(b, c);
    lemma_common_prefix_len(a, c);
    let left = common_prefix_len(a, b);
    let right = common_prefix_len(b, c);
    let shared = if left <= right {
        left
    } else {
        right
    };
    assert(is_common_prefix_len(a, c, shared));
}

/// Every version ties with itself.
pub proof fn lemma_order_reflexive(a: Version)
    ensures
        version_order(a@, a@) == Ordering::Equal,
{
    lemma_segments_tie(a@.segments, a@.segments);
}

/// Two versions tie exactly when they are the same version: the order tells
/// any two different versions apart.
pub proof fn lemma_order_tie_is_identity(a: Version, b: Version)
    ensures
        version_order(a@, b@) == Ordering::Equal <==> a@ == b@,
{
    lemma_segments_tie(a@.segments, b@.segments);
}

/// Swapping the two sides of a comparison mirrors its result: `a` is below
/// `b` exactly when `b` is above `a`, and a tie is a tie from both sides.
pub proof fn lemma_order_mirrored(a: Version, b: Version)
    ensures
        version_order(b@, a@) == mirrored(version_order(a@, b@)),
{
    lemma_segments_mirrored(a@.segments, b@.segments);
}

/// Of any two versions exactly one holds: the first is below the second,
/// they are the same, or the second is below the first.
pub proof fn lemma_order_trichotomy(a: Version, b: Version)
    ensures
        version_order(a@, b@) == Ordering::Less || a@ == b@ || version_order(b@, a@)
            == Ordering::Less,
        !(version_order(a@, b@) == Ordering::Less && a@ == b@),
        !(version_order(b@, a@) == Ordering::Less && a@ == b@),
        !(version_order(a@, b@) == Ordering::Less && version_order(b@, a@) == Ordering::Less),
{
    lemma_order_tie_is_identity(a, b);
    lemma_order_tie_is_identity(b, a);
    lemma_order_mirrored(a, b);
}

/// If `a` is below `b` and `b` is below `c`, then `a` is below `c`.
pub proof fn lemma_order_transitive(a: Version, b: Version, c: Version)
    requires
        version_order(a@, b@) == Ordering::Less,
        version_order(b@, c@) == Ordering::Less,
    ensures
        version_order(a@, c@) == Ordering::Less,
{
    lemma_segments_tie(a@.segments, b@.segments);
    lemma_segments_tie(b@.segments, c@.segments);
    lemma_segments_tie(a@.segments, c@.segments);
    if segments_order(a@.segments, b@.segments) == Ordering::Less && segments_order(
        b@.segments,
        c@.segments,
    ) == Ordering::Less {
        lemma_segments_transitive(a@.segments, b@.segments, c@.segments);
    }
}

/// A version with an epoch ranks above every version without one, whatever
/// else they hold.
pub proof fn lemma_epoch_outranks_none(a: Version, b: Version)
    requires
        a@.epoch is Some,
        b@.epoch is None,
    ensures
        version_order(a@, b@) == Ordering::Greater,
{
}

/// Of two versions with the same epoch, one whose segments start with all
/// the segments of the other and go on ranks above it: segments are not
/// padded.
pub proof fn lemma_longer_release_outranks_its_prefix(a: Version, b: Version)
    requires
        a@.epoch == b@.epoch,
        b@.segments.len() < a@.segments.len(),
        forall|i: int| 0 <= i < b@.segments.len() ==> a@.segments[i] == b@.segments[i],
    ensures
        version_order(a@, b@) == Ordering::Greater,
{
    lemma_common_prefix_of_prefix(a@.segments, b@.segments);
}

/// Of two versions with the same epoch and the same segments, one with a
/// post-release ranks above one without.
pub proof fn lemma_post_release_outranks_none(a: Version, b: Version)
    requires
        a@.epoch == b@.epoch,
        a@.segments == b@.segments,
        a@.post_release is Some,
        b@.post_release is None,
    ensures
        version_order(a@, b@) == Ordering::Greater,
{
    lemma_segments_tie(a@.segments, b@.segments);
}

/// Of two versions with the same epoch, the same segments and the same
/// post-release, a final release ranks above every pre-release.
pub proof fn lemma_final_outranks_pre_release(a: Version, b: Version)
    requires
        a@.epoch == b@.epoch,
        a@.segments == b@.segments,
        a@.post_release == b@.post_release,
        a@.pre_release is None,
        b@.pre_release is Some,
    ensures
        version_order(a@, b@) == Ordering::Greater,
{
    lemma_segments_tie(a@.segments, b@.segments);
}

/// Of two versions that differ in their development release only, one
/// without a development release ranks above one with.
pub proof fn lemma_release_outranks_development(a: Version, b: Version)
    requires
        a@.epoch == b@.epoch,
        a@.segments == b@.segments,
        a@.post_release == b@.post_release,
        a@.pre_release == b@.pre_release,
        a@.dev_release is None,
        b@.dev_release is Some,
    ensures
        version_order(a@, b@) == Ordering::Greater,
{
    lemma_segments_tie(a@.segments, b@.segments);
}

} // verus!
