//! Version identifiers: their structure, how they are read from text and how
//! two of them are ranked.
//!
//! A [`Version`] is built once, by [`Version::parse`] or [`Version::new`], and
//! never changes afterwards. Every contract speaks about its mathematical
//! image, a [`VersionView`].

use vstd::prelude::*;

pub mod grammar;
pub mod laws;
pub mod number;
pub mod order;
pub mod parse;
pub mod prefix;
mod scan;

verus! {

/// The maturity stage that a pre-release belongs to, the earliest stage
/// first.
#[derive(Clone, Copy, Debug, PartialEq, Eq, Ord, Structural)]
pub enum PreReleaseCycle {
    Alpha,
    Beta,
    ReleaseCandidate,
}

impl PreReleaseCycle {
    /// The position of the stage in the order `Alpha < Beta < ReleaseCandidate`.
    pub open spec fn rank(self) -> nat {
        match self {
            PreReleaseCycle::Alpha => 0,
            PreReleaseCycle::Beta => 1,
            PreReleaseCycle::ReleaseCandidate => 2,
        }
    }
}

/// Why a text could not be read as a version.
#[derive(Debug, PartialEq, Eq)]
pub enum ParseVersionError {
    /// The text holds no major version where one is expected.
    InvalidFormat,
    /// A group of digits names a number beyond `u32::MAX`; the digits are kept.
    ParseNumber(String),
    /// The letters after the release segments are not a known cycle label.
    InvalidPreRelease,
}

/// The mathematical image of a [`ParseVersionError`].
pub enum ParseFailure {
    InvalidFormat,
    ParseNumber(Seq<char>),
    InvalidPreRelease,
}

impl View for ParseVersionError {
    type V = ParseFailure;

    open spec fn view(&self) -> ParseFailure {
        match self {
            ParseVersionError::InvalidFormat => ParseFailure::InvalidFormat,
            ParseVersionError::ParseNumber(digits) => ParseFailure::ParseNumber(digits@),
            ParseVersionError::InvalidPreRelease => ParseFailure::InvalidPreRelease,
        }
    }
}

/// The mathematical image of a [`Version`]: its fields, with the segments as
/// a sequence.
#[verifier::ext_equal]
pub struct VersionView {
    pub epoch: Option<u32>,
    pub segments: Seq<u32>,
    pub pre_release: Option<(PreReleaseCycle, u32)>,
    pub post_release: Option<u32>,
    pub dev_release: Option<u32>,
}

/// A version identifier: an optional epoch, one or more release segments and
/// optional pre-release, post-release and development markers.
#[derive(Debug, Eq)]
pub struct Version {
    epoch: Option<u32>,
    segments: Vec<u32>,
    pre_release: Option<(PreReleaseCycle, u32)>,
    post_release: Option<u32>,
    dev_release: Option<u32>,
}

impl View for Version {
    type V = VersionView;

    closed spec fn view(&self) -> VersionView {
        VersionView {
            epoch: self.epoch,
            segments: self.segments@,
            pre_release: self.pre_release,
            post_release: self.post_release,
            dev_release: self.dev_release,
        }
    }
}

impl Clone for Version {
    fn clone(&self) -> (copy: Version)
        ensures
            copy@ == self@,
    {
        proof {
            use_type_invariant(self);
        }
        Version {
            epoch: self.epoch,
            segments: self.segments.clone(),
            pre_release: self.pre_release,
            post_release: self.post_release,
            dev_release: self.dev_release,
        }
    }
}

impl Version {
    /// Every version has a major segment.
    #[verifier::type_invariant]
    spec fn has_major(&self) -> bool {
        self.segments@.len() > 0
    }

    /// Builds a version from its fields. There is no version without
    /// segments, so an empty `segments` gives `None`.
    pub fn new(
        epoch: Option<u32>,
        segments: Vec<u32>,
        pre_release: Option<(PreReleaseCycle, u32)>,
        post_release: Option<u32>,
        dev_release: Option<u32>,
    ) -> (made: Option<Version>)
        ensures
            made is Some <==> segments@.len() > 0,
            made is Some ==> made.unwrap()@ == (VersionView {
                epoch,
                segments: segments@,
                pre_release,
                post_release,
                dev_release,
            }),
    {
        if segments.len() == 0 {
            None
        } else {
            Some(Version { epoch, segments, pre_release, post_release, dev_release })
        }
    }

    /// The epoch, if the text named one.
    pub fn epoch(&self) -> (epoch: Option<u32>)
        ensures
            epoch == self@.epoch,
    {
        self.epoch
    }

    /// The release segments, the major version first.
    pub fn segments(&self) -> (segments: &Vec<u32>)
        ensures
            segments@ == self@.segments,
            segments@.len() > 0,
    {
        proof {
            use_type_invariant(self);
        }
        &self.segments
    }

    /// The major version: the first release segment.
    pub fn major(&self) -> (major: u32)
        ensures
            self@.segments.len() > 0,
            major == self@.segments[0],
    {
        proof {
            use_type_invariant(self);
        }
        self.segments[0]
    }

    /// The pre-release cycle and its number, if the version is a pre-release.
    pub fn pre_release(&self) -> (pre_release: Option<(PreReleaseCycle, u32)>)
        ensures
            pre_release == self@.pre_release,
    {
        self.pre_release
    }

    /// The post-release number, if there is one.
    pub fn post_release(&self) -> (post_release: Option<u32>)
        ensures
            post_release == self@.post_release,
    {
        self.post_release
    }

    /// The development-release number, if there is one.
    pub fn dev_release(&self) -> (dev_release: Option<u32>)
        ensures
            dev_release == self@.dev_release,
    {
        self.dev_release
    }
}

} // verus!
