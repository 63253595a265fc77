//! Tools for telling apart two states of a Python lockfile, built around a
//! parser and a total order for version identifiers.
//!
//! - [`semver`] reads version identifiers from text and ranks them.
//! - [`pipfile_lock`] holds what a lockfile pins and accepts the lockfiles of
//!   the known format.
//! - [`diff`] tells two sets of pinned dependencies apart and reports the
//!   difference.
//! - [`names`] is the map from names to values that the sets are kept in.
//! - [`pipfile`] decides how an entry of a Pipfile takes a new version.
//!
//! The functions that this library writes out are verified against the
//! contracts that they state, and none of them panics.

pub mod diff;
pub mod names;
pub mod pipfile;
pub mod pipfile_lock;
pub mod semver;
mod text;
