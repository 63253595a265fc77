//! The contents of a lockfile: which dependencies it pins, and to what.

use vstd::prelude::*;
use vstd::string::StrSliceExecFns;
use crate::names::NameMap;
use crate::text::chars_of;

verus! {

/// The lockfile format that this library understands.
pub const PIPFILE_SPEC: i32 = 6;

/// What a lockfile says about itself.
#[derive(Debug)]
pub struct Meta {
    /// The version of the lockfile format.
    pub pipfile_spec: i32,
}

/// What a dependency is pinned to.
#[derive(Debug)]
pub enum Dependency {
    /// A reference into a source repository.
    Git { git_ref: String },
    /// A version of a package from an index.
    Pip { version: String },
}

/// The mathematical image of a [`Dependency`].
pub enum DependencyView {
    Git { git_ref: Seq<char> },
    Pip { version: Seq<char> },
}

/// `s` without the `==` at its start, however often it stands there.
pub open spec fn without_equals(s: Seq<char>) -> Seq<char>
    decreases s.len(),
{
    if s.len() >= 2 && s[0] == '=' && s[1] == '=' {
        without_equals(s.skip(2))
    } else {
        s
    }
}

impl DependencyView {
    /// How a dependency is shown to a reader: a reference as it is, a
    /// version without the `==` in front of it.
    pub open spec fn rendered(self) -> Seq<char> {
        match self {
            DependencyView::Git { git_ref } => git_ref,
            DependencyView::Pip { version } => without_equals(version),
        }
    }
}

impl View for Dependency {
    type V = DependencyView;

    open spec fn view(&self) -> DependencyView {
        match self {
            Dependency::Git { git_ref } => DependencyView::Git { git_ref: git_ref@ },
            Dependency::Pip { version } => DependencyView::Pip { version: version@ },
        }
    }
}

impl Clone for Dependency {
    fn clone(&self) -> (copy: Dependency)
        ensures
            copy == *self,
    {
        match self {
            Dependency::Git { git_ref } => Dependency::Git { git_ref: git_ref.clone() },
            Dependency::Pip { version } => Dependency::Pip { version: version.clone() },
        }
    }
}

impl PartialEq for Dependency {
    fn eq(&self, other: &Dependency) -> (equal: bool) {
        match (self, other) {
            (Dependency::Git { git_ref: mine }, Dependency::Git { git_ref: theirs }) => *mine
                == *theirs,
            (Dependency::Pip { version: mine }, Dependency::Pip { version: theirs }) => *mine
                == *theirs,
            _ => false,
        }
    }
}

impl vstd::std_specs::cmp::PartialEqSpecImpl for Dependency {
    open spec fn obeys_eq_spec() -> bool {
        true
    }

    open spec fn eq_spec(&self, other: &Dependency) -> bool {
        self@ == other@
    }
}

impl Eq for Dependency {

}

impl Dependency {
    /// Shows the dependency to a reader: a reference as it is, a version
    /// without the `==` in front of it.
    pub fn render(&self) -> (shown: String)
        ensures
            shown@ == self@.rendered(),
    {
        match self {
            Dependency::Git { git_ref } => git_ref.clone(),
            Dependency::Pip { version } => {
                let chars = chars_of(version.as_str());
                let mut at: usize = 0;
                proof {
                    assert(version@.skip(0) =~= version@);
                }
                while chars.len() - at >= 2 && chars[at] == '=' && chars[at + 1] == '='
                    invariant
                        at <= chars.len(),
                        chars@ == version@,
                        without_equals(version@) == without_equals(version@.skip(at as int)),
                    decreases chars.len() - at,
                {
                    proof {
                        assert(version@.skip(at as int).skip(2) =~= version@.skip(at + 2));
                    }
                    at += 2;
                }
                version.as_str().substring_char(at, chars.len()).to_owned()
            },
        }
    }
}

/// The dependencies that a lockfile pins.
#[derive(Debug)]
pub struct PipfileLock {
    pub meta: Meta,
    /// What the project needs to run.
    pub default: NameMap<Dependency>,
    /// What it needs in development on top of that.
    pub develop: NameMap<Dependency>,
}

/// Why a lockfile could not be taken in.
#[derive(Debug)]
pub enum Error {
    /// The lockfile is written in a format other than [`PIPFILE_SPEC`]; its
    /// format is kept.
    IncompatiblePipfileLockSpec(i32),
    /// The text is no lockfile; what the reader of the text said is kept.
    Deserialize(String),
}

impl PipfileLock {
    /// Accepts a lockfile of the format [`PIPFILE_SPEC`] as it is and
    /// refuses any other.
    pub fn validate(self) -> (checked: Result<PipfileLock, Error>)
        ensures
            checked == (if self.meta.pipfile_spec == PIPFILE_SPEC {
                Ok::<PipfileLock, Error>(self)
            } else {
                Err::<PipfileLock, Error>(
                    Error::IncompatiblePipfileLockSpec(self.meta.pipfile_spec),
                )
            }),
    {
        if self.meta.pipfile_spec != PIPFILE_SPEC {
            return Err(Error::IncompatiblePipfileLockSpec(self.meta.pipfile_spec));
        }
        Ok(self)
    }
}

} // verus!
