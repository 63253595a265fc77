//! How the package entries of a Pipfile state their versions, and how a
//! version is written into one.

use vstd::prelude::*;

verus! {

/// The form in which a package entry of a Pipfile stands.
#[derive(Clone, Copy, Debug, PartialEq, Eq, Structural)]
pub enum PinForm {
    /// A plain text: the version itself.
    Text,
    /// An inline table, with or without a `version` key.
    Table { has_version: bool },
    /// Anything else.
    Other,
}

/// What has to be done to an entry to give it a new version.
#[derive(Clone, Copy, Debug, PartialEq, Eq, Structural)]
pub enum Rewrite {
    /// Put the new version in the place of the whole entry.
    ReplaceEntry,
    /// Put the new version under the `version` key of the table.
    SetVersionKey,
}

impl PinForm {
    /// How an entry of this form takes a new version: a plain text is
    /// replaced, a table that states a version gets it under its `version`
    /// key, and no other entry can take one.
    pub open spec fn rewrite_spec(self) -> Option<Rewrite> {
        match self {
            PinForm::Text => Some(Rewrite::ReplaceEntry),
            PinForm::Table { has_version: true } => Some(Rewrite::SetVersionKey),
            _ => None,
        }
    }

    /// Tells how an entry of this form takes a new version, or `None`
    /// where it cannot take one.
    pub fn rewrite(self) -> (plan: Option<Rewrite>)
        ensures
            plan == self.rewrite_spec(),
    {
        match self {
            PinForm::Text => Some(Rewrite::ReplaceEntry),
            PinForm::Table { has_version } => {
                if has_version {
                    Some(Rewrite::SetVersionKey)
                } else {
                    None
                }
            },
            PinForm::Other => None,
        }
    }
}

} // verus!
