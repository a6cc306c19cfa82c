//! The outcome of checking a package for semver-incompatible changes.
use vstd::prelude::*;

verus! {

/// The outcome of the semver check of a package.
#[derive(Debug, Clone, PartialEq, Eq)]
pub enum SemverCheck {
    /// No incompatible change was found.
    Compatible,
    /// Incompatible changes were found; the report of the check.
    Incompatible(String),
    /// The check was not run.
    Skipped,
}

} // verus!
