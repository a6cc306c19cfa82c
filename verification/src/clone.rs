//! What to fetch from a registry: crates, and the registry to fetch them from.
use vstd::prelude::*;
use crate::text::{contains_seq, str_contains};

verus! {

/// Rust crate.
#[derive(PartialEq, Eq, Debug)]
pub struct Crate {
    name: String,
    version: Option<String>,
}

impl Crate {
    /// Create a new [`Crate`].
    /// If `version` is not specified, the latest version is chosen.
    pub fn new(name: String, version: Option<String>) -> (c: Crate)
        ensures
            c.name_spec() == name@,
            c.version_spec() == crate::text::opt_chars(version),
    {
        Crate { name, version }
    }

    /// The name of the crate.
    pub closed spec fn name_spec(&self) -> Seq<char> {
        self.name@
    }

    /// The version asked for, if any.
    pub closed spec fn version_spec(&self) -> Option<Seq<char>> {
        crate::text::opt_chars(self.version)
    }
}

/// A crate keeps the name and the version it was made with: two crates made by [`Crate::new`]
/// agree exactly when they were made with the same name and the same version (or both with
/// none, which asks for the latest).
pub proof fn law_crate_keeps_name_and_version(
    c1: Crate,
    c2: Crate,
    n1: Seq<char>,
    v1: Option<Seq<char>>,
    n2: Seq<char>,
    v2: Option<Seq<char>>,
)
    requires
        c1.name_spec() == n1 && c1.version_spec() == v1,
        c2.name_spec() == n2 && c2.version_spec() == v2,
    ensures
        (c1.name_spec() == c2.name_spec() && c1.version_spec() == c2.version_spec()) <==> (n1 == n2 && v1 == v2),
{
}

/// Where to clone the crate from.
#[derive(Debug, Default, Clone)]
pub struct ClonerSource {
    pub cargo_source: CargoSource,
}

/// A registry of crates.
#[derive(Debug, Default, Clone)]
pub enum CargoSource {
    #[default]
    CratesIo,
    /// The registry with this name in the cargo configuration.
    Registry(String),
}

impl ClonerSource {
    /// Creates a [`ClonerSource`] from the name of the remote registry.
    pub fn registry(key: String) -> (s: Self)
        ensures
            s.cargo_source matches CargoSource::Registry(k) && k == key,
    {
        Self { cargo_source: CargoSource::Registry(key) }
    }

    /// Creates a [`ClonerSource`] from [crates.io](https://crates.io/).
    pub fn crates_io() -> (s: Self)
        ensures
            s.cargo_source is CratesIo,
    {
        Self { cargo_source: CargoSource::CratesIo }
    }
}

/// A query to a registry that fails to fetch means, in practice, that the registry holds no
/// crates: the package is then reported as missing rather than as an error.
pub open spec fn is_empty_registry_error_spec(message: Seq<char>) -> bool {
    contains_seq(message, "failed to fetch"@)
}

/// Whether the error of a registry query says that the registry is empty.
pub fn is_empty_registry_error(message: &str) -> (r: bool)
    ensures
        r == is_empty_registry_error_spec(message@),
{
    str_contains(message, "failed to fetch")
}

} // verus!
