//! Download packages from cargo registry, similar to the `git clone` behavior.
use vstd::prelude::*;
use crate::clone::{CargoSource, ClonerSource, Crate};
use crate::text::opt_chars;

verus! {

/// Downloads packages from a registry into a directory.
#[derive(Debug)]
pub struct PackageDownloader {
    packages: Vec<String>,
    directory: String,
    registry: Option<String>,
    cargo_cwd: Option<std::path::PathBuf>,
}

impl PackageDownloader {
    /// The names of the packages to download.
    pub closed spec fn packages_spec(&self) -> Seq<Seq<char>> {
        self.packages.deep_view()
    }

    /// The directory to download into.
    pub closed spec fn directory_spec(&self) -> Seq<char> {
        self.directory@
    }

    /// The registry to download from, crates.io when none.
    pub closed spec fn registry_spec(&self) -> Option<Seq<char>> {
        opt_chars(self.registry)
    }

    /// The working directory of cargo, if set.
    pub closed spec fn cargo_cwd_spec(&self) -> Option<std::path::PathBuf> {
        self.cargo_cwd
    }

    pub fn new(packages: Vec<String>, directory: String) -> (d: Self)
        ensures
            d.packages_spec() == packages.deep_view(),
            d.directory_spec() == directory@,
            d.registry_spec().is_none(),
            d.cargo_cwd_spec().is_none(),
    {
        Self { packages, directory, registry: None, cargo_cwd: None }
    }

    pub fn with_registry(self, registry: String) -> (d: Self)
        ensures
            d.registry_spec() == Some(registry@),
            d.packages_spec() == self.packages_spec(),
            d.directory_spec() == self.directory_spec(),
            d.cargo_cwd_spec() == self.cargo_cwd_spec(),
    {
        Self { registry: Some(registry), ..self }
    }

    pub fn with_cargo_cwd(self, cargo_cwd: std::path::PathBuf) -> (d: Self)
        ensures
            d.cargo_cwd_spec() == Some(cargo_cwd),
            d.packages_spec() == self.packages_spec(),
            d.directory_spec() == self.directory_spec(),
            d.registry_spec() == self.registry_spec(),
    {
        Self { cargo_cwd: Some(cargo_cwd), ..self }
    }

    /// Where the packages are downloaded from: the registry if one is set, else crates.io.
    pub fn source(&self) -> (s: ClonerSource)
        ensures
            match self.registry_spec() {
                Some(r) => s.cargo_source matches CargoSource::Registry(k) && k@ == r,
                None => s.cargo_source is CratesIo,
            },
    {
        match &self.registry {
            Some(registry) => ClonerSource::registry(registry.clone()),
            None => ClonerSource::crates_io(),
        }
    }

    /// The crates to download: each package, at its latest version.
    pub fn crates(&self) -> (c: Vec<Crate>)
        ensures
            c@.len() == self.packages_spec().len(),
            forall|k: int| 0 <= k < c@.len() ==> #[trigger] c@[k].name_spec() == self.packages_spec()[k]
                && c@[k].version_spec().is_none(),
    {
        let mut c: Vec<Crate> = Vec::new();
        let mut k: usize = 0;
        while k < self.packages.len()
            invariant
                k <= self.packages@.len(),
                c@.len() == k,
                forall|k2: int| 0 <= k2 < k ==> #[trigger] c@[k2].name_spec() == self.packages.deep_view()[k2]
                    && c@[k2].version_spec().is_none(),
            decreases self.packages.len() - k,
        {
            c.push(Crate::new(self.packages[k].clone(), None));
            k += 1;
        }
        c
    }
}

} // verus!
