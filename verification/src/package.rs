//! The packages of a workspace, with what the release logic reads of their manifests.
use vstd::prelude::*;

verus! {

/// What a dependency is declared for.
#[derive(Debug, Clone, Copy, PartialEq, Eq, Structural)]
pub enum DependencyKind {
    Normal,
    Development,
    Build,
}

/// A dependency of a package, as its manifest declares it.
#[derive(Debug, Clone)]
pub struct Dependency {
    pub name: String,
    pub kind: DependencyKind,
}

/// A package of the workspace, with what the release logic reads of it.
#[derive(Debug, Clone)]
pub struct Package {
    pub name: String,
    pub dependencies: Vec<Dependency>,
    pub version: String,
    /// The features of the package, each with what it enables (`dep/feature`, `dep:name`, ...).
    pub features: Vec<(String, Vec<String>)>,
    /// The registries the package may be published to: `None` for any, an empty list for none.
    pub publish: Option<Vec<String>>,
    pub targets: Vec<Target>,
}

/// A build target of a package.
#[derive(Debug, Clone)]
pub struct Target {
    pub name: String,
    /// The kinds of the target, as cargo names them (`lib`, `bin`, `example`, ...).
    pub kind: Vec<String>,
}

} // verus!
