//! Release configuration, in its first form: per-package settings and the changelog path.
use vstd::prelude::*;

verus! {

/// Release settings that apply to every package (none yet).
#[derive(Debug, Clone)]
pub struct ReleaseConfig {}

impl Default for ReleaseConfig {
    fn default() -> (c: Self)
        ensures
            c == (ReleaseConfig {}),
    {
        ReleaseConfig {}
    }
}

/// The release configuration of one package.
#[derive(Debug, Clone)]
pub struct PackageReleaseConfig {
    /// config that can be applied by default to all packages.
    pub generic: ReleaseConfig,
    /// The changelog path can only be specified for a single package.
    pub changelog_path: Option<std::path::PathBuf>,
}

impl Default for PackageReleaseConfig {
    fn default() -> (c: Self)
        ensures
            c.changelog_path.is_none(),
    {
        Self { generic: ReleaseConfig::default(), changelog_path: None }
    }
}

impl From<ReleaseConfig> for PackageReleaseConfig {
    fn from(config: ReleaseConfig) -> (c: Self) {
        Self { generic: config, changelog_path: None }
    }
}

impl vstd::std_specs::convert::FromSpecImpl<ReleaseConfig> for PackageReleaseConfig {
    open spec fn obeys_from_spec() -> bool {
        true
    }

    open spec fn from_spec(config: ReleaseConfig) -> Self {
        PackageReleaseConfig { generic: config, changelog_path: None }
    }
}

} // verus!
