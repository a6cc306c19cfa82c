//! A request to update the packages of a workspace: which packages, from which registry, with
//! which configuration.
use vstd::prelude::*;
use cargo_metadata::camino::Utf8PathBuf;
use crate::git::backend::GitBackend;
use crate::next_ver::{PackagesConfig, PackageUpdateConfig, ReleaseMetadata, ReleaseMetadataBuilder, UpdateConfig};
use crate::regex_text::{regex_is_match, regex_is_match_outcome};
use crate::repo_url::{RepoUrl, RepoUrlView};
use crate::text::{opt_chars, push_str};

verus! {

/// A request to update the packages of a workspace.
pub struct UpdateRequest {
    /// The manifest of the project you want to update.
    local_manifest: Utf8PathBuf,
    /// Cargo metadata.
    metadata: cargo_metadata::Metadata,
    /// Manifest of the project containing packages at the versions published in the Cargo registry.
    registry_manifest: Option<Utf8PathBuf>,
    /// Update just this package.
    single_package: Option<String>,
    /// Registry where the packages are stored.
    /// The registry name needs to be present in the Cargo config.
    /// If unspecified, crates.io is used.
    registry: Option<String>,
    /// - If true, update all the dependencies in Cargo.lock by running `cargo update`.
    /// - If false, updates the workspace packages in Cargo.lock by running `cargo update --workspace`.
    dependencies_update: bool,
    /// Allow dirty working directories to be updated.
    /// The uncommitted changes will be part of the update.
    allow_dirty: bool,
    /// Repository Url. If present, the new changelog entry contains a link to the diff between the old and new version.
    repo_url: Option<RepoUrl>,
    /// Package-specific configurations.
    packages_config: PackagesConfig,
    /// Prepare release only if at least one commit matches this regex pattern.
    release_commits: Option<String>,
    git: Option<GitBackend>,
}

/// The settings of an [`UpdateRequest`], as plain values.
pub struct UpdateRequestView {
    pub local_manifest: Utf8PathBuf,
    pub registry_manifest: Option<Utf8PathBuf>,
    pub single_package: Option<Seq<char>>,
    pub registry: Option<Seq<char>>,
    pub dependencies_update: bool,
    pub allow_dirty: bool,
    pub repo_url: Option<RepoUrlView>,
    pub release_commits: Option<Seq<char>>,
    pub git: Option<GitBackend>,
}

impl View for UpdateRequest {
    type V = UpdateRequestView;

    closed spec fn view(&self) -> UpdateRequestView {
        UpdateRequestView {
            local_manifest: self.local_manifest,
            registry_manifest: self.registry_manifest,
            single_package: opt_chars(self.single_package),
            registry: opt_chars(self.registry),
            dependencies_update: self.dependencies_update,
            allow_dirty: self.allow_dirty,
            repo_url: match self.repo_url {
                Some(u) => Some(u@),
                None => None,
            },
            release_commits: opt_chars(self.release_commits),
            git: self.git,
        }
    }
}

impl UpdateRequest {
    /// The package configurations are well formed.
    #[verifier::type_invariant]
    closed spec fn well_formed(&self) -> bool {
        self.packages_config.well_formed()
    }

    /// The configuration that applies to the package named `name`.
    pub closed spec fn config_for(&self, name: Seq<char>) -> PackageUpdateConfig {
        self.packages_config.config_for(name)
    }

    /// The package named `name` has a configuration of its own.
    pub closed spec fn has_own_config(&self, name: Seq<char>) -> bool {
        self.packages_config.overrides_map().contains_key(name)
    }

    /// The cargo metadata of the workspace.
    pub closed spec fn metadata_spec(&self) -> cargo_metadata::Metadata {
        self.metadata
    }

    /// A request on the workspace whose manifest is `local_manifest` (as a canonical path),
    /// with the default configuration for every package.
    pub fn new(metadata: cargo_metadata::Metadata, local_manifest: Utf8PathBuf) -> (r: Self)
        ensures
            r@ == (UpdateRequestView {
                local_manifest,
                registry_manifest: None,
                single_package: None,
                registry: None,
                dependencies_update: false,
                allow_dirty: false,
                repo_url: None,
                release_commits: None,
                git: None,
            }),
            r.metadata_spec() == metadata,
            forall|name: Seq<char>| crate::next_ver::is_default_update_config(#[trigger] r.config_for(name).generic)
                && r.config_for(name).changelog_include@.len() == 0 && r.config_for(name).version_group.is_none(),
    {
        Self {
            local_manifest,
            metadata,
            registry_manifest: None,
            single_package: None,
            registry: None,
            dependencies_update: false,
            allow_dirty: false,
            repo_url: None,
            packages_config: PackagesConfig::new(),
            release_commits: None,
            git: None,
        }
    }

    pub fn cargo_metadata(&self) -> (r: &cargo_metadata::Metadata)
        ensures
            *r == self.metadata_spec(),
    {
        &self.metadata
    }

    /// The same request on another (canonical) manifest path.
    pub fn set_local_manifest(self, local_manifest: Utf8PathBuf) -> (r: Self)
        ensures
            r@ == (UpdateRequestView { local_manifest, ..self@ }),
            r.metadata_spec() == self.metadata_spec(),
            forall|name: Seq<char>| #[trigger] r.config_for(name) == self.config_for(name),
    {
        proof {
            use_type_invariant(&self);
        }
        Self { local_manifest, ..self }
    }

    pub fn with_git_client(self, git: GitBackend) -> (r: Self)
        ensures
            r@ == (UpdateRequestView { git: Some(git), ..self@ }),
            r.metadata_spec() == self.metadata_spec(),
            forall|name: Seq<char>| #[trigger] r.config_for(name) == self.config_for(name),
    {
        proof {
            use_type_invariant(&self);
        }
        Self { git: Some(git), ..self }
    }

    /// The same request, reading the published packages from the (canonical) manifest path
    /// `registry_manifest`.
    pub fn with_registry_manifest_path(self, registry_manifest: Utf8PathBuf) -> (r: Self)
        ensures
            r@ == (UpdateRequestView { registry_manifest: Some(registry_manifest), ..self@ }),
            r.metadata_spec() == self.metadata_spec(),
            forall|name: Seq<char>| #[trigger] r.config_for(name) == self.config_for(name),
    {
        proof {
            use_type_invariant(&self);
        }
        Self { registry_manifest: Some(registry_manifest), ..self }
    }

    /// Set update config for all packages.
    pub fn with_default_package_config(self, config: UpdateConfig) -> (r: Self)
        ensures
            r@ == self@,
            r.metadata_spec() == self.metadata_spec(),
            forall|name: Seq<char>| #![trigger r.config_for(name)] !self.has_own_config(name)
                ==> r.config_for(name).generic == config && r.config_for(name).changelog_include@.len() == 0
                && r.config_for(name).version_group.is_none(),
            forall|name: Seq<char>| #![trigger r.config_for(name)] self.has_own_config(name)
                ==> r.config_for(name) == self.config_for(name),
    {
        proof {
            use_type_invariant(&self);
        }
        let mut packages_config = self.packages_config;
        packages_config.set_default(config);
        Self { packages_config, ..self }
    }

    /// Set update config for a specific package.
    pub fn with_package_config(self, package: String, config: PackageUpdateConfig) -> (r: Self)
        ensures
            r@ == self@,
            r.metadata_spec() == self.metadata_spec(),
            r.config_for(package@) == config,
            forall|name: Seq<char>| name != package@ ==> #[trigger] r.config_for(name) == self.config_for(name),
    {
        proof {
            use_type_invariant(&self);
        }
        let mut packages_config = self.packages_config;
        packages_config.set(package, config);
        Self { packages_config, ..self }
    }

    /// The configuration of the package named `package`.
    pub fn get_package_config(&self, package: &str) -> (r: &PackageUpdateConfig)
        ensures
            *r == self.config_for(package@),
    {
        proof {
            use_type_invariant(self);
        }
        self.packages_config.get(package)
    }

    pub fn with_registry(self, registry: String) -> (r: Self)
        ensures
            r@ == (UpdateRequestView { registry: Some(registry@), ..self@ }),
            r.metadata_spec() == self.metadata_spec(),
            forall|name: Seq<char>| #[trigger] r.config_for(name) == self.config_for(name),
    {
        proof {
            use_type_invariant(&self);
        }
        Self { registry: Some(registry), ..self }
    }

    pub fn with_single_package(self, package: String) -> (r: Self)
        ensures
            r@ == (UpdateRequestView { single_package: Some(package@), ..self@ }),
            r.metadata_spec() == self.metadata_spec(),
            forall|name: Seq<char>| #[trigger] r.config_for(name) == self.config_for(name),
    {
        proof {
            use_type_invariant(&self);
        }
        Self { single_package: Some(package), ..self }
    }

    pub fn with_repo_url(self, repo_url: RepoUrl) -> (r: Self)
        ensures
            r@ == (UpdateRequestView { repo_url: Some(repo_url@), ..self@ }),
            r.metadata_spec() == self.metadata_spec(),
            forall|name: Seq<char>| #[trigger] r.config_for(name) == self.config_for(name),
    {
        proof {
            use_type_invariant(&self);
        }
        Self { repo_url: Some(repo_url), ..self }
    }

    /// The same request, preparing a release only if some commit matches the regex
    /// `release_commits`; an error if the pattern does not compile.
    pub fn with_release_commits(self, release_commits: &str) -> (r: Result<Self, String>)
        ensures
            regex_is_match_outcome(release_commits@, ""@) is Err ==> (r matches Err(e) && e@
                == "invalid release_commits regex pattern"@),
            regex_is_match_outcome(release_commits@, ""@) is Ok ==> (r matches Ok(s) && s@
                == (UpdateRequestView { release_commits: Some(release_commits@), ..self@ })
                && s.metadata_spec() == self.metadata_spec()
                && forall|name: Seq<char>| #[trigger] s.config_for(name) == self.config_for(name)),
    {
        proof {
            use_type_invariant(&self);
        }
        match regex_is_match(release_commits, "") {
            Err(_) => {
                let mut e = String::new();
                push_str(&mut e, "invalid release_commits regex pattern");
                Err(e)
            },
            Ok(_) => {
                let mut pattern = String::new();
                push_str(&mut pattern, release_commits);
                Ok(Self { release_commits: Some(pattern), ..self })
            },
        }
    }

    pub fn local_manifest(&self) -> (r: &Utf8PathBuf)
        ensures
            *r == self@.local_manifest,
    {
        &self.local_manifest
    }

    pub fn registry_manifest(&self) -> (r: Option<&Utf8PathBuf>)
        ensures
            match r {
                Some(p) => self@.registry_manifest == Some(*p),
                None => self@.registry_manifest is None,
            },
    {
        match &self.registry_manifest {
            Some(p) => Some(p),
            None => None,
        }
    }

    pub fn with_dependencies_update(self, dependencies_update: bool) -> (r: Self)
        ensures
            r@ == (UpdateRequestView { dependencies_update, ..self@ }),
            r.metadata_spec() == self.metadata_spec(),
            forall|name: Seq<char>| #[trigger] r.config_for(name) == self.config_for(name),
    {
        proof {
            use_type_invariant(&self);
        }
        Self { dependencies_update, ..self }
    }

    pub fn should_update_dependencies(&self) -> (r: bool)
        ensures
            r == self@.dependencies_update,
    {
        self.dependencies_update
    }

    pub fn with_allow_dirty(self, allow_dirty: bool) -> (r: Self)
        ensures
            r@ == (UpdateRequestView { allow_dirty, ..self@ }),
            r.metadata_spec() == self.metadata_spec(),
            forall|name: Seq<char>| #[trigger] r.config_for(name) == self.config_for(name),
    {
        proof {
            use_type_invariant(&self);
        }
        Self { allow_dirty, ..self }
    }

    pub fn repo_url(&self) -> (r: Option<&RepoUrl>)
        ensures
            match r {
                Some(u) => self@.repo_url == Some(u@),
                None => self@.repo_url is None,
            },
    {
        match &self.repo_url {
            Some(u) => Some(u),
            None => None,
        }
    }

    /// The single package to update, if one is named.
    pub fn single_package(&self) -> (r: Option<&str>)
        ensures
            match r {
                Some(s) => self@.single_package == Some(s@),
                None => self@.single_package is None,
            },
    {
        match &self.single_package {
            Some(s) => Some(s.as_str()),
            None => None,
        }
    }

    /// The registry of the packages, if one is named.
    pub fn registry(&self) -> (r: Option<&str>)
        ensures
            match r {
                Some(s) => self@.registry == Some(s@),
                None => self@.registry is None,
            },
    {
        match &self.registry {
            Some(s) => Some(s.as_str()),
            None => None,
        }
    }

    /// The pattern that release commits must match, if one is set.
    pub fn release_commits(&self) -> (r: Option<&str>)
        ensures
            match r {
                Some(s) => self@.release_commits == Some(s@),
                None => self@.release_commits is None,
            },
    {
        match &self.release_commits {
            Some(s) => Some(s.as_str()),
            None => None,
        }
    }

    /// Whether a dirty working directory may be updated.
    pub fn allow_dirty(&self) -> (r: bool)
        ensures
            r == self@.allow_dirty,
    {
        self.allow_dirty
    }
}

impl ReleaseMetadataBuilder for UpdateRequest {
    /// What the release needs of the package: nothing when the package is not released, else
    /// the tag template of its configuration.
    fn get_release_metadata(&self, package_name: &str) -> (r: Option<ReleaseMetadata>)
        ensures
            match r {
                Some(m) => self.config_for(package_name@).generic.release && opt_chars(m.tag_name_template)
                    == opt_chars(self.config_for(package_name@).generic.tag_name_template)
                    && m.release_name_template.is_none(),
                None => !self.config_for(package_name@).generic.release,
            },
    {
        proof {
            use_type_invariant(self);
        }
        self.packages_config.get_release_metadata(package_name)
    }
}

} // verus!
