//! How packages are released: publishing, git tags and git releases.
use vstd::prelude::*;
use crate::git::backend::GitBackend;
use crate::next_ver::ReleaseMetadata;
use crate::overrides::Overrides;
use crate::text::{contains_seq, join, join_strings, opt_chars, push_str, str_contains};
use crate::version::{is_prerelease_spec, Version};

verus! {

#[verifier::external_type_specification]
#[verifier::external_body]
pub struct ExPathBuf(std::path::PathBuf);

#[verifier::external_type_specification]
#[verifier::external_body]
pub struct ExMetadata(cargo_metadata::Metadata);

/// Whether a package is published to its registry.
#[derive(Debug, Clone, PartialEq, Eq, Structural)]
pub struct PublishConfig {
    enabled: bool,
}

impl View for PublishConfig {
    type V = bool;

    closed spec fn view(&self) -> bool {
        self.enabled
    }
}

impl Default for PublishConfig {
    fn default() -> (c: Self)
        ensures
            c@,
    {
        Self::enabled(true)
    }
}

impl PublishConfig {
    pub fn enabled(enabled: bool) -> (c: Self)
        ensures
            c@ == enabled,
    {
        Self { enabled }
    }

    pub fn is_enabled(&self) -> (r: bool)
        ensures
            r == self@,
    {
        self.enabled
    }
}

/// Which git releases are marked as pre-releases.
#[derive(Debug, Clone, Copy, PartialEq, Eq, Structural)]
pub enum ReleaseType {
    /// None.
    Prod,
    /// All.
    Pre,
    /// Those of pre-release versions.
    Auto,
}

impl Default for ReleaseType {
    fn default() -> (t: Self)
        ensures
            t == ReleaseType::Prod,
    {
        ReleaseType::Prod
    }
}

/// What a [`GitReleaseConfig`] holds.
pub struct GitReleaseConfigView {
    pub enabled: bool,
    pub draft: bool,
    pub release_type: ReleaseType,
    pub name_template: Option<Seq<char>>,
}

/// How the git release of a package is made.
#[derive(Debug, Clone, PartialEq, Eq)]
pub struct GitReleaseConfig {
    enabled: bool,
    draft: bool,
    release_type: ReleaseType,
    name_template: Option<String>,
}

impl View for GitReleaseConfig {
    type V = GitReleaseConfigView;

    closed spec fn view(&self) -> GitReleaseConfigView {
        GitReleaseConfigView {
            enabled: self.enabled,
            draft: self.draft,
            release_type: self.release_type,
            name_template: opt_chars(self.name_template),
        }
    }
}

impl Default for GitReleaseConfig {
    fn default() -> (c: Self)
        ensures
            c@ == (GitReleaseConfigView { enabled: true, draft: false, release_type: ReleaseType::Prod, name_template: None }),
    {
        Self::enabled(true)
    }
}

/// Whether a git release of `version` is a pre-release, under the given release type.
pub open spec fn is_pre_release_spec(release_type: ReleaseType, version: crate::version::VersionView) -> bool {
    match release_type {
        ReleaseType::Pre => true,
        ReleaseType::Auto => is_prerelease_spec(version),
        ReleaseType::Prod => false,
    }
}

impl GitReleaseConfig {
    pub fn enabled(enabled: bool) -> (c: Self)
        ensures
            c@ == (GitReleaseConfigView { enabled, draft: false, release_type: ReleaseType::Prod, name_template: None }),
    {
        Self { enabled, draft: false, release_type: ReleaseType::default(), name_template: None }
    }

    pub fn is_enabled(&self) -> (r: bool)
        ensures
            r == self@.enabled,
    {
        self.enabled
    }

    pub fn set_draft(self, draft: bool) -> (c: Self)
        ensures
            c@ == (GitReleaseConfigView { draft, ..self@ }),
    {
        let mut c = self;
        c.draft = draft;
        c
    }

    pub fn set_release_type(self, release_type: ReleaseType) -> (c: Self)
        ensures
            c@ == (GitReleaseConfigView { release_type, ..self@ }),
    {
        let mut c = self;
        c.release_type = release_type;
        c
    }

    pub fn set_name_template(self, name_template: Option<String>) -> (c: Self)
        ensures
            c@ == (GitReleaseConfigView { name_template: opt_chars(name_template), ..self@ }),
    {
        let mut c = self;
        c.name_template = name_template;
        c
    }

    /// Whether the git release of `version` is marked as a pre-release.
    pub fn is_pre_release(&self, version: &Version) -> (r: bool)
        ensures
            r == is_pre_release_spec(self@.release_type, version@),
    {
        match self.release_type {
            ReleaseType::Pre => true,
            ReleaseType::Auto => version.is_prerelease(),
            ReleaseType::Prod => false,
        }
    }
}

/// What a [`GitTagConfig`] holds.
pub struct GitTagConfigView {
    pub enabled: bool,
    pub name_template: Option<Seq<char>>,
}

/// How the git tag of a package is made.
#[derive(Debug, Clone, PartialEq, Eq)]
pub struct GitTagConfig {
    enabled: bool,
    name_template: Option<String>,
}

impl View for GitTagConfig {
    type V = GitTagConfigView;

    closed spec fn view(&self) -> GitTagConfigView {
        GitTagConfigView { enabled: self.enabled, name_template: opt_chars(self.name_template) }
    }
}

impl Default for GitTagConfig {
    fn default() -> (c: Self)
        ensures
            c@ == (GitTagConfigView { enabled: true, name_template: None }),
    {
        Self::enabled(true)
    }
}

impl GitTagConfig {
    pub fn enabled(enabled: bool) -> (c: Self)
        ensures
            c@ == (GitTagConfigView { enabled, name_template: None }),
    {
        Self { enabled, name_template: None }
    }

    pub fn set_name_template(self, name_template: Option<String>) -> (c: Self)
        ensures
            c@ == (GitTagConfigView { name_template: opt_chars(name_template), ..self@ }),
    {
        let mut c = self;
        c.name_template = name_template;
        c
    }

    pub fn is_enabled(&self) -> (r: bool)
        ensures
            r == self@.enabled,
    {
        self.enabled
    }
}

/// What a [`ReleaseConfig`] holds.
pub struct ReleaseConfigView {
    pub publish: bool,
    pub git_release: GitReleaseConfigView,
    pub git_tag: GitTagConfigView,
    pub skip_build_check: bool,
    pub allow_dirty: bool,
    pub features: Seq<Seq<char>>,
    pub release: bool,
}

/// How a package is released.
#[derive(Debug, Clone, PartialEq, Eq)]
pub struct ReleaseConfig {
    publish: PublishConfig,
    git_release: GitReleaseConfig,
    git_tag: GitTagConfig,
    /// Don't verify the contents by building them.
    /// If true, `release-plz` adds the `--no-verify` flag to `cargo publish`.
    skip_build_check: bool,
    /// Allow dirty working directories to be packaged.
    /// If true, `release-plz` adds the `--allow-dirty` flag to `cargo publish`.
    allow_dirty: bool,
    /// Features to be enabled when packaging the crate.
    /// If non-empty, pass the `--features` flag to `cargo publish`.
    features: Vec<String>,
    /// High-level toggle to process this package or ignore it
    release: bool,
}

impl View for ReleaseConfig {
    type V = ReleaseConfigView;

    closed spec fn view(&self) -> ReleaseConfigView {
        ReleaseConfigView {
            publish: self.publish@,
            git_release: self.git_release@,
            git_tag: self.git_tag@,
            skip_build_check: self.skip_build_check,
            allow_dirty: self.allow_dirty,
            features: self.features.deep_view(),
            release: self.release,
        }
    }
}

/// The default release configuration: publish, tag and make a git release; verify the package,
/// refuse a dirty working directory, enable no extra feature.
pub open spec fn default_release_config() -> ReleaseConfigView {
    ReleaseConfigView {
        publish: true,
        git_release: GitReleaseConfigView { enabled: true, draft: false, release_type: ReleaseType::Prod, name_template: None },
        git_tag: GitTagConfigView { enabled: true, name_template: None },
        skip_build_check: false,
        allow_dirty: false,
        features: Seq::empty(),
        release: true,
    }
}

/// Setting the publish configuration changes what `publish` reads and nothing else (the git
/// release stays), and the default configuration publishes and makes git releases.
pub proof fn law_publish_config_read_after_set(before: ReleaseConfigView, after: ReleaseConfigView, publish: bool)
    requires
        after == (ReleaseConfigView { publish, ..before }),
    ensures
        after.publish == publish,
        after.git_release == before.git_release,
        after.git_tag == before.git_tag,
        default_release_config().publish,
        default_release_config().git_release.enabled,
{
}

impl Default for ReleaseConfig {
    fn default() -> (c: Self)
        ensures
            c@ == default_release_config(),
    {
        let c = Self {
            publish: PublishConfig::default(),
            git_release: GitReleaseConfig::default(),
            git_tag: GitTagConfig::default(),
            skip_build_check: false,
            allow_dirty: false,
            features: Vec::new(),
            release: true,
        };
        assert(c.features.deep_view() =~= Seq::<Seq<char>>::empty());
        c
    }
}

impl ReleaseConfig {
    pub fn with_publish(self, publish: PublishConfig) -> (c: Self)
        ensures
            c@ == (ReleaseConfigView { publish: publish@, ..self@ }),
    {
        let mut c = self;
        c.publish = publish;
        c
    }

    pub fn with_git_release(self, git_release: GitReleaseConfig) -> (c: Self)
        ensures
            c@ == (ReleaseConfigView { git_release: git_release@, ..self@ }),
    {
        let mut c = self;
        c.git_release = git_release;
        c
    }

    pub fn with_git_tag(self, git_tag: GitTagConfig) -> (c: Self)
        ensures
            c@ == (ReleaseConfigView { git_tag: git_tag@, ..self@ }),
    {
        let mut c = self;
        c.git_tag = git_tag;
        c
    }

    pub fn with_no_verify(self, skip_build_check: bool) -> (c: Self)
        ensures
            c@ == (ReleaseConfigView { skip_build_check, ..self@ }),
    {
        let mut c = self;
        c.skip_build_check = skip_build_check;
        c
    }

    pub fn with_allow_dirty(self, allow_dirty: bool) -> (c: Self)
        ensures
            c@ == (ReleaseConfigView { allow_dirty, ..self@ }),
    {
        let mut c = self;
        c.allow_dirty = allow_dirty;
        c
    }

    pub fn with_features(self, features: Vec<String>) -> (c: Self)
        ensures
            c@ == (ReleaseConfigView { features: features.deep_view(), ..self@ }),
    {
        let mut c = self;
        c.features = features;
        c
    }

    pub fn with_release(self, release: bool) -> (c: Self)
        ensures
            c@ == (ReleaseConfigView { release, ..self@ }),
    {
        let mut c = self;
        c.release = release;
        c
    }

    pub fn publish(&self) -> (p: &PublishConfig)
        ensures
            p@ == self@.publish,
    {
        &self.publish
    }

    pub fn git_release(&self) -> (g: &GitReleaseConfig)
        ensures
            g@ == self@.git_release,
    {
        &self.git_release
    }
}

/// The release configuration of one package.
#[derive(Debug, Clone, PartialEq, Eq)]
pub struct PackageReleaseConfig {
    /// config that can be applied by default to all packages.
    pub generic: ReleaseConfig,
    /// The changelog path can only be specified for a single package.
    pub changelog_path: Option<std::path::PathBuf>,
}

impl Default for PackageReleaseConfig {
    fn default() -> (c: Self)
        ensures
            c.generic@ == default_release_config(),
            c.changelog_path.is_none(),
    {
        Self { generic: ReleaseConfig::default(), changelog_path: None }
    }
}

impl From<ReleaseConfig> for PackageReleaseConfig {
    fn from(config: ReleaseConfig) -> (c: Self) {
        Self { generic: config, changelog_path: None }
    }
}

impl vstd::std_specs::convert::FromSpecImpl<ReleaseConfig> for PackageReleaseConfig {
    open spec fn obeys_from_spec() -> bool {
        true
    }

    open spec fn from_spec(config: ReleaseConfig) -> Self {
        PackageReleaseConfig { generic: config, changelog_path: None }
    }
}

/// What a git release is made of.
pub struct GitReleaseInfo {
    pub git_tag: String,
    pub release_name: String,
    pub release_body: String,
    pub draft: bool,
    pub pre_release: bool,
}

/// The git release to make, and where.
pub struct GitRelease {
    /// Kind of Git Backend.
    pub backend: GitBackend,
}

/// The release configuration of each package: one by default, and some packages with their
/// own.
#[derive(Debug, Clone)]
struct PackagesConfig {
    /// Config for packages that don't have a specific configuration.
    default: PackageReleaseConfig,
    /// Configurations that override `default`. The key is the package name.
    overrides: Overrides<PackageReleaseConfig>,
}

impl PackagesConfig {
    /// The configuration that applies to the package named `name`.
    spec fn config_for(&self, name: Seq<char>) -> PackageReleaseConfig {
        if self.overrides@.contains_key(name) {
            self.overrides@[name]
        } else {
            self.default
        }
    }

    fn get(&self, package_name: &str) -> (c: &PackageReleaseConfig)
        requires
            self.overrides.well_formed(),
        ensures
            *c == self.config_for(package_name@),
    {
        match self.overrides.get(package_name) {
            Some(c) => c,
            None => &self.default,
        }
    }
}

/// A request to release the packages of a workspace.
pub struct ReleaseRequest {
    /// Cargo metadata.
    metadata: cargo_metadata::Metadata,
    /// Registry where you want to publish the packages.
    /// The registry name needs to be present in the Cargo config.
    /// If unspecified, the `publish` field of the package manifest is used.
    /// If the `publish` field is empty, crates.io is used.
    registry: Option<String>,
    /// Token used to publish to the cargo registry.
    token: Option<String>,
    /// Perform all checks without uploading.
    dry_run: bool,
    /// Publishes GitHub release.
    git_release: Option<GitRelease>,
    /// GitHub/Gitea/Gitlab repository url where your project is hosted.
    /// It is used to create the git release.
    /// It defaults to the url of the default remote.
    repo_url: Option<String>,
    /// Package-specific configurations.
    packages_config: PackagesConfig,
    // publish timeout
    publish_timeout: std::time::Duration,
}

/// What `std::time::Duration::from_secs` gives: the duration of `secs` whole seconds.
pub uninterp spec fn duration_of_secs(secs: u64) -> std::time::Duration;

/// Calls `std::time::Duration::from_secs`; the result is the named duration of `secs` seconds.
#[verifier::external_body]
fn duration_from_secs(secs: u64) -> (r: std::time::Duration)
    ensures
        r == duration_of_secs(secs),
{
    std::time::Duration::from_secs(secs)
}

impl ReleaseRequest {
    /// The registry named by the request, if any.
    pub closed spec fn registry_spec(&self) -> Option<Seq<char>> {
        opt_chars(self.registry)
    }

    /// The token to publish with, if any.
    pub closed spec fn token_spec(&self) -> Option<Seq<char>> {
        opt_chars(self.token)
    }

    /// Whether the request is a dry run.
    pub closed spec fn dry_run_spec(&self) -> bool {
        self.dry_run
    }

    /// The repository URL named by the request, if any.
    pub closed spec fn repo_url_spec(&self) -> Option<Seq<char>> {
        opt_chars(self.repo_url)
    }

    /// Whether the request makes git releases.
    pub closed spec fn has_git_release(&self) -> bool {
        self.git_release is Some
    }

    /// The configurations are well formed (a package has at most one).
    pub closed spec fn well_formed(&self) -> bool {
        self.packages_config.overrides.well_formed()
    }

    /// The configuration that applies to the package named `name`.
    pub closed spec fn config_for(&self, name: Seq<char>) -> PackageReleaseConfig {
        self.packages_config.config_for(name)
    }

    /// How long to wait for each publication.
    pub closed spec fn publish_timeout_spec(&self) -> std::time::Duration {
        self.publish_timeout
    }

    /// The package named `name` has a configuration of its own.
    pub closed spec fn has_own_config(&self, name: Seq<char>) -> bool {
        self.packages_config.overrides@.contains_key(name)
    }

    /// A request to release the workspace of `metadata` with the default configuration,
    /// waiting at most 30 minutes for each publication.
    pub fn new(metadata: cargo_metadata::Metadata) -> (r: Self)
        ensures
            r.well_formed(),
            r.registry_spec().is_none(),
            r.token_spec().is_none(),
            !r.dry_run_spec(),
            !r.has_git_release(),
            r.repo_url_spec().is_none(),
            r.publish_timeout_spec() == duration_of_secs(1800),
            forall|name: Seq<char>| #[trigger] r.config_for(name).generic@ == default_release_config() && r.config_for(name).changelog_path.is_none(),
    {
        let minutes_30 = duration_from_secs(30 * 60);
        Self {
            metadata,
            registry: None,
            token: None,
            dry_run: false,
            git_release: None,
            repo_url: None,
            packages_config: PackagesConfig { default: PackageReleaseConfig::default(), overrides: Overrides::new() },
            publish_timeout: minutes_30,
        }
    }

    /// How long to wait for each publication.
    pub fn publish_timeout(&self) -> (r: std::time::Duration)
        ensures
            r == self.publish_timeout_spec(),
    {
        self.publish_timeout
    }

    pub fn with_registry(self, registry: String) -> (r: Self)
        ensures
            r.registry_spec() == Some(registry@),
            r.token_spec() == self.token_spec(),
            r.dry_run_spec() == self.dry_run_spec(),
            r.has_git_release() == self.has_git_release(),
            r.repo_url_spec() == self.repo_url_spec(),
            r.well_formed() == self.well_formed(),
            forall|name: Seq<char>| #[trigger] r.config_for(name) == self.config_for(name),
    {
        Self { registry: Some(registry), ..self }
    }

    pub fn with_token(self, token: String) -> (r: Self)
        ensures
            r.token_spec() == Some(token@),
            r.registry_spec() == self.registry_spec(),
            r.dry_run_spec() == self.dry_run_spec(),
            r.has_git_release() == self.has_git_release(),
            r.repo_url_spec() == self.repo_url_spec(),
            r.well_formed() == self.well_formed(),
            forall|name: Seq<char>| #[trigger] r.config_for(name) == self.config_for(name),
    {
        Self { token: Some(token), ..self }
    }

    pub fn with_dry_run(self, dry_run: bool) -> (r: Self)
        ensures
            r.dry_run_spec() == dry_run,
            r.registry_spec() == self.registry_spec(),
            r.token_spec() == self.token_spec(),
            r.has_git_release() == self.has_git_release(),
            r.repo_url_spec() == self.repo_url_spec(),
            r.well_formed() == self.well_formed(),
            forall|name: Seq<char>| #[trigger] r.config_for(name) == self.config_for(name),
    {
        Self { dry_run, ..self }
    }

    pub fn with_git_release(self, git_release: GitRelease) -> (r: Self)
        ensures
            r.has_git_release(),
            r.registry_spec() == self.registry_spec(),
            r.token_spec() == self.token_spec(),
            r.dry_run_spec() == self.dry_run_spec(),
            r.repo_url_spec() == self.repo_url_spec(),
            r.well_formed() == self.well_formed(),
            forall|name: Seq<char>| #[trigger] r.config_for(name) == self.config_for(name),
    {
        Self { git_release: Some(git_release), ..self }
    }

    pub fn with_repo_url(self, repo_url: String) -> (r: Self)
        ensures
            r.repo_url_spec() == Some(repo_url@),
            r.registry_spec() == self.registry_spec(),
            r.token_spec() == self.token_spec(),
            r.dry_run_spec() == self.dry_run_spec(),
            r.has_git_release() == self.has_git_release(),
            r.well_formed() == self.well_formed(),
            forall|name: Seq<char>| #[trigger] r.config_for(name) == self.config_for(name),
    {
        Self { repo_url: Some(repo_url), ..self }
    }

    /// Sets the release config of the packages without one of their own.
    pub fn with_default_package_config(self, config: ReleaseConfig) -> (r: Self)
        ensures
            r.well_formed() == self.well_formed(),
            forall|name: Seq<char>| !self.has_own_config(name) ==> #[trigger] r.config_for(name) == (PackageReleaseConfig { generic: config, changelog_path: None }),
            forall|name: Seq<char>| self.has_own_config(name) ==> #[trigger] r.config_for(name) == self.config_for(name),
            r.registry_spec() == self.registry_spec(),
            r.token_spec() == self.token_spec(),
            r.dry_run_spec() == self.dry_run_spec(),
            r.has_git_release() == self.has_git_release(),
            r.repo_url_spec() == self.repo_url_spec(),
    {
        let mut r = self;
        r.packages_config.default = PackageReleaseConfig::from(config);
        r
    }

    pub fn with_publish_timeout(self, timeout: std::time::Duration) -> (r: Self)
        ensures
            r.publish_timeout_spec() == timeout,
            r.registry_spec() == self.registry_spec(),
            r.token_spec() == self.token_spec(),
            r.dry_run_spec() == self.dry_run_spec(),
            r.has_git_release() == self.has_git_release(),
            r.repo_url_spec() == self.repo_url_spec(),
            r.well_formed() == self.well_formed(),
            forall|name: Seq<char>| #[trigger] r.config_for(name) == self.config_for(name),
    {
        Self { publish_timeout: timeout, ..self }
    }

    /// Set release config for a specific package.
    pub fn with_package_config(self, package: String, config: PackageReleaseConfig) -> (r: Self)
        requires
            self.well_formed(),
        ensures
            r.well_formed(),
            r.config_for(package@) == config,
            forall|name: Seq<char>| name != package@ ==> #[trigger] r.config_for(name) == self.config_for(name),
            r.registry_spec() == self.registry_spec(),
            r.token_spec() == self.token_spec(),
            r.dry_run_spec() == self.dry_run_spec(),
            r.has_git_release() == self.has_git_release(),
            r.repo_url_spec() == self.repo_url_spec(),
    {
        let mut r = self;
        r.packages_config.overrides.set(package, config);
        r
    }

    /// The release configuration of the package.
    pub fn get_package_config(&self, package: &str) -> (c: &PackageReleaseConfig)
        requires
            self.well_formed(),
        ensures
            *c == self.config_for(package@),
    {
        self.packages_config.get(package)
    }

    fn is_publish_enabled(&self, package: &str) -> (r: bool)
        requires
            self.well_formed(),
        ensures
            r == self.config_for(package@).generic@.publish,
    {
        self.get_package_config(package).generic.publish().is_enabled()
    }

    fn is_git_release_enabled(&self, package: &str) -> (r: bool)
        requires
            self.well_formed(),
        ensures
            r == self.config_for(package@).generic@.git_release.enabled,
    {
        self.get_package_config(package).generic.git_release().is_enabled()
    }

    fn is_git_tag_enabled(&self, package: &str) -> (r: bool)
        requires
            self.well_formed(),
        ensures
            r == self.config_for(package@).generic@.git_tag.enabled,
    {
        self.get_package_config(package).generic.git_tag.is_enabled()
    }

    pub fn allow_dirty(&self, package: &str) -> (r: bool)
        requires
            self.well_formed(),
        ensures
            r == self.config_for(package@).generic@.allow_dirty,
    {
        self.get_package_config(package).generic.allow_dirty
    }

    pub fn skip_build_check(&self, package: &str) -> (r: bool)
        requires
            self.well_formed(),
        ensures
            r == self.config_for(package@).generic@.skip_build_check,
    {
        self.get_package_config(package).generic.skip_build_check
    }

    pub fn features(&self, package: &str) -> (r: Vec<String>)
        requires
            self.well_formed(),
        ensures
            r.deep_view() == self.config_for(package@).generic@.features,
    {
        let features = &self.get_package_config(package).generic.features;
        let mut r: Vec<String> = Vec::new();
        let mut k: usize = 0;
        while k < features.len()
            invariant
                k <= features@.len(),
                r.deep_view() == features.deep_view().take(k as int),
            decreases features.len() - k,
        {
            r.push(features[k].clone());
            assert(features.deep_view().take(k + 1) == features.deep_view().take(k as int).push(features@[k as int]@));
            k += 1;
        }
        assert(features.deep_view().take(features@.len() as int) == features.deep_view());
        r
    }

    /// What the release needs of the package: nothing when it is not released, else the
    /// templates of its git tag and of its git release.
    pub fn get_release_metadata(&self, package_name: &str) -> (r: Option<ReleaseMetadata>)
        requires
            self.well_formed(),
        ensures
            match r {
                Some(m) => {
                    &&& self.config_for(package_name@).generic@.release
                    &&& opt_chars(m.tag_name_template) == self.config_for(package_name@).generic@.git_tag.name_template
                    &&& opt_chars(m.release_name_template) == self.config_for(package_name@).generic@.git_release.name_template
                },
                None => !self.config_for(package_name@).generic@.release,
            },
    {
        let config = &self.get_package_config(package_name).generic;
        if config.release {
            Some(ReleaseMetadata {
                tag_name_template: copy_opt_string(&config.git_tag.name_template),
                release_name_template: copy_opt_string(&config.git_release.name_template),
            })
        } else {
            None
        }
    }
}

/// A copy of an optional string.
fn copy_opt_string(s: &Option<String>) -> (r: Option<String>)
    ensures
        opt_chars(r) == opt_chars(*s),
{
    match s {
        Some(t) => Some(t.clone()),
        None => None,
    }
}

/// The arguments of `cargo publish` for a package: the manifest, then the registry and the
/// token when given, then the flags that the configuration asks for, then the features joined
/// by commas when there are any.
pub open spec fn publish_args_spec(
    manifest_path: Seq<char>,
    registry: Option<Seq<char>>,
    token: Option<Seq<char>>,
    dry_run: bool,
    allow_dirty: bool,
    skip_build_check: bool,
    features: Seq<Seq<char>>,
) -> Seq<Seq<char>> {
    seq!["publish"@, "--color"@, "always"@, "--manifest-path"@, manifest_path]
        + match registry {
        Some(r) => seq!["--registry"@, r],
        None => Seq::empty(),
    } + match token {
        Some(t) => seq!["--token"@, t],
        None => Seq::empty(),
    } + if dry_run {
        seq!["--dry-run"@]
    } else {
        Seq::empty()
    } + if allow_dirty {
        seq!["--allow-dirty"@]
    } else {
        Seq::empty()
    } + if skip_build_check {
        seq!["--no-verify"@]
    } else {
        Seq::empty()
    } + if join(features, ","@).len() > 0 {
        seq!["--features"@, join(features, ","@)]
    } else {
        Seq::empty()
    }
}

/// A string holding `s`.
fn owned(s: &str) -> (r: String)
    ensures
        r@ == s@,
{
    let mut r = String::new();
    push_str(&mut r, s);
    r
}

/// `cargo publish` succeeded: it exited with success, uploaded, and reported no error.
pub open spec fn publish_succeeded_spec(success: bool, stderr: Seq<char>) -> bool {
    success && contains_seq(stderr, "Uploading"@) && !contains_seq(stderr, "error:"@)
}

/// Whether `cargo publish` succeeded, given its exit status and its standard error.
pub fn publish_succeeded(success: bool, stderr: &str) -> (r: bool)
    ensures
        r == publish_succeeded_spec(success, stderr@),
{
    success && str_contains(stderr, "Uploading") && !str_contains(stderr, "error:")
}

/// An empty `CARGO_REGISTRY_TOKEN` in GitHub actions means that the token secret was not set.
pub open spec fn registry_token_missing_spec(is_github_actions: bool, token_env: Option<Seq<char>>) -> bool {
    is_github_actions && match token_env {
        Some(t) => t.len() == 0,
        None => false,
    }
}

/// Return `Err` if the `CARGO_REGISTRY_TOKEN` environment variable is set to an empty string in CI.
/// Reason:
/// - If the token is set to an empty string, probably the user forgot to set the
///   secret in GitHub actions.
///   It is important to only check this before running a release because
///   for bots like dependabot, secrets are not visible. So, there are PRs that don't
///   need a release that don't have the token set.
/// - If the token is unset, the user might want to log in to the registry
///   with `cargo login`. Don't throw an error in this case.
///
/// `is_github_actions` tells whether `GITHUB_ACTIONS` is set, and `token_env` is the value of
/// `CARGO_REGISTRY_TOKEN`.
pub fn verify_ci_cargo_registry_token(is_github_actions: bool, token_env: Option<&str>) -> (r: Result<(), String>)
    ensures
        r is Err <==> registry_token_missing_spec(is_github_actions, match token_env {
            Some(t) => Some(t@),
            None => None,
        }),
        r matches Err(e) ==> e@ == "CARGO_REGISTRY_TOKEN environment variable is set to empty string. Please set your token in GitHub actions secrets. Docs: https://marcoieni.github.io/release-plz/github/index.html"@,
{
    let is_token_empty = match token_env {
        Some(t) => t.is_empty(),
        None => false,
    };
    if is_github_actions && is_token_empty {
        Err(owned("CARGO_REGISTRY_TOKEN environment variable is set to empty string. Please set your token in GitHub actions secrets. Docs: https://marcoieni.github.io/release-plz/github/index.html"))
    } else {
        Ok(())
    }
}

/// The registries to publish to: the one of the request if given, else those of the package
/// manifest (none when it names none).
pub open spec fn registries_spec(registry: Option<Seq<char>>, publish: Option<Seq<Seq<char>>>) -> Seq<Seq<char>> {
    match registry {
        Some(r) => seq![r],
        None => match publish {
            Some(p) => p,
            None => Seq::empty(),
        },
    }
}

impl ReleaseRequest {
    /// The registries to publish the package to, given the `publish` field of its manifest.
    pub fn registries(&self, publish: &Option<Vec<String>>) -> (r: Vec<String>)
        ensures
            r.deep_view() == registries_spec(self.registry_spec(), match publish {
                Some(p) => Some(p.deep_view()),
                None => None,
            }),
    {
        let mut r: Vec<String> = Vec::new();
        match &self.registry {
            Some(reg) => {
                r.push(reg.clone());
                assert(r.deep_view() =~= seq![reg@]);
            },
            None => {
                if let Some(p) = publish {
                    let mut k: usize = 0;
                    while k < p.len()
                        invariant
                            k <= p@.len(),
                            r.deep_view() == p.deep_view().take(k as int),
                        decreases p.len() - k,
                    {
                        r.push(p[k].clone());
                        assert(p.deep_view().take(k + 1) == p.deep_view().take(k as int).push(p@[k as int]@));
                        k += 1;
                    }
                    assert(p.deep_view().take(p@.len() as int) == p.deep_view());
                } else {
                    assert(r.deep_view() =~= Seq::<Seq<char>>::empty());
                }
            },
        }
        r
    }

    /// The arguments of `cargo publish` for the package named `package` with the manifest at
    /// `manifest_path`.
    #[verifier::rlimit(50)]
    pub fn cargo_publish_args(&self, package: &str, manifest_path: &str) -> (args: Vec<String>)
        requires
            self.well_formed(),
        ensures
            args.deep_view() == publish_args_spec(
                manifest_path@,
                self.registry_spec(),
                self.token_spec(),
                self.dry_run_spec(),
                self.config_for(package@).generic@.allow_dirty,
                self.config_for(package@).generic@.skip_build_check,
                self.config_for(package@).generic@.features,
            ),
    {
        let mut args: Vec<String> = Vec::new();
        args.push(owned("publish"));
        args.push(owned("--color"));
        args.push(owned("always"));
        args.push(owned("--manifest-path"));
        args.push(owned(manifest_path));
        let ghost a1 = args.deep_view();
        assert(a1 =~= seq!["publish"@, "--color"@, "always"@, "--manifest-path"@, manifest_path@]);
        if let Some(registry) = &self.registry {
            args.push(owned("--registry"));
            args.push(registry.clone());
        }
        let ghost a2 = args.deep_view();
        assert(a2 =~= a1 + match self.registry_spec() {
            Some(r) => seq!["--registry"@, r],
            None => Seq::empty(),
        });
        if let Some(token) = &self.token {
            args.push(owned("--token"));
            args.push(token.clone());
        }
        let ghost a3 = args.deep_view();
        assert(a3 =~= a2 + match self.token_spec() {
            Some(t) => seq!["--token"@, t],
            None => Seq::empty(),
        });
        if self.dry_run {
            args.push(owned("--dry-run"));
        }
        let ghost a4 = args.deep_view();
        assert(a4 =~= a3 + if self.dry_run_spec() { seq!["--dry-run"@] } else { Seq::empty() });
        let allow_dirty = self.allow_dirty(package);
        if allow_dirty {
            args.push(owned("--allow-dirty"));
        }
        let ghost a5 = args.deep_view();
        assert(a5 =~= a4 + if allow_dirty { seq!["--allow-dirty"@] } else { Seq::empty() });
        let skip = self.skip_build_check(package);
        if skip {
            args.push(owned("--no-verify"));
        }
        let ghost a6 = args.deep_view();
        assert(a6 =~= a5 + if skip { seq!["--no-verify"@] } else { Seq::empty() });
        let features = join_strings(&self.features(package), ",");
        if !features.as_str().is_empty() {
            args.push(owned("--features"));
            args.push(features);
        }
        let ghost a7 = args.deep_view();
        let ghost f = join(self.config_for(package@).generic@.features, ","@);
        assert(a7 =~= a6 + if f.len() > 0 { seq!["--features"@, f] } else { Seq::empty() });
        args
    }

    /// What the git release of a package is made of: its tag, name and body, and whether it is
    /// a draft and a pre-release, as the configuration of the package says.
    pub fn git_release_info(
        &self,
        package: &str,
        version: &Version,
        git_tag: String,
        release_name: String,
        release_body: String,
    ) -> (info: GitReleaseInfo)
        requires
            self.well_formed(),
        ensures
            info.git_tag == git_tag,
            info.release_name == release_name,
            info.release_body == release_body,
            info.draft == self.config_for(package@).generic@.git_release.draft,
            info.pre_release == is_pre_release_spec(self.config_for(package@).generic@.git_release.release_type, version@),
    {
        let release_config = self.get_package_config(package).generic.git_release();
        let pre_release = release_config.is_pre_release(version);
        GitReleaseInfo { git_tag, release_name, release_body, draft: release_config.draft, pre_release }
    }
}

/// The body of the git release: the last changes of the changelog, or nothing when the
/// changelog has none or cannot be parsed.
pub fn release_body(last_changes: Result<Option<String>, String>) -> (body: String)
    ensures
        body@ == match last_changes {
            Ok(Some(changes)) => changes@,
            _ => Seq::<char>::empty(),
        },
{
    match last_changes {
        Ok(Some(changes)) => changes,
        _ => String::new(),
    }
}

/// The steps of the release of a package, in order: publish it, wait until the registry has
/// it, tag it, make its git release.
#[derive(Debug, PartialEq, Eq, Structural)]
pub struct ReleaseSteps {
    pub publish: bool,
    pub wait_until_published: bool,
    pub tag: bool,
    pub git_release: bool,
}

impl ReleaseRequest {
    /// The steps of the release of the package named `package`: a dry run only publishes
    /// (with `--dry-run`); otherwise each step runs when the configuration of the package
    /// enables it, waiting for the registry only after publishing.
    pub fn release_steps(&self, package: &str) -> (r: ReleaseSteps)
        requires
            self.well_formed(),
        ensures
            r.publish == self.config_for(package@).generic@.publish,
            r.wait_until_published == (!self.dry_run_spec() && r.publish),
            r.tag == (!self.dry_run_spec() && self.config_for(package@).generic@.git_tag.enabled),
            r.git_release == (!self.dry_run_spec() && self.config_for(package@).generic@.git_release.enabled),
    {
        let publish = self.is_publish_enabled(package);
        if self.dry_run {
            ReleaseSteps { publish, wait_until_published: false, tag: false, git_release: false }
        } else {
            ReleaseSteps {
                publish,
                wait_until_published: publish,
                tag: self.is_git_tag_enabled(package),
                git_release: self.is_git_release_enabled(package),
            }
        }
    }

    /// The backend of the git release, or the error of a request that makes none.
    pub fn git_release_backend(&self) -> (r: Result<&GitBackend, String>)
        ensures
            r is Ok <==> self.has_git_release(),
            r matches Err(e) ==> e@ == "git release not configured. Did you specify git-token and backend?"@,
    {
        match &self.git_release {
            Some(g) => Ok(&g.backend),
            None => Err(owned("git release not configured. Did you specify git-token and backend?")),
        }
    }
}

/// The arguments of `cargo publish` start with the command, colors and the manifest path; a
/// registry, when one is named, follows as `--registry <name>`; a token, whenever there is one
/// (with or without a registry), appears as `--token <token>`; and each of the dry run, the
/// allowed dirty directory and the skipped build check adds its flag.
pub proof fn law_publish_args_carry_the_request(
    manifest_path: Seq<char>,
    registry: Option<Seq<char>>,
    token: Option<Seq<char>>,
    dry_run: bool,
    allow_dirty: bool,
    skip_build_check: bool,
    features: Seq<Seq<char>>,
)
    ensures
        ({
            let a = publish_args_spec(manifest_path, registry, token, dry_run, allow_dirty, skip_build_check, features);
            &&& a.len() >= 5
            &&& a[0] == "publish"@ && a[1] == "--color"@ && a[2] == "always"@ && a[3] == "--manifest-path"@
            &&& a[4] == manifest_path
            &&& registry matches Some(r) ==> a.len() >= 7 && a[5] == "--registry"@ && a[6] == r
            &&& token matches Some(t) ==> exists|i: int| 5 <= i && i + 1 < a.len() && #[trigger] a[i] == "--token"@ && a[i + 1] == t
            &&& dry_run ==> a.contains("--dry-run"@)
            &&& allow_dirty ==> a.contains("--allow-dirty"@)
            &&& skip_build_check ==> a.contains("--no-verify"@)
        }),
{
    let a = publish_args_spec(manifest_path, registry, token, dry_run, allow_dirty, skip_build_check, features);
    let p0 = seq!["publish"@, "--color"@, "always"@, "--manifest-path"@, manifest_path];
    let pr = match registry {
        Some(r) => seq!["--registry"@, r],
        None => Seq::<Seq<char>>::empty(),
    };
    let pt = match token {
        Some(t) => seq!["--token"@, t],
        None => Seq::<Seq<char>>::empty(),
    };
    let pd = if dry_run { seq!["--dry-run"@] } else { Seq::<Seq<char>>::empty() };
    let pa = if allow_dirty { seq!["--allow-dirty"@] } else { Seq::<Seq<char>>::empty() };
    let ps = if skip_build_check { seq!["--no-verify"@] } else { Seq::<Seq<char>>::empty() };
    let pf = if join(features, ","@).len() > 0 {
        seq!["--features"@, join(features, ","@)]
    } else {
        Seq::<Seq<char>>::empty()
    };
    assert(a == p0 + pr + pt + pd + pa + ps + pf);
    let base = p0 + pr;
    assert(a[0] == p0[0] && a[1] == p0[1] && a[2] == p0[2] && a[3] == p0[3] && a[4] == p0[4]);
    if registry is Some {
        assert(a[5] == pr[0] && a[6] == pr[1]);
    }
    if token is Some {
        let i = base.len() as int;
        assert(a[i] == pt[0] && a[i + 1] == pt[1]);
    }
    if dry_run {
        let i = (base + pt).len() as int;
        assert(a[i] == "--dry-run"@);
    }
    if allow_dirty {
        let i = (base + pt + pd).len() as int;
        assert(a[i] == "--allow-dirty"@);
    }
    if skip_build_check {
        let i = (base + pt + pd + pa).len() as int;
        assert(a[i] == "--no-verify"@);
    }
}

} // verus!
