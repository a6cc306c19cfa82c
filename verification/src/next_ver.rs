//! Configuration of the update of the packages, and what the release needs of each package.
use vstd::prelude::*;
use crate::overrides::Overrides;
use crate::package::{Package, Target};
use crate::changelog_parser::{last_release_field, last_version_from_str};
use crate::diff::{Commit, CommitView};
use crate::regex_text::{regex_replace_all, regex_replace_all_outcome};
use crate::text::{join, join_strings, opt_chars, push_str, str_equal};

verus! {

#[verifier::external_type_specification]
#[verifier::external_body]
pub struct ExUtf8PathBuf(cargo_metadata::camino::Utf8PathBuf);

/// Templates of the git tag and the git release of a package.
#[derive(Debug)]
pub struct ReleaseMetadata {
    /// Template for the git tag created by release-plz.
    pub tag_name_template: Option<String>,
    /// Template for the git release name created by release-plz.
    pub release_name_template: Option<String>,
}

/// Tells, for a package, whether it is released and with which templates.
pub trait ReleaseMetadataBuilder {
    fn get_release_metadata(&self, package_name: &str) -> Option<ReleaseMetadata>;
}

/// How a package is updated.
#[derive(Debug, Clone, PartialEq, Eq)]
pub struct UpdateConfig {
    /// This path needs to be a relative path to the Cargo.toml of the project.
    /// I.e. if you have a workspace, it needs to be relative to the workspace root.
    pub changelog_path: Option<cargo_metadata::camino::Utf8PathBuf>,
    /// Controls when to run cargo-semver-checks.
    /// Note: You can only run cargo-semver-checks if the package contains a library.
    ///       For example, if it has a `lib.rs` file.
    pub semver_check: bool,
    /// Whether to create/update changelog or not.
    /// Default: `true`.
    pub changelog_update: bool,
    /// Whether to use git tags instead of the Cargo registry to determine package versions.
    /// Default: `false`.
    pub git_only: bool,
    /// High-level toggle to process this package or ignore it.
    pub release: bool,
    /// - If `true`, feature commits will always bump the minor version, even in 0.x releases.
    /// - If `false` (default), feature commits will only bump the minor version starting with 1.x releases.
    pub features_always_increment_minor: bool,
    /// Template for the git tag created by release-plz.
    pub tag_name_template: Option<String>,
}

/// The default update configuration: check semver, update the changelog, read versions from
/// the registry, release the package.
pub open spec fn is_default_update_config(c: UpdateConfig) -> bool {
    &&& c.changelog_path.is_none()
    &&& c.semver_check
    &&& c.changelog_update
    &&& !c.git_only
    &&& c.release
    &&& !c.features_always_increment_minor
    &&& c.tag_name_template.is_none()
}

impl Default for UpdateConfig {
    fn default() -> (c: Self)
        ensures
            is_default_update_config(c),
    {
        Self {
            semver_check: true,
            changelog_update: true,
            git_only: false,
            release: true,
            features_always_increment_minor: false,
            tag_name_template: None,
            changelog_path: None,
        }
    }
}

impl UpdateConfig {
    pub fn with_semver_check(self, semver_check: bool) -> (c: Self)
        ensures
            c == (UpdateConfig { semver_check, ..self }),
    {
        Self { semver_check, ..self }
    }

    pub fn with_features_always_increment_minor(self, features_always_increment_minor: bool) -> (c: Self)
        ensures
            c == (UpdateConfig { features_always_increment_minor, ..self }),
    {
        Self { features_always_increment_minor, ..self }
    }

    pub fn with_changelog_update(self, changelog_update: bool) -> (c: Self)
        ensures
            c == (UpdateConfig { changelog_update, ..self }),
    {
        Self { changelog_update, ..self }
    }

    pub fn with_git_only(self, git_only: bool) -> (c: Self)
        ensures
            c == (UpdateConfig { git_only, ..self }),
    {
        Self { git_only, ..self }
    }
}

/// Package-specific config
#[derive(Debug, Clone, PartialEq, Eq)]
pub struct PackageUpdateConfig {
    /// config that can be applied by default to all packages.
    pub generic: UpdateConfig,
    /// List of package names.
    /// Include the changelogs of these packages in the changelog of the current package.
    pub changelog_include: Vec<String>,
    pub version_group: Option<String>,
}

impl Default for PackageUpdateConfig {
    fn default() -> (c: Self)
        ensures
            is_default_update_config(c.generic),
            c.changelog_include@.len() == 0,
            c.version_group.is_none(),
    {
        Self { generic: UpdateConfig::default(), changelog_include: Vec::new(), version_group: None }
    }
}

impl PackageUpdateConfig {
    pub fn semver_check(&self) -> (r: bool)
        ensures
            r == self.generic.semver_check,
    {
        self.generic.semver_check
    }

    pub fn should_update_changelog(&self) -> (r: bool)
        ensures
            r == self.generic.changelog_update,
    {
        self.generic.changelog_update
    }

    pub fn git_only(&self) -> (r: bool)
        ensures
            r == self.generic.git_only,
    {
        self.generic.git_only
    }

    /// What the release needs of the package: nothing when it is not released, else its tag
    /// template (the update sets no release name template).
    pub fn release_metadata(&self) -> (r: Option<ReleaseMetadata>)
        ensures
            match r {
                Some(m) => self.generic.release && opt_chars(m.tag_name_template) == opt_chars(
                    self.generic.tag_name_template,
                ) && m.release_name_template.is_none(),
                None => !self.generic.release,
            },
    {
        if self.generic.release {
            let tag_name_template = match &self.generic.tag_name_template {
                Some(t) => Some(t.clone()),
                None => None,
            };
            Some(ReleaseMetadata { tag_name_template, release_name_template: None })
        } else {
            None
        }
    }
}

/// The update configuration of each package: one by default, and some packages with their
/// own.
#[derive(Debug, Clone)]
pub struct PackagesConfig {
    /// Config for packages that don't have a specific configuration.
    default: PackageUpdateConfig,
    /// Configurations that override `default`. The key is the package name.
    overrides: Overrides<PackageUpdateConfig>,
}

impl PackagesConfig {
    pub closed spec fn well_formed(&self) -> bool {
        self.overrides.well_formed()
    }

    /// The configuration for packages without their own.
    pub closed spec fn default_config(&self) -> PackageUpdateConfig {
        self.default
    }

    /// The package names with a configuration of their own, and their configurations.
    pub closed spec fn overrides_map(&self) -> Map<Seq<char>, PackageUpdateConfig> {
        self.overrides@
    }

    /// The configuration that applies to the package named `name`.
    pub open spec fn config_for(&self, name: Seq<char>) -> PackageUpdateConfig {
        if self.overrides_map().contains_key(name) {
            self.overrides_map()[name]
        } else {
            self.default_config()
        }
    }

    /// A configuration with the default update config for every package.
    pub fn new() -> (c: Self)
        ensures
            c.well_formed(),
            is_default_update_config(c.default_config().generic),
            c.default_config().changelog_include@.len() == 0,
            c.default_config().version_group.is_none(),
            c.overrides_map() == Map::<Seq<char>, PackageUpdateConfig>::empty(),
    {
        PackagesConfig { default: PackageUpdateConfig::default(), overrides: Overrides::new() }
    }

    /// The configuration of the package named `package_name`.
    pub fn get(&self, package_name: &str) -> (c: &PackageUpdateConfig)
        requires
            self.well_formed(),
        ensures
            *c == self.config_for(package_name@),
    {
        match self.overrides.get(package_name) {
            Some(c) => c,
            None => &self.default,
        }
    }

    /// Sets the configuration of the packages without one of their own.
    pub fn set_default(&mut self, config: UpdateConfig)
        ensures
            final(self).well_formed() == old(self).well_formed(),
            final(self).default_config().generic == config,
            final(self).default_config().changelog_include@.len() == 0,
            final(self).default_config().version_group.is_none(),
            final(self).overrides_map() == old(self).overrides_map(),
    {
        self.default = PackageUpdateConfig { generic: config, changelog_include: Vec::new(), version_group: None };
    }

    /// Sets the configuration of the package named `package_name`, replacing the one it had.
    pub fn set(&mut self, package_name: String, config: PackageUpdateConfig)
        requires
            old(self).well_formed(),
        ensures
            final(self).well_formed(),
            final(self).default_config() == old(self).default_config(),
            final(self).overrides_map() == old(self).overrides_map().insert(package_name@, config),
    {
        self.overrides.set(package_name, config);
    }

    /// What the release needs of the package named `package_name`.
    pub fn get_release_metadata(&self, package_name: &str) -> (r: Option<ReleaseMetadata>)
        requires
            self.well_formed(),
        ensures
            match r {
                Some(m) => self.config_for(package_name@).generic.release && opt_chars(m.tag_name_template)
                    == opt_chars(self.config_for(package_name@).generic.tag_name_template)
                    && m.release_name_template.is_none(),
                None => !self.config_for(package_name@).generic.release,
            },
    {
        self.get(package_name).release_metadata()
    }
}

/// All targets of `p` are examples.
pub open spec fn is_example_package(p: Package) -> bool {
    forall|t: int| 0 <= t < p.targets@.len() ==> #[trigger] p.targets@[t].kind.deep_view() == seq!["example"@]
}

/// Some target of `p` is a library.
pub open spec fn is_library(p: Package) -> bool {
    exists|t: int| 0 <= t < p.targets@.len() && #[trigger] p.targets@[t].kind.deep_view().contains("lib"@)
}

/// `p` can be published to at least one registry: it names registries, or names none and is
/// not made of examples only.
pub open spec fn is_publishable_spec(p: Package) -> bool {
    match p.publish {
        Some(registries) => registries@.len() > 0,
        None => !is_example_package(p),
    }
}

/// Whether the target has exactly the kind `example`.
fn is_example_target(t: &Target) -> (r: bool)
    ensures
        r == (t.kind.deep_view() == seq!["example"@]),
{
    if t.kind.len() == 1 && str_equal(t.kind[0].as_str(), "example") {
        assert(t.kind.deep_view() =~= seq!["example"@]);
        true
    } else {
        proof {
            if t.kind.deep_view() == seq!["example"@] {
                assert(t.kind.deep_view().len() == 1);
                assert(t.kind.deep_view()[0] == t.kind@[0]@);
                assert(t.kind.deep_view()[0] == "example"@);
            }
        }
        false
    }
}

/// Whether all targets of the package are examples.
pub fn is_example(package: &Package) -> (r: bool)
    ensures
        r == is_example_package(*package),
{
    let mut t: usize = 0;
    while t < package.targets.len()
        invariant
            t <= package.targets@.len(),
            forall|t2: int| 0 <= t2 < t ==> #[trigger] package.targets@[t2].kind.deep_view() == seq!["example"@],
        decreases package.targets.len() - t,
    {
        if !is_example_target(&package.targets[t]) {
            return false;
        }
        t += 1;
    }
    true
}

/// Whether the package has a library target.
pub fn has_library(package: &Package) -> (r: bool)
    ensures
        r == is_library(*package),
{
    let mut t: usize = 0;
    while t < package.targets.len()
        invariant
            t <= package.targets@.len(),
            forall|t2: int| 0 <= t2 < t ==> !#[trigger] package.targets@[t2].kind.deep_view().contains("lib"@),
        decreases package.targets.len() - t,
    {
        let kinds = &package.targets[t].kind;
        let mut k: usize = 0;
        while k < kinds.len()
            invariant
                t < package.targets@.len(),
                *kinds == package.targets@[t as int].kind,
                k <= kinds@.len(),
                forall|k2: int| 0 <= k2 < k ==> kinds.deep_view()[k2] != "lib"@,
            decreases kinds.len() - k,
        {
            if str_equal(kinds[k].as_str(), "lib") {
                assert(kinds.deep_view()[k as int] == "lib"@);
                assert(package.targets@[t as int].kind.deep_view().contains("lib"@));
                return true;
            }
            k += 1;
        }
        assert(!kinds.deep_view().contains("lib"@)) by {
            if kinds.deep_view().contains("lib"@) {
                let k2 = choose|k2: int| 0 <= k2 < kinds.deep_view().len() && kinds.deep_view()[k2] == "lib"@;
                assert(kinds.deep_view()[k2] != "lib"@);
            }
        }
        t += 1;
    }
    false
}

/// Packages that can be published.
pub trait Publishable {
    fn is_publishable(&self) -> bool;
}

impl Publishable for Package {
    /// Return true if the package can be published to at least one register (e.g. crates.io).
    fn is_publishable(&self) -> (r: bool)
        ensures
            r == is_publishable_spec(*self),
    {
        match &self.publish {
            // `publish.is_empty()` is:
            // - true: when `publish` in Cargo.toml is `[]` or `false`.
            // - false: when the package can be published only to certain registries.
            //          E.g. when `publish` in Cargo.toml is `["my-reg"]` or `true`.
            Some(publish) => publish.len() > 0,
            // If it's not an example, the package can be published anywhere
            None => !is_example(self),
        }
    }
}

/// The first line of `s`, as `str::lines` gives it: up to the first `\n`, without a `\r`
/// just before it; none for an empty string.
pub open spec fn first_line_spec(s: Seq<char>) -> Option<Seq<char>> {
    if s.len() == 0 {
        None
    } else if exists|i: int| 0 <= i < s.len() && s[i] == '\n' {
        let i = choose|i: int| 0 <= i < s.len() && s[i] == '\n' && forall|j: int| 0 <= j < i ==> s[j] != '\n';
        let line = s.take(i);
        Some(if line.len() > 0 && line.last() == '\r' { line.drop_last() } else { line })
    } else {
        Some(s)
    }
}

/// The first line of `s` (see [`first_line_spec`]).
pub fn first_line(s: &str) -> (r: Option<String>)
    ensures
        opt_chars(r) == first_line_spec(s@),
{
    let cs = crate::text::chars_of(s);
    if cs.len() == 0 {
        return None;
    }
    let mut i: usize = 0;
    while i < cs.len()
        invariant
            i <= cs@.len(),
            cs@ == s@,
            forall|j: int| 0 <= j < i ==> cs@[j] != '\n',
        decreases cs.len() - i,
    {
        if cs[i] == '\n' {
            let mut end = i;
            if end > 0 && cs[end - 1] == '\r' {
                end = end - 1;
            }
            let mut line: Vec<char> = Vec::new();
            let mut k: usize = 0;
            while k < end
                invariant
                    k <= end <= i < cs@.len(),
                    line@ == cs@.take(k as int),
                decreases end - k,
            {
                line.push(cs[k]);
                assert(cs@.take(k + 1) == cs@.take(k as int).push(cs@[k as int]));
                k += 1;
            }
            proof {
                let w = choose|w: int| 0 <= w < s@.len() && s@[w] == '\n' && forall|j: int| 0 <= j < w ==> s@[j] != '\n';
                if w < i {
                    assert(cs@[w] != '\n');
                } else if w > i {
                    assert(s@[i as int] != '\n');
                }
                let taken = s@.take(i as int);
                if end < i {
                    assert(cs@.take(end as int) == taken.drop_last());
                } else {
                    assert(cs@.take(end as int) == taken);
                }
            }
            return Some(crate::text::string_from_chars(line.as_slice()));
        }
        i += 1;
    }
    Some(crate::text::string_from_chars(cs.as_slice()))
}

/// A reference to a pull request or issue in a commit message: `#123`.
pub const PR_NUMBER_PATTERN: &'static str = r"#(\d+)";

/// What replaces `#123` in a commit message: a link `[#123]({pr_link}/123)`.
pub open spec fn pr_link_replacement(pr_link: Seq<char>) -> Seq<char> {
    "[#$1]("@ + pr_link + "/$1)"@
}

/// The message of a commit in the changelog: only the first line of a message that does not
/// follow the conventional commits (none when the message is empty), with each `#123` made a
/// link to the pull request when a link is known.
pub open spec fn changelog_message_spec(message: Seq<char>, is_conventional: bool, pr_link: Option<Seq<char>>) -> Option<Seq<char>> {
    let kept = if is_conventional { Some(message) } else { first_line_spec(message) };
    match kept {
        None => None,
        Some(m) => match pr_link {
            None => Some(m),
            Some(link) => match regex_replace_all_outcome(PR_NUMBER_PATTERN@, m, pr_link_replacement(link)) {
                Ok(replaced) => Some(replaced),
                Err(_) => Some(m),
            },
        },
    }
}

/// The commits of the changelog, in order: each commit with its message as
/// [`changelog_message_spec`] makes it, the commits whose message is dropped left out.
pub open spec fn changelog_commits_spec(commits: Seq<CommitView>, conventional: Seq<bool>, pr_link: Option<Seq<char>>) -> Seq<CommitView>
    decreases commits.len(),
{
    if commits.len() == 0 {
        Seq::empty()
    } else {
        let n = commits.len() - 1;
        changelog_commits_spec(commits.take(n), conventional.take(n), pr_link) + match changelog_message_spec(commits[n].1, conventional[n], pr_link) {
            Some(m) => seq![(commits[n].0, m)],
            None => Seq::empty(),
        }
    }
}

/// The message of a commit in the changelog (see [`changelog_message_spec`]).
pub fn changelog_message(message: &str, is_conventional: bool, pr_link: Option<&str>) -> (r: Option<String>)
    ensures
        opt_chars(r) == changelog_message_spec(message@, is_conventional, match pr_link {
            Some(l) => Some(l@),
            None => None,
        }),
{
    let kept = if is_conventional {
        let mut m = String::new();
        push_str(&mut m, message);
        m
    } else {
        match first_line(message) {
            Some(line) => line,
            None => {
                return None;
            },
        }
    };
    match pr_link {
        None => Some(kept),
        Some(link) => {
            let mut replacement = String::new();
            push_str(&mut replacement, "[#$1](");
            push_str(&mut replacement, link);
            push_str(&mut replacement, "/$1)");
            match regex_replace_all(PR_NUMBER_PATTERN, kept.as_str(), replacement.as_str()) {
                Ok(replaced) => Some(replaced),
                Err(_) => Some(kept),
            }
        },
    }
}

/// The commits of the changelog (see [`changelog_commits_spec`]); `conventional` tells, for
/// each commit, whether its message follows the conventional commits.
pub fn changelog_commits(commits: &Vec<Commit>, conventional: &Vec<bool>, pr_link: Option<&str>) -> (r: Vec<Commit>)
    requires
        conventional@.len() == commits@.len(),
    ensures
        crate::diff::commits_view(r@) == changelog_commits_spec(crate::diff::commits_view(commits@), conventional@, match pr_link {
            Some(l) => Some(l@),
            None => None,
        }),
{
    let ghost cv = crate::diff::commits_view(commits@);
    let ghost link = match pr_link {
        Some(l) => Some(l@),
        None => None,
    };
    let mut r: Vec<Commit> = Vec::new();
    let mut k: usize = 0;
    while k < commits.len()
        invariant
            k <= commits@.len(),
            conventional@.len() == commits@.len(),
            cv == crate::diff::commits_view(commits@),
            link == match pr_link {
                Some(l) => Some(l@),
                None => None::<Seq<char>>,
            },
            crate::diff::commits_view(r@) == changelog_commits_spec(cv.take(k as int), conventional@.take(k as int), link),
        decreases commits.len() - k,
    {
        proof {
            assert(cv.take(k + 1).take(k as int) == cv.take(k as int));
            assert(conventional@.take(k + 1).take(k as int) == conventional@.take(k as int));
            assert(cv.take(k + 1)[k as int] == commits@[k as int]@);
            assert(conventional@.take(k + 1)[k as int] == conventional@[k as int]);
        }
        let ghost before = crate::diff::commits_view(r@);
        match changelog_message(commits[k].message.as_str(), conventional[k], pr_link) {
            Some(m) => {
                let ghost mv = m@;
                r.push(Commit { id: commits[k].id.clone(), message: m });
                assert(crate::diff::commits_view(r@) == before.push((commits@[k as int].id@, mv)));
            },
            None => {},
        }
        k += 1;
    }
    assert(cv.take(commits@.len() as int) == cv);
    assert(conventional@.take(commits@.len() as int) == conventional@);
    r
}

/// The message of the commit that records an update of dependencies: of the manifest first,
/// else of the lockfile; none when neither changed.
pub open spec fn dependencies_update_message_spec(toml_updated: bool, lock_updated: bool) -> Option<Seq<char>> {
    if toml_updated {
        Some("chore: update Cargo.toml dependencies"@)
    } else if lock_updated {
        Some("chore: update Cargo.lock dependencies"@)
    } else {
        None
    }
}

/// The message of the commit that records an update of dependencies, if any.
pub fn dependencies_update_message(toml_updated: bool, lock_updated: bool) -> (r: Option<String>)
    ensures
        opt_chars(r) == dependencies_update_message_spec(toml_updated, lock_updated),
{
    let mut m = String::new();
    if toml_updated {
        push_str(&mut m, "chore: update Cargo.toml dependencies");
        Some(m)
    } else if lock_updated {
        push_str(&mut m, "chore: update Cargo.lock dependencies");
        Some(m)
    } else {
        None
    }
}

/// The message of the commit of a package updated because local packages it depends on were.
pub fn updated_packages_message(deps: &Vec<String>) -> (r: String)
    ensures
        r@ == "chore: updated the following local packages: "@ + join(deps.deep_view(), ", "@),
{
    let mut r = String::new();
    push_str(&mut r, "chore: updated the following local packages: ");
    let list = join_strings(deps, ", ");
    push_str(&mut r, list.as_str());
    r
}

/// What to do with the changelog of a package.
#[derive(Debug)]
pub enum ChangelogPlan {
    /// Keep the old changelog: it already has the next version.
    KeepOld,
    /// Build the entry of the next version, after the given previous version if any.
    Build { previous_version: Option<String> },
}

/// The last version of a changelog, when it can be parsed and has one.
pub open spec fn changelog_last_version(old_changelog: Option<Seq<char>>) -> Option<Seq<char>> {
    match old_changelog {
        Some(c) => match last_release_field(c, 0) {
            Ok(Some(v)) => Some(v),
            _ => None,
        },
        None => None,
    }
}

/// The plan for the changelog of a package at `package_version` released at `next_version`.
/// With a changelog request: a published package (the versions differ) gets its entry after
/// the last version of the old changelog, else after its current version; an unpublished one
/// whose old changelog already ends at the next version keeps it. Otherwise an entry is built
/// with no previous version.
pub open spec fn changelog_plan_spec(
    has_request: bool,
    next_version: Seq<char>,
    package_version: Seq<char>,
    old_changelog: Option<Seq<char>>,
) -> Option<Option<Seq<char>>> {
    if !has_request {
        Some(None)
    } else if next_version != package_version {
        Some(Some(match changelog_last_version(old_changelog) {
            Some(v) => v,
            None => package_version,
        }))
    } else if changelog_last_version(old_changelog) == Some(next_version) {
        None
    } else {
        Some(None)
    }
}

/// Plain view of a [`ChangelogPlan`]: `None` to keep the old changelog, else the previous
/// version to build after.
pub open spec fn changelog_plan_view(p: ChangelogPlan) -> Option<Option<Seq<char>>> {
    match p {
        ChangelogPlan::KeepOld => None,
        ChangelogPlan::Build { previous_version } => Some(opt_chars(previous_version)),
    }
}

/// The plan for the changelog of a package (see [`changelog_plan_spec`]).
pub fn changelog_plan(
    has_request: bool,
    next_version: &str,
    package_version: &str,
    old_changelog: Option<&str>,
) -> (r: ChangelogPlan)
    ensures
        changelog_plan_view(r) == changelog_plan_spec(has_request, next_version@, package_version@, match old_changelog {
            Some(c) => Some(c@),
            None => None,
        }),
{
    if !has_request {
        return ChangelogPlan::Build { previous_version: None };
    }
    let last_version = match old_changelog {
        Some(old) => match last_version_from_str(old) {
            Ok(Some(v)) => Some(v),
            _ => None,
        },
        None => None,
    };
    if !str_equal(next_version, package_version) {
        let previous = match last_version {
            Some(v) => v,
            None => {
                let mut v = String::new();
                push_str(&mut v, package_version);
                v
            },
        };
        ChangelogPlan::Build { previous_version: Some(previous) }
    } else {
        match last_version {
            Some(v) => {
                if str_equal(v.as_str(), next_version) {
                    ChangelogPlan::KeepOld
                } else {
                    ChangelogPlan::Build { previous_version: None }
                }
            },
            None => ChangelogPlan::Build { previous_version: None },
        }
    }
}

/// One step back in the history of a package, as the diff with the registry sees it.
#[derive(Debug, PartialEq, Eq, Structural)]
pub enum DiffStep {
    /// The package was published at this commit: stop, and when no commit was found, look for
    /// updated dependencies.
    Stop { check_dependencies: bool },
    /// The local version differs from the registry one: the version is unpublished; stop.
    StopVersionUnpublished,
    /// Count this commit if it changes files of the package, then go on.
    CheckChangedFiles,
}

/// The step of the diff at a commit: with the package in the registry, stop where it equals the
/// registry package or where the history reaches its published version, stop where the local
/// version differs from the registry one, else look at the commit; without it, look at the
/// commit.
pub open spec fn diff_step_spec(
    registry_package_found: bool,
    packages_equal: bool,
    commit_too_old: bool,
    versions_differ: bool,
    diff_has_commits: bool,
) -> DiffStep {
    if registry_package_found {
        if packages_equal || commit_too_old {
            DiffStep::Stop { check_dependencies: !diff_has_commits }
        } else if versions_differ {
            DiffStep::StopVersionUnpublished
        } else {
            DiffStep::CheckChangedFiles
        }
    } else {
        DiffStep::CheckChangedFiles
    }
}

/// The step of the diff at a commit (see [`diff_step_spec`]).
pub fn diff_step(
    registry_package_found: bool,
    packages_equal: bool,
    commit_too_old: bool,
    versions_differ: bool,
    diff_has_commits: bool,
) -> (r: DiffStep)
    ensures
        r == diff_step_spec(registry_package_found, packages_equal, commit_too_old, versions_differ, diff_has_commits),
{
    if registry_package_found {
        if packages_equal || commit_too_old {
            DiffStep::Stop { check_dependencies: !diff_has_commits }
        } else if versions_differ {
            DiffStep::StopVersionUnpublished
        } else {
            DiffStep::CheckChangedFiles
        }
    } else {
        DiffStep::CheckChangedFiles
    }
}

/// A commit is older than the published version when it is an ancestor of the commit tagged
/// with that version, or of the commit it was published at (`None` when there is no such
/// commit).
pub fn is_commit_too_old(ancestor_of_tag_commit: Option<bool>, ancestor_of_published_commit: Option<bool>) -> (r: bool)
    ensures
        r == (ancestor_of_tag_commit == Some(true) || ancestor_of_published_commit == Some(true)),
{
    match (ancestor_of_tag_commit, ancestor_of_published_commit) {
        (Some(true), _) => true,
        (_, Some(true)) => true,
        _ => false,
    }
}

/// What the update does with a package.
#[derive(Debug, PartialEq, Eq, Structural)]
pub enum UpdateDecision {
    /// No commit matches the release commits pattern: leave the package.
    SkipNoReleaseCommit,
    /// Update the package to its next version.
    Update,
    /// Update the package only if a local package it depends on is updated.
    CheckDependencies,
    /// Leave the package.
    Keep,
}

/// The decision for a package: skip it when the release commits pattern matches none of its
/// commits; update it when its next version differs or it is not in the registry; else check
/// its dependencies if its version is published.
pub open spec fn update_decision_spec(
    release_commits_match: Option<bool>,
    next_version: Seq<char>,
    current_version: Seq<char>,
    registry_package_exists: bool,
    is_version_published: bool,
) -> UpdateDecision {
    if release_commits_match == Some(false) {
        UpdateDecision::SkipNoReleaseCommit
    } else if next_version != current_version || !registry_package_exists {
        UpdateDecision::Update
    } else if is_version_published {
        UpdateDecision::CheckDependencies
    } else {
        UpdateDecision::Keep
    }
}

/// The decision for a package (see [`update_decision_spec`]). `release_commits_match` is
/// `None` when no release commits pattern is set.
pub fn update_decision(
    release_commits_match: Option<bool>,
    next_version: &str,
    current_version: &str,
    registry_package_exists: bool,
    is_version_published: bool,
) -> (r: UpdateDecision)
    ensures
        r == update_decision_spec(release_commits_match, next_version@, current_version@, registry_package_exists, is_version_published),
{
    if release_commits_match == Some(false) {
        UpdateDecision::SkipNoReleaseCommit
    } else if !str_equal(next_version, current_version) || !registry_package_exists {
        UpdateDecision::Update
    } else if is_version_published {
        UpdateDecision::CheckDependencies
    } else {
        UpdateDecision::Keep
    }
}

/// The next version of a package: the new workspace version for a package that inherits it,
/// else the version of its version group, else its own next version.
pub open spec fn next_version_choice_spec(
    workspace_version: Option<Seq<char>>,
    inherits_workspace_version: bool,
    version_group: Option<Seq<char>>,
    group_versions: Seq<(Seq<char>, Seq<char>)>,
    own_next_version: Seq<char>,
) -> Result<Seq<char>, Seq<char>> {
    if workspace_version is Some && inherits_workspace_version {
        Ok(workspace_version->0)
    } else {
        match version_group {
            Some(g) => if exists|k: int| 0 <= k < group_versions.len() && #[trigger] group_versions[k].0 == g {
                Ok(group_versions[choose|k: int| 0 <= k < group_versions.len() && #[trigger] group_versions[k].0 == g].1)
            } else {
                Err("failed to retrieve version for version group "@ + g)
            },
            None => Ok(own_next_version),
        }
    }
}

/// The next version of a package (see [`next_version_choice_spec`]); `group_versions` holds
/// each version group once, with its version.
pub fn next_version_choice(
    workspace_version: Option<&str>,
    inherits_workspace_version: bool,
    version_group: Option<&str>,
    group_versions: &Vec<(String, String)>,
    own_next_version: &str,
) -> (r: Result<String, String>)
    requires
        forall|a: int, b: int| 0 <= a < b < group_versions@.len() ==> #[trigger] group_versions@[a].0@ != #[trigger] group_versions@[b].0@,
    ensures
        crate::url_text::string_result_view(r) == next_version_choice_spec(
            match workspace_version {
                Some(v) => Some(v@),
                None => None,
            },
            inherits_workspace_version,
            match version_group {
                Some(g) => Some(g@),
                None => None,
            },
            group_versions@.map_values(|e: (String, String)| (e.0@, e.1@)),
            own_next_version@,
        ),
{
    let ghost gv = group_versions@.map_values(|e: (String, String)| (e.0@, e.1@));
    let mut r = String::new();
    if let Some(v) = workspace_version {
        if inherits_workspace_version {
            push_str(&mut r, v);
            return Ok(r);
        }
    }
    match version_group {
        Some(g) => {
            let mut k: usize = 0;
            while k < group_versions.len()
                invariant
                    k <= group_versions@.len(),
                    r@ == Seq::<char>::empty(),
                    !(workspace_version is Some && inherits_workspace_version),
                    version_group == Some(g),
                    gv == group_versions@.map_values(|e: (String, String)| (e.0@, e.1@)),
                    forall|a: int, b: int| 0 <= a < b < group_versions@.len() ==> #[trigger] group_versions@[a].0@ != #[trigger] group_versions@[b].0@,
                    forall|k2: int| 0 <= k2 < k ==> #[trigger] gv[k2].0 != g@,
                decreases group_versions.len() - k,
            {
                if str_equal(group_versions[k].0.as_str(), g) {
                    proof {
                        assert(gv[k as int].0 == g@);
                        let c = choose|c: int| 0 <= c < gv.len() && #[trigger] gv[c].0 == g@;
                        if c != k {
                            if c < k {
                                assert(group_versions@[c].0@ != group_versions@[k as int].0@);
                            } else {
                                assert(group_versions@[k as int].0@ != group_versions@[c].0@);
                            }
                        }
                    }
                    push_str(&mut r, group_versions[k].1.as_str());
                    return Ok(r);
                }
                k += 1;
            }
            push_str(&mut r, "failed to retrieve version for version group ");
            push_str(&mut r, g);
            Err(r)
        },
        None => {
            push_str(&mut r, own_next_version);
            Ok(r)
        },
    }
}

/// No group name occurs twice.
pub open spec fn distinct_groups(groups: Seq<(Seq<char>, Seq<char>)>) -> bool {
    forall|a: int, b: int| 0 <= a < b < groups.len() ==> #[trigger] groups[a].0 != #[trigger] groups[b].0
}

/// The index of the group named `g` in `groups`, if there is one.
pub open spec fn group_index(groups: Seq<(Seq<char>, Seq<char>)>, g: Seq<char>) -> Option<int> {
    if exists|k: int| 0 <= k < groups.len() && #[trigger] groups[k].0 == g {
        Some(choose|k: int| 0 <= k < groups.len() && #[trigger] groups[k].0 == g)
    } else {
        None
    }
}

/// The version of each version group, from the next version of each package and the group it
/// belongs to (if any): the highest of its versions by semver `<`, the earlier one kept when
/// none is higher; the groups in the order they first appear. Nothing when a comparison meets a
/// text that is not a version.
pub open spec fn version_groups_spec(entries: Seq<(Option<Seq<char>>, Seq<char>)>) -> Option<Seq<(Seq<char>, Seq<char>)>>
    decreases entries.len(),
{
    if entries.len() == 0 {
        Some(Seq::empty())
    } else {
        match version_groups_spec(entries.drop_last()) {
            None => None,
            Some(gs) => {
                let v = entries.last().1;
                match entries.last().0 {
                    None => Some(gs),
                    Some(g) => match group_index(gs, g) {
                        None => Some(gs.push((g, v))),
                        Some(k) => match crate::version::semver_less_outcome(gs[k].1, v) {
                            None => None,
                            Some(true) => Some(gs.update(k, (g, v))),
                            Some(false) => Some(gs),
                        },
                    },
                }
            },
        }
    }
}

/// Plain view of the packages' groups and next versions.
pub open spec fn group_entries_view(entries: Seq<(Option<String>, String)>) -> Seq<(Option<Seq<char>>, Seq<char>)> {
    entries.map_values(|e: (Option<String>, String)| (opt_chars(e.0), e.1@))
}

/// Plain view of named versions.
pub open spec fn named_versions_view(groups: Seq<(String, String)>) -> Seq<(Seq<char>, Seq<char>)> {
    groups.map_values(|e: (String, String)| (e.0@, e.1@))
}

/// In a list of distinct group names, the index found for a name is its only index.
proof fn lemma_group_index_unique(groups: Seq<(Seq<char>, Seq<char>)>, g: Seq<char>, k: int)
    requires
        distinct_groups(groups),
        0 <= k < groups.len(),
        groups[k].0 == g,
    ensures
        group_index(groups, g) == Some(k),
{
    let c = choose|c: int| 0 <= c < groups.len() && #[trigger] groups[c].0 == g;
    if c != k {
        if c < k {
            assert(groups[c].0 != groups[k].0);
        } else {
            assert(groups[k].0 != groups[c].0);
        }
    }
}

/// Once a comparison fails, the groups of every longer list of entries are nothing too.
proof fn lemma_version_groups_failure_stays(entries: Seq<(Option<Seq<char>>, Seq<char>)>, i: int)
    requires
        0 <= i <= entries.len(),
        version_groups_spec(entries.take(i)) is None,
    ensures
        version_groups_spec(entries) is None,
    decreases entries.len() - i,
{
    if i == entries.len() {
        assert(entries.take(i) =~= entries);
    } else {
        assert(entries.take(i + 1).drop_last() =~= entries.take(i));
        lemma_version_groups_failure_stays(entries, i + 1);
    }
}

/// The index of the group named `g`, if there is one.
fn find_group(groups: &Vec<(String, String)>, g: &str) -> (r: Option<usize>)
    ensures
        match r {
            Some(k) => k < groups@.len() && groups@[k as int].0@ == g@,
            None => forall|k: int| 0 <= k < groups@.len() ==> #[trigger] groups@[k].0@ != g@,
        },
{
    let mut k: usize = 0;
    while k < groups.len()
        invariant
            k <= groups@.len(),
            forall|k2: int| 0 <= k2 < k ==> #[trigger] groups@[k2].0@ != g@,
        decreases groups.len() - k,
    {
        if str_equal(groups[k].0.as_str(), g) {
            return Some(k);
        }
        k += 1;
    }
    None
}

/// The version of each version group (see [`version_groups_spec`]); each group is listed
/// once, as [`next_version_choice`] needs.
pub fn version_groups(entries: &Vec<(Option<String>, String)>) -> (r: Option<Vec<(String, String)>>)
    ensures
        match r {
            Some(gs) => version_groups_spec(group_entries_view(entries@)) == Some(named_versions_view(gs@))
                && distinct_groups(named_versions_view(gs@)),
            None => version_groups_spec(group_entries_view(entries@)) is None,
        },
{
    let ghost ev = group_entries_view(entries@);
    let mut groups: Vec<(String, String)> = Vec::new();
    let mut i: usize = 0;
    assert(ev.take(0) =~= Seq::<(Option<Seq<char>>, Seq<char>)>::empty());
    assert(named_versions_view(groups@) =~= Seq::<(Seq<char>, Seq<char>)>::empty());
    while i < entries.len()
        invariant
            i <= entries@.len(),
            ev == group_entries_view(entries@),
            version_groups_spec(ev.take(i as int)) == Some(named_versions_view(groups@)),
            distinct_groups(named_versions_view(groups@)),
        decreases entries.len() - i,
    {
        let ghost gv = named_versions_view(groups@);
        proof {
            assert(ev.take(i + 1).drop_last() =~= ev.take(i as int));
            assert(ev.take(i + 1).last() == ev[i as int]);
        }
        let v = &entries[i].1;
        match &entries[i].0 {
            None => {},
            Some(g) => {
                match find_group(&groups, g.as_str()) {
                    None => {
                        proof {
                            if group_index(gv, g@) is Some {
                                let c = choose|c: int| 0 <= c < gv.len() && #[trigger] gv[c].0 == g@;
                                assert(groups@[c].0@ != g@);
                            }
                        }
                        groups.push((g.clone(), v.clone()));
                        proof {
                            assert(named_versions_view(groups@) =~= gv.push((g@, v@)));
                        }
                    },
                    Some(k) => {
                        proof {
                            assert(gv[k as int].0 == g@);
                            lemma_group_index_unique(gv, g@, k as int);
                        }
                        match crate::version::semver_less(groups[k].1.as_str(), v.as_str()) {
                            None => {
                                proof {
                                    lemma_version_groups_failure_stays(ev, i + 1);
                                }
                                return None;
                            },
                            Some(true) => {
                                groups.set(k, (g.clone(), v.clone()));
                                proof {
                                    assert(named_versions_view(groups@) =~= gv.update(k as int, (g@, v@)));
                                }
                            },
                            Some(false) => {},
                        }
                    },
                }
            },
        }
        i += 1;
    }
    assert(ev.take(i as int) =~= ev);
    Some(groups)
}

/// The new version of the workspace: the highest (by semver `<`, the later one on ties) of the
/// next versions of the packages that inherit the workspace version, among those not below the
/// current workspace version `ws`; nothing without a workspace version or without such a next
/// version. The outer `None` when a comparison meets a text that is not a version.
pub open spec fn new_workspace_version_spec(ws: Option<Seq<char>>, nexts: Seq<Seq<char>>) -> Option<Option<Seq<char>>>
    decreases nexts.len(),
{
    match ws {
        None => Some(None),
        Some(w) => if nexts.len() == 0 {
            Some(None)
        } else {
            match new_workspace_version_spec(ws, nexts.drop_last()) {
                None => None,
                Some(best) => {
                    let v = nexts.last();
                    match crate::version::semver_less_outcome(v, w) {
                        None => None,
                        Some(true) => Some(best),
                        Some(false) => match best {
                            None => Some(Some(v)),
                            Some(b) => match crate::version::semver_less_outcome(v, b) {
                                None => None,
                                Some(true) => Some(Some(b)),
                                Some(false) => Some(Some(v)),
                            },
                        },
                    }
                },
            }
        },
    }
}

/// Once a comparison fails, every longer list of next versions fails too.
proof fn lemma_new_workspace_version_failure_stays(ws: Option<Seq<char>>, nexts: Seq<Seq<char>>, i: int)
    requires
        0 <= i <= nexts.len(),
        new_workspace_version_spec(ws, nexts.take(i)) is None,
    ensures
        new_workspace_version_spec(ws, nexts) is None,
    decreases nexts.len() - i,
{
    if i == nexts.len() {
        assert(nexts.take(i) =~= nexts);
    } else {
        assert(nexts.take(i + 1).drop_last() =~= nexts.take(i));
        lemma_new_workspace_version_failure_stays(ws, nexts, i + 1);
    }
}

/// The new version of the workspace (see [`new_workspace_version_spec`]), from the current
/// workspace version and the next versions of the packages that inherit it.
pub fn new_workspace_version(workspace_version: Option<&str>, next_versions: &Vec<String>) -> (r: Option<Option<String>>)
    ensures
        new_workspace_version_spec(
            match workspace_version {
                Some(w) => Some(w@),
                None => None,
            },
            next_versions.deep_view(),
        ) == match r {
            Some(best) => Some(opt_chars(best)),
            None => None,
        },
{
    let ghost ws = match workspace_version {
        Some(w) => Some(w@),
        None => None::<Seq<char>>,
    };
    let ghost nv = next_versions.deep_view();
    let w = match workspace_version {
        None => {
            return Some(None);
        },
        Some(w) => w,
    };
    let mut best: Option<String> = None;
    let mut i: usize = 0;
    assert(nv.take(0) =~= Seq::<Seq<char>>::empty());
    while i < next_versions.len()
        invariant
            i <= next_versions@.len(),
            ws == Some(w@),
            workspace_version == Some(w),
            nv == next_versions.deep_view(),
            new_workspace_version_spec(ws, nv.take(i as int)) == Some(opt_chars(best)),
        decreases next_versions.len() - i,
    {
        proof {
            assert(nv.take(i + 1).drop_last() =~= nv.take(i as int));
            assert(nv.take(i + 1).last() == next_versions@[i as int]@);
        }
        let v = next_versions[i].as_str();
        match crate::version::semver_less(v, w) {
            None => {
                proof {
                    lemma_new_workspace_version_failure_stays(ws, nv, i + 1);
                }
                return None;
            },
            Some(true) => {},
            Some(false) => {
                match &best {
                    None => {
                        best = Some(next_versions[i].clone());
                    },
                    Some(b) => {
                        match crate::version::semver_less(v, b.as_str()) {
                            None => {
                                proof {
                                    lemma_new_workspace_version_failure_stays(ws, nv, i + 1);
                                }
                                return None;
                            },
                            Some(true) => {},
                            Some(false) => {
                                best = Some(next_versions[i].clone());
                            },
                        }
                    },
                }
            },
        }
        i += 1;
    }
    assert(nv.take(i as int) =~= nv);
    Some(best)
}

/// Some file is in both lists.
pub open spec fn share_a_file(a: Seq<Seq<char>>, b: Seq<Seq<char>>) -> bool {
    exists|i: int, j: int| 0 <= i < a.len() && 0 <= j < b.len() && #[trigger] a[i] == #[trigger] b[j]
}

/// Whether a commit changes the package: `package_files` are the files of the package and
/// `changed_files` the files the commit changed, each `None` when it could not be listed (then
/// the commit is taken to change the package).
pub fn are_changed_files_in_package(package_files: Option<&Vec<String>>, changed_files: Option<&Vec<String>>) -> (r: bool)
    ensures
        r == match (package_files, changed_files) {
            (Some(p), Some(c)) => share_a_file(p.deep_view(), c.deep_view()),
            _ => true,
        },
{
    match (package_files, changed_files) {
        (Some(p), Some(c)) => {
            let mut i: usize = 0;
            while i < p.len()
                invariant
                    package_files == Some(p),
                    changed_files == Some(c),
                    i <= p@.len(),
                    forall|i2: int, j: int| 0 <= i2 < i && 0 <= j < c@.len() ==> #[trigger] p@[i2]@ != #[trigger] c@[j]@,
                decreases p.len() - i,
            {
                let mut j: usize = 0;
                while j < c.len()
                    invariant
                        package_files == Some(p),
                        changed_files == Some(c),
                        i < p@.len(),
                        j <= c@.len(),
                        forall|i2: int, j2: int| 0 <= i2 < i && 0 <= j2 < c@.len() ==> #[trigger] p@[i2]@ != #[trigger] c@[j2]@,
                        forall|j2: int| 0 <= j2 < j ==> p@[i as int]@ != #[trigger] c@[j2]@,
                    decreases c.len() - j,
                {
                    if str_equal(p[i].as_str(), c[j].as_str()) {
                        proof {
                            assert(p.deep_view()[i as int] == c.deep_view()[j as int]);
                        }
                        return true;
                    }
                    j += 1;
                }
                i += 1;
            }
            proof {
                if share_a_file(p.deep_view(), c.deep_view()) {
                    let (a, b) = choose|a: int, b: int| 0 <= a < p.deep_view().len() && 0 <= b < c.deep_view().len()
                        && #[trigger] p.deep_view()[a] == #[trigger] c.deep_view()[b];
                    assert(p@[a]@ != c@[b]@);
                }
            }
            false
        },
        _ => true,
    }
}

/// `path` joined to `base` as `std::path::Path::join` does on Unix: an absolute `path` (one
/// that starts with `/`) replaces `base`; else `path` is appended after a `/`, unless `base` is
/// empty or already ends with one.
pub open spec fn path_join_spec(base: Seq<char>, path: Seq<char>) -> Seq<char> {
    if path.len() > 0 && path[0] == '/' {
        path
    } else if base.len() == 0 || base.last() == '/' {
        base + path
    } else {
        base + "/"@ + path
    }
}

/// `path` joined to `base` (see [`path_join_spec`]).
fn path_join(base: &str, path: &str) -> (r: String)
    ensures
        r@ == path_join_spec(base@, path@),
{
    let b = crate::text::chars_of(base);
    let p = crate::text::chars_of(path);
    let mut r = String::new();
    if p.len() > 0 && p[0] == '/' {
        push_str(&mut r, path);
    } else if b.len() == 0 || b[b.len() - 1] == '/' {
        push_str(&mut r, base);
        push_str(&mut r, path);
    } else {
        push_str(&mut r, base);
        push_str(&mut r, "/");
        push_str(&mut r, path);
    }
    r
}

/// A packaged file that git knows: not one of the files that `cargo package` writes.
pub open spec fn is_git_file(file: Seq<char>) -> bool {
    file != "Cargo.toml.orig"@ && file != crate::package_compare::CARGO_VCS_INFO@
}

/// The files of a package as git names them: the packaged files (`files`, relative to the
/// package) that git knows, each joined to the package's path in the repository
/// (`crate_relative_path`, empty for a package at the root of the repository).
pub fn package_git_files(files: &Vec<String>, crate_relative_path: &str) -> (r: Vec<String>)
    ensures
        r.deep_view() == files.deep_view().filter(|f: Seq<char>| is_git_file(f)).map_values(
            |f: Seq<char>| if crate_relative_path@.len() == 0 { f } else { path_join_spec(crate_relative_path@, f) },
        ),
{
    let ghost fv = files.deep_view();
    let ghost joined = |f: Seq<char>| if crate_relative_path@.len() == 0 { f } else { path_join_spec(crate_relative_path@, f) };
    let mut r: Vec<String> = Vec::new();
    let mut k: usize = 0;
    assert(fv.take(0).filter(|f: Seq<char>| is_git_file(f)) =~= Seq::<Seq<char>>::empty()) by {
        reveal(Seq::filter);
    }
    while k < files.len()
        invariant
            k <= files@.len(),
            fv == files.deep_view(),
            joined == (|f: Seq<char>| if crate_relative_path@.len() == 0 { f } else { path_join_spec(crate_relative_path@, f) }),
            r.deep_view() == fv.take(k as int).filter(|f: Seq<char>| is_git_file(f)).map_values(joined),
        decreases files.len() - k,
    {
        let f = files[k].as_str();
        let ghost before = r.deep_view();
        proof {
            assert(fv.take(k + 1) =~= fv.take(k as int).push(fv[k as int]));
            reveal(Seq::filter);
            assert(fv.take(k + 1).drop_last() =~= fv.take(k as int));
            assert(fv[k as int] == f@);
        }
        if !str_equal(f, "Cargo.toml.orig") && !str_equal(f, crate::package_compare::CARGO_VCS_INFO) {
            let entry = if crate_relative_path.unicode_len() == 0 {
                let mut e = String::new();
                push_str(&mut e, f);
                e
            } else {
                path_join(crate_relative_path, f)
            };
            r.push(entry);
            proof {
                assert(r.deep_view() =~= before.push(joined(f@)));
                assert(fv.take(k + 1).filter(|f: Seq<char>| is_git_file(f)) =~= fv.take(k as int).filter(
                    |f: Seq<char>| is_git_file(f),
                ).push(f@));
                assert(fv.take(k + 1).filter(|f: Seq<char>| is_git_file(f)).map_values(joined) =~= before.push(joined(f@)));
            }
        } else {
            proof {
                assert(fv.take(k + 1).filter(|f: Seq<char>| is_git_file(f)) =~= fv.take(k as int).filter(
                    |f: Seq<char>| is_git_file(f),
                ));
            }
        }
        k += 1;
    }
    assert(fv.take(k as int) =~= fv);
    r
}

/// A dependency entry of a manifest, as the update reads it.
pub struct DependencyEntry {
    /// The value of its `workspace` key when that is a boolean.
    pub workspace: Option<bool>,
    /// It has a `version` key.
    pub has_version: bool,
    /// It has a `path` key.
    pub has_path: bool,
}

/// Whether the dependency is inherited from the workspace: `workspace = true`, and neither a
/// version nor a path of its own.
pub fn is_workspace_dependency(d: &DependencyEntry) -> (r: bool)
    ensures
        r == (d.workspace == Some(true) && !d.has_version && !d.has_path),
{
    d.workspace == Some(true) && !d.has_version && !d.has_path
}

/// What the update decides for one package, from its diff and its next version.
pub struct PackageDecisionInput {
    /// Whether some commit matches the release commits pattern; `None` without a pattern.
    pub release_commits_match: Option<bool>,
    pub next_version: String,
    pub current_version: String,
    pub registry_package_exists: bool,
    pub is_version_published: bool,
}

/// The decision for one package input (see [`update_decision_spec`]).
pub open spec fn input_decision(p: PackageDecisionInput) -> UpdateDecision {
    update_decision_spec(
        p.release_commits_match,
        p.next_version@,
        p.current_version@,
        p.registry_package_exists,
        p.is_version_published,
    )
}

/// The packages (by index) that the update changes, and those it updates only if a local
/// package they depend on is updated.
pub struct UpdatePlan {
    /// Indices of the packages updated for their own changes, increasing.
    pub updated: Vec<usize>,
    /// Indices of the packages whose dependencies are checked, increasing.
    pub check_dependencies: Vec<usize>,
}

/// `s` is strictly increasing.
pub open spec fn increasing(s: Seq<usize>) -> bool {
    forall|a: int, b: int| 0 <= a < b < s.len() ==> #[trigger] s[a] < #[trigger] s[b]
}

/// The first step of the list of updates: each package is updated, checked for updated
/// dependencies, or left, as [`update_decision`] says; packages skipped for lack of a release
/// commit and packages kept appear in neither list.
pub fn update_plan(inputs: &Vec<PackageDecisionInput>) -> (r: UpdatePlan)
    ensures
        increasing(r.updated@),
        increasing(r.check_dependencies@),
        forall|k: int| 0 <= k < r.updated@.len() ==> #[trigger] r.updated@[k] < inputs@.len(),
        forall|k: int| 0 <= k < r.check_dependencies@.len() ==> #[trigger] r.check_dependencies@[k] < inputs@.len(),
        forall|i: int| 0 <= i < inputs@.len() ==> (r.updated@.contains(i as usize) <==> input_decision(
            #[trigger] inputs@[i],
        ) == UpdateDecision::Update),
        forall|i: int| 0 <= i < inputs@.len() ==> (r.check_dependencies@.contains(i as usize) <==> input_decision(
            #[trigger] inputs@[i],
        ) == UpdateDecision::CheckDependencies),
{
    let mut updated: Vec<usize> = Vec::new();
    let mut check: Vec<usize> = Vec::new();
    let mut i: usize = 0;
    while i < inputs.len()
        invariant
            i <= inputs@.len(),
            increasing(updated@),
            increasing(check@),
            forall|k: int| 0 <= k < updated@.len() ==> #[trigger] updated@[k] < i,
            forall|k: int| 0 <= k < check@.len() ==> #[trigger] check@[k] < i,
            forall|j: int| 0 <= j < i ==> (updated@.contains(j as usize) <==> input_decision(#[trigger] inputs@[j])
                == UpdateDecision::Update),
            forall|j: int| 0 <= j < i ==> (check@.contains(j as usize) <==> input_decision(#[trigger] inputs@[j])
                == UpdateDecision::CheckDependencies),
        decreases inputs.len() - i,
    {
        let p = &inputs[i];
        let d = update_decision(
            p.release_commits_match,
            p.next_version.as_str(),
            p.current_version.as_str(),
            p.registry_package_exists,
            p.is_version_published,
        );
        let ghost u0 = updated@;
        let ghost c0 = check@;
        match d {
            UpdateDecision::Update => {
                updated.push(i);
            },
            UpdateDecision::CheckDependencies => {
                check.push(i);
            },
            _ => {},
        }
        proof {
            assert forall|j: int| 0 <= j <= i implies (updated@.contains(j as usize) <==> input_decision(
                #[trigger] inputs@[j],
            ) == UpdateDecision::Update) by {
                if updated@.contains(j as usize) {
                    let q = choose|q: int| 0 <= q < updated@.len() && updated@[q] == j as usize;
                    if q < u0.len() {
                        assert(u0[q] == j as usize);
                        assert(u0.contains(j as usize));
                    }
                }
                if j < i && u0.contains(j as usize) {
                    let q = choose|q: int| 0 <= q < u0.len() && u0[q] == j as usize;
                    assert(updated@[q] == j as usize);
                }
                if j == i && d == UpdateDecision::Update {
                    assert(updated@[updated@.len() - 1] == i);
                }
                if j == i && updated@.contains(j as usize) {
                    let q = choose|q: int| 0 <= q < updated@.len() && updated@[q] == j as usize;
                    if q < u0.len() {
                        assert(u0[q] < i);
                    }
                }
            }
            assert forall|j: int| 0 <= j <= i implies (check@.contains(j as usize) <==> input_decision(
                #[trigger] inputs@[j],
            ) == UpdateDecision::CheckDependencies) by {
                if check@.contains(j as usize) {
                    let q = choose|q: int| 0 <= q < check@.len() && check@[q] == j as usize;
                    if q < c0.len() {
                        assert(c0[q] == j as usize);
                        assert(c0.contains(j as usize));
                    }
                }
                if j < i && c0.contains(j as usize) {
                    let q = choose|q: int| 0 <= q < c0.len() && c0[q] == j as usize;
                    assert(check@[q] == j as usize);
                }
                if j == i && d == UpdateDecision::CheckDependencies {
                    assert(check@[check@.len() - 1] == i);
                }
                if j == i && check@.contains(j as usize) {
                    let q = choose|q: int| 0 <= q < check@.len() && check@[q] == j as usize;
                    if q < c0.len() {
                        assert(c0[q] < i);
                    }
                }
            }
        }
        i += 1;
    }
    UpdatePlan { updated, check_dependencies: check }
}

/// An update bumped because local packages it depends on are updated.
pub struct DependentUpdate {
    /// Index of the package.
    pub package: usize,
    /// The changelog entry: the updated dependencies.
    pub message: String,
}

/// The message of a package bumped because the local packages `deps` are updated.
pub open spec fn dependencies_updated_message(deps: Seq<Seq<char>>) -> Seq<char> {
    "chore: updated the following local packages: "@ + join(deps, ", "@)
}

/// The packages among `checked` whose updated dependencies (`deps[k]` for `checked[k]`) are
/// not empty, in order, each with the message naming those dependencies.
pub open spec fn dependent_updates_spec(checked: Seq<usize>, deps: Seq<Seq<Seq<char>>>) -> Seq<(usize, Seq<char>)>
    decreases checked.len(),
{
    if checked.len() == 0 || deps.len() == 0 {
        Seq::empty()
    } else {
        dependent_updates_spec(checked.drop_last(), deps.drop_last()) + if deps.last().len() > 0 {
            seq![(checked.last(), dependencies_updated_message(deps.last()))]
        } else {
            Seq::empty()
        }
    }
}

/// Plain view of dependent updates.
pub open spec fn dependent_updates_view(r: Seq<DependentUpdate>) -> Seq<(usize, Seq<char>)> {
    r.map_values(|u: DependentUpdate| (u.package, u.message@))
}

/// The second step of the list of updates: of the packages whose dependencies are checked
/// (`checked`), those with updated dependencies (`updated_dependencies[k]` for `checked[k]`,
/// empty when none is updated) are updated too, with a message naming those dependencies; in
/// order (see [`dependent_updates_spec`]).
pub fn dependent_updates(checked: &Vec<usize>, updated_dependencies: &Vec<Vec<String>>) -> (r: Vec<DependentUpdate>)
    requires
        checked@.len() == updated_dependencies@.len(),
    ensures
        dependent_updates_view(r@) == dependent_updates_spec(
            checked@,
            updated_dependencies@.map_values(|d: Vec<String>| d.deep_view()),
        ),
{
    let ghost dv = updated_dependencies@.map_values(|d: Vec<String>| d.deep_view());
    let mut r: Vec<DependentUpdate> = Vec::new();
    let mut k: usize = 0;
    while k < checked.len()
        invariant
            checked@.len() == updated_dependencies@.len(),
            dv == updated_dependencies@.map_values(|d: Vec<String>| d.deep_view()),
            k <= checked@.len(),
            dependent_updates_view(r@) == dependent_updates_spec(checked@.take(k as int), dv.take(k as int)),
        decreases checked.len() - k,
    {
        proof {
            assert(checked@.take(k + 1).drop_last() =~= checked@.take(k as int));
            assert(dv.take(k + 1).drop_last() =~= dv.take(k as int));
            assert(dv.take(k + 1).last() == updated_dependencies@[k as int].deep_view());
        }
        let ghost r0 = r@;
        if updated_dependencies[k].len() > 0 {
            let message = updated_packages_message(&updated_dependencies[k]);
            r.push(DependentUpdate { package: checked[k], message });
            assert(dependent_updates_view(r@) =~= dependent_updates_view(r0).push(
                (checked@[k as int], dependencies_updated_message(updated_dependencies@[k as int].deep_view())),
            ));
        } else {
            assert(dependent_updates_view(r@) =~= dependent_updates_spec(checked@.take(k + 1), dv.take(k + 1)));
        }
        k += 1;
    }
    assert(checked@.take(k as int) =~= checked@);
    assert(dv.take(k as int) =~= dv);
    r
}

/// The packages of dependent updates are among the checked ones, and in the same order.
proof fn lemma_dependent_updates_from_checked(checked: Seq<usize>, deps: Seq<Seq<Seq<char>>>)
    requires
        checked.len() == deps.len(),
    ensures
        forall|q: int| 0 <= q < dependent_updates_spec(checked, deps).len() ==> checked.contains(
            #[trigger] dependent_updates_spec(checked, deps)[q].0,
        ),
        increasing(checked) ==> increasing(dependent_updates_spec(checked, deps).map_values(|e: (usize, Seq<char>)| e.0)),
    decreases checked.len(),
{
    if checked.len() > 0 {
        let c0 = checked.drop_last();
        let d0 = deps.drop_last();
        lemma_dependent_updates_from_checked(c0, d0);
        let prev = dependent_updates_spec(c0, d0);
        let all = dependent_updates_spec(checked, deps);
        assert forall|q: int| 0 <= q < all.len() implies checked.contains(#[trigger] all[q].0) by {
            if q < prev.len() {
                assert(all[q] == prev[q]);
                let j = choose|j: int| 0 <= j < c0.len() && c0[j] == prev[q].0;
                assert(checked[j] == c0[j]);
            } else {
                assert(all[q].0 == checked[checked.len() - 1]);
            }
        }
        if increasing(checked) {
            assert(increasing(c0)) by {
                assert forall|a: int, b: int| 0 <= a < b < c0.len() implies #[trigger] c0[a] < #[trigger] c0[b] by {
                    assert(checked[a] < checked[b]);
                }
            }
            let m = all.map_values(|e: (usize, Seq<char>)| e.0);
            let m0 = prev.map_values(|e: (usize, Seq<char>)| e.0);
            assert forall|a: int, b: int| 0 <= a < b < m.len() implies #[trigger] m[a] < #[trigger] m[b] by {
                if b < prev.len() {
                    assert(m[a] == m0[a] && m[b] == m0[b]);
                } else {
                    assert(m[a] == prev[a].0);
                    let j = choose|j: int| 0 <= j < c0.len() && c0[j] == prev[a].0;
                    assert(checked[j] < checked[checked.len() - 1]);
                }
            }
        }
    }
}

/// Each package appears once in the list of updates: the packages updated for their own
/// changes, in increasing order, then the packages bumped for their dependencies, in
/// increasing order, and no package in both.
pub proof fn law_updates_are_listed_once(
    inputs: Seq<PackageDecisionInput>,
    updated: Seq<usize>,
    checked: Seq<usize>,
    deps: Seq<Seq<Seq<char>>>,
)
    requires
        increasing(updated),
        increasing(checked),
        checked.len() == deps.len(),
        forall|k: int| 0 <= k < updated.len() ==> #[trigger] updated[k] < inputs.len(),
        forall|k: int| 0 <= k < checked.len() ==> #[trigger] checked[k] < inputs.len(),
        forall|i: int| 0 <= i < inputs.len() ==> (updated.contains(i as usize) <==> input_decision(#[trigger] inputs[i])
            == UpdateDecision::Update),
        forall|i: int| 0 <= i < inputs.len() ==> (checked.contains(i as usize) <==> input_decision(#[trigger] inputs[i])
            == UpdateDecision::CheckDependencies),
    ensures
        increasing(dependent_updates_spec(checked, deps).map_values(|e: (usize, Seq<char>)| e.0)),
        forall|a: int, b: int|
            0 <= a < updated.len() && 0 <= b < dependent_updates_spec(checked, deps).len() ==> #[trigger] updated[a]
                != #[trigger] dependent_updates_spec(checked, deps)[b].0,
{
    lemma_dependent_updates_from_checked(checked, deps);
    let d = dependent_updates_spec(checked, deps);
    assert forall|a: int, b: int| 0 <= a < updated.len() && 0 <= b < d.len() implies #[trigger] updated[a]
        != #[trigger] d[b].0 by {
        if updated[a] == d[b].0 {
            let x = updated[a];
            assert(checked.contains(d[b].0));
            let j = choose|j: int| 0 <= j < checked.len() && checked[j] == d[b].0;
            assert(x < inputs.len());
            assert(updated.contains(x));
            assert(checked.contains(x));
            assert(input_decision(inputs[x as int]) == UpdateDecision::Update);
        }
    }
}

/// The new version of an updated package, the outcome of its semver check, and its updated
/// changelog.
pub struct UpdateResult {
    pub version: String,
    /// The changelog with the entry of the new version; `None` when the package does not
    /// update its changelog.
    pub changelog: Option<String>,
    pub semver_check: crate::semver_check::SemverCheck,
}

impl UpdateResult {
    /// The result of updating a package to `version`, with the outcome of its semver check: the
    /// changelog rendered for it when the package updates its changelog, else none.
    pub fn new(
        version: String,
        semver_check: crate::semver_check::SemverCheck,
        should_update_changelog: bool,
        rendered_changelog: String,
    ) -> (r: UpdateResult)
        ensures
            r.version@ == version@,
            r.semver_check == semver_check,
            should_update_changelog ==> (r.changelog matches Some(c) && c@ == rendered_changelog@),
            !should_update_changelog ==> r.changelog is None,
    {
        let changelog = if should_update_changelog { Some(rendered_changelog) } else { None };
        UpdateResult { version, changelog, semver_check }
    }

    /// The last release of the changelog, if the package has one.
    pub fn last_changes(&self) -> (r: Result<Option<crate::changelog_parser::ChangelogRelease>, crate::changelog_parser::ChangelogError>)
        ensures
            self.changelog is None ==> r matches Ok(None),
            self.changelog matches Some(c) ==> (match crate::changelog_parser::changelog_parse_outcome(c@) {
                Err(reason) => r matches Err(e) && e.reason@ == reason,
                Ok(notes) => r matches Ok(o) && match crate::changelog_parser::last_release_spec(notes) {
                    Some(n) => o matches Some(c2) && c2@ == (n.1, n.2),
                    None => o is None,
                },
            }),
    {
        match &self.changelog {
            Some(c) => crate::changelog_parser::last_release_from_str(c.as_str()),
            None => Ok(None),
        }
    }
}

/// A dependency entry of a package manifest, resolved by the caller: whether it has a
/// `version` key, and the canonical path of the package it refers to (through the workspace
/// entry for an inherited dependency), if it names one.
pub struct ResolvedDependency {
    pub has_version: bool,
    pub path: Option<String>,
}

/// The entry refers, with a version, to the package at `path`, and its version requirement
/// must be raised (`upgrade`).
pub open spec fn entry_to_update(path: Seq<char>, d: ResolvedDependency, upgrade: bool) -> bool {
    d.has_version && opt_chars(d.path) == Some(path) && upgrade
}

/// The index `p` once for each of `entries` that is to be updated for the package at `path`.
pub open spec fn updates_for(p: usize, path: Seq<char>, entries: Seq<ResolvedDependency>, upgrades: Seq<bool>) -> Seq<usize>
    decreases entries.len(),
{
    if entries.len() == 0 || upgrades.len() == 0 {
        Seq::empty()
    } else {
        updates_for(p, path, entries.drop_last(), upgrades.drop_last()) + if entry_to_update(
            path,
            entries.last(),
            upgrades.last(),
        ) {
            seq![p]
        } else {
            Seq::empty()
        }
    }
}

/// The updated packages (by index, with the canonical path of each) whose version the
/// dependency entries of a package must follow: each once per matching entry, in order.
pub open spec fn dependencies_to_update_spec(
    paths: Seq<Seq<char>>,
    entries: Seq<ResolvedDependency>,
    upgrades: Seq<Seq<bool>>,
) -> Seq<usize>
    decreases paths.len(),
{
    if paths.len() == 0 || upgrades.len() == 0 {
        Seq::empty()
    } else {
        dependencies_to_update_spec(paths.drop_last(), entries, upgrades.drop_last()) + updates_for(
            (paths.len() - 1) as usize,
            paths.last(),
            entries,
            upgrades.last(),
        )
    }
}

/// The updated packages whose version the dependency entries of a package must follow (see
/// [`dependencies_to_update_spec`]): `updated_paths[p]` is the canonical path of updated package
/// `p`, and `upgrades[p][e]` whether entry `e`'s version requirement must be raised for the next
/// version of `p`.
pub fn dependencies_to_update(
    updated_paths: &Vec<String>,
    entries: &Vec<ResolvedDependency>,
    upgrades: &Vec<Vec<bool>>,
) -> (r: Vec<usize>)
    requires
        upgrades@.len() == updated_paths@.len(),
        forall|p: int| 0 <= p < upgrades@.len() ==> #[trigger] upgrades@[p]@.len() == entries@.len(),
    ensures
        r@ == dependencies_to_update_spec(
            updated_paths.deep_view(),
            entries@,
            upgrades@.map_values(|u: Vec<bool>| u@),
        ),
{
    let ghost pv = updated_paths.deep_view();
    let ghost uv = upgrades@.map_values(|u: Vec<bool>| u@);
    let mut r: Vec<usize> = Vec::new();
    let mut p: usize = 0;
    while p < updated_paths.len()
        invariant
            upgrades@.len() == updated_paths@.len(),
            forall|q: int| 0 <= q < upgrades@.len() ==> #[trigger] upgrades@[q]@.len() == entries@.len(),
            pv == updated_paths.deep_view(),
            uv == upgrades@.map_values(|u: Vec<bool>| u@),
            p <= updated_paths@.len(),
            r@ == dependencies_to_update_spec(pv.take(p as int), entries@, uv.take(p as int)),
        decreases updated_paths.len() - p,
    {
        let ghost before = r@;
        let path = updated_paths[p].as_str();
        let ups = &upgrades[p];
        let mut e: usize = 0;
        assert(updates_for(p, path@, entries@.take(0), ups@.take(0)) =~= Seq::<usize>::empty());
        while e < entries.len()
            invariant
                ups@.len() == entries@.len(),
                e <= entries@.len(),
                r@ == before + updates_for(p, path@, entries@.take(e as int), ups@.take(e as int)),
            decreases entries.len() - e,
        {
            proof {
                assert(entries@.take(e + 1).drop_last() =~= entries@.take(e as int));
                assert(ups@.take(e + 1).drop_last() =~= ups@.take(e as int));
            }
            let d = &entries[e];
            let matches = d.has_version && ups[e] && match &d.path {
                Some(dp) => str_equal(dp.as_str(), path),
                None => false,
            };
            if matches {
                r.push(p);
            }
            proof {
                assert(entry_to_update(path@, entries@[e as int], ups@[e as int]) == matches);
                if matches {
                    assert(r@ =~= before + updates_for(p, path@, entries@.take(e + 1), ups@.take(e + 1)));
                } else {
                    assert(r@ =~= before + updates_for(p, path@, entries@.take(e + 1), ups@.take(e + 1)));
                }
            }
            e += 1;
        }
        proof {
            assert(entries@.take(e as int) =~= entries@);
            assert(ups@.take(e as int) =~= ups@);
            assert(pv.take(p + 1).drop_last() =~= pv.take(p as int));
            assert(uv.take(p + 1).drop_last() =~= uv.take(p as int));
            assert(uv.take(p + 1).last() == ups@);
            assert(pv.take(p + 1).last() == path@);
        }
        p += 1;
    }
    assert(pv.take(p as int) =~= pv);
    assert(uv.take(p as int) =~= uv);
    r
}

/// What a failed checkout of the last commit that touched the package means.
#[derive(Debug, PartialEq, Eq, Structural)]
pub enum CheckoutFailure {
    /// Local changes would be overwritten: the update cannot run on a dirty working directory.
    DirtyWorkingDirectory,
    /// There is no such commit: the diff is empty.
    NoCommits,
}

/// The text git prints when a checkout would overwrite local changes.
pub const LOCAL_CHANGES_OVERWRITTEN: &'static str = "Your local changes to the following files would be overwritten";

/// What the failed checkout with error message `message` means.
pub fn checkout_failure(message: &str) -> (r: CheckoutFailure)
    ensures
        crate::text::contains_seq(message@, LOCAL_CHANGES_OVERWRITTEN@) ==> r == CheckoutFailure::DirtyWorkingDirectory,
        !crate::text::contains_seq(message@, LOCAL_CHANGES_OVERWRITTEN@) ==> r == CheckoutFailure::NoCommits,
{
    if crate::text::str_contains(message, LOCAL_CHANGES_OVERWRITTEN) {
        CheckoutFailure::DirtyWorkingDirectory
    } else {
        CheckoutFailure::NoCommits
    }
}

/// The message of the error when the git tag of the current version exists but the registry
/// does not have the package.
pub open spec fn tag_without_package_message(name: Seq<char>, git_tag: Seq<char>) -> Seq<char> {
    "package `"@ + name + "` not found in the registry, but the git tag "@ + git_tag
        + " exists. Consider running `cargo publish` manually to publish this package."@
}

/// The message of the error when the git tag of the current version exists but the registry
/// has the package at another version.
pub open spec fn tag_with_other_version_message(name: Seq<char>, version: Seq<char>, registry_version: Seq<char>, git_tag: Seq<char>) -> Seq<char> {
    "package `"@ + name + "` has a different version ("@ + version + ") with respect to the registry package ("@
        + registry_version + "), but the git tag "@ + git_tag
        + " exists. Consider running `cargo publish` manually to publish the new version of this package."@
}

/// When the git tag `git_tag` of the current version of the package exists, the registry must
/// have the package (`registry_version` is its version there, `None` when it has not) at that
/// same version.
pub fn check_tagged_version(
    name: &str,
    version: &str,
    git_tag: &str,
    tag_exists: bool,
    registry_version: Option<&str>,
) -> (r: Result<(), String>)
    ensures
        !tag_exists ==> r is Ok,
        tag_exists && registry_version is None ==> (r matches Err(e) && e@ == tag_without_package_message(name@, git_tag@)),
        tag_exists && registry_version is Some && registry_version->0@ == version@ ==> r is Ok,
        tag_exists && registry_version is Some && registry_version->0@ != version@ ==> (r matches Err(e) && e@
            == tag_with_other_version_message(name@, version@, registry_version->0@, git_tag@)),
{
    if !tag_exists {
        return Ok(());
    }
    match registry_version {
        None => {
            let mut e = String::new();
            push_str(&mut e, "package `");
            push_str(&mut e, name);
            push_str(&mut e, "` not found in the registry, but the git tag ");
            push_str(&mut e, git_tag);
            push_str(&mut e, " exists. Consider running `cargo publish` manually to publish this package.");
            Err(e)
        },
        Some(rv) => {
            if str_equal(rv, version) {
                Ok(())
            } else {
                let mut e = String::new();
                push_str(&mut e, "package `");
                push_str(&mut e, name);
                push_str(&mut e, "` has a different version (");
                push_str(&mut e, version);
                push_str(&mut e, ") with respect to the registry package (");
                push_str(&mut e, rv);
                push_str(&mut e, "), but the git tag ");
                push_str(&mut e, git_tag);
                push_str(&mut e, " exists. Consider running `cargo publish` manually to publish the new version of this package.");
                Err(e)
            }
        },
    }
}

/// After the configuration of a package is set, the package reads that configuration, and
/// every other package reads what it read before.
pub proof fn law_config_read_after_set(
    before: PackagesConfig,
    after: PackagesConfig,
    name: Seq<char>,
    config: PackageUpdateConfig,
    other: Seq<char>,
)
    requires
        after.default_config() == before.default_config(),
        after.overrides_map() == before.overrides_map().insert(name, config),
    ensures
        after.config_for(name) == config,
        other != name ==> after.config_for(other) == before.config_for(other),
{
}

/// Changing the default configuration changes what the packages without their own read, and
/// only that.
pub proof fn law_default_config_applies_to_the_others(
    before: PackagesConfig,
    after: PackagesConfig,
    name: Seq<char>,
)
    requires
        after.overrides_map() == before.overrides_map(),
    ensures
        before.overrides_map().contains_key(name) ==> after.config_for(name) == before.config_for(name),
        !before.overrides_map().contains_key(name) ==> after.config_for(name) == after.default_config(),
{
}

/// The old changelog is kept only when there is a changelog request, the package is not
/// published yet (its next version is its current one), and the old changelog exists and its
/// last release is already the next version; in every other case an entry is built: after the
/// last version of the old changelog (or the current version when it has none) for a published
/// package with a request, after nothing otherwise.
pub proof fn law_changelog_kept_only_when_it_has_the_next_version(
    has_request: bool,
    next_version: Seq<char>,
    package_version: Seq<char>,
    old_changelog: Option<Seq<char>>,
)
    ensures
        changelog_plan_spec(has_request, next_version, package_version, old_changelog) is None <==> (has_request
            && next_version == package_version && old_changelog is Some
            && crate::changelog_parser::last_release_field(old_changelog->0, 0) == Ok::<
            Option<Seq<char>>,
            Seq<char>,
        >(Some(next_version))),
        has_request && next_version != package_version ==> changelog_plan_spec(
            has_request,
            next_version,
            package_version,
            old_changelog,
        ) == Some(Some(
            match old_changelog {
                Some(c) => match crate::changelog_parser::last_release_field(c, 0) {
                    Ok(Some(v)) => v,
                    _ => package_version,
                },
                None => package_version,
            },
        )),
        !has_request ==> changelog_plan_spec(has_request, next_version, package_version, old_changelog) == Some(
            None::<Seq<char>>,
        ),
        has_request && next_version == package_version && old_changelog is None ==> changelog_plan_spec(
            has_request,
            next_version,
            package_version,
            old_changelog,
        ) == Some(None::<Seq<char>>),
        has_request && next_version == package_version && !(old_changelog is Some
            && crate::changelog_parser::last_release_field(old_changelog->0, 0) == Ok::<
            Option<Seq<char>>,
            Seq<char>,
        >(Some(next_version))) ==> changelog_plan_spec(
            has_request,
            next_version,
            package_version,
            old_changelog,
        ) == Some(None::<Seq<char>>),
{
}

/// A package that inherits the workspace version gets the new workspace version when there is
/// one; any other package gets the version of its group when it has one, and its own next
/// version when it has none.
pub proof fn law_next_version_follows_workspace_group_or_own(
    workspace_version: Option<Seq<char>>,
    inherits_workspace_version: bool,
    version_group: Option<Seq<char>>,
    group_versions: Seq<(Seq<char>, Seq<char>)>,
    own_next_version: Seq<char>,
    k: int,
)
    requires
        forall|a: int, b: int| 0 <= a < b < group_versions.len() ==> #[trigger] group_versions[a].0 != #[trigger] group_versions[b].0,
    ensures
        workspace_version is Some && inherits_workspace_version ==> next_version_choice_spec(
            workspace_version,
            inherits_workspace_version,
            version_group,
            group_versions,
            own_next_version,
        ) == Ok::<Seq<char>, Seq<char>>(workspace_version->0),
        !inherits_workspace_version && version_group is None ==> next_version_choice_spec(
            workspace_version,
            inherits_workspace_version,
            version_group,
            group_versions,
            own_next_version,
        ) == Ok::<Seq<char>, Seq<char>>(own_next_version),
        workspace_version is None && version_group is None ==> next_version_choice_spec(
            workspace_version,
            inherits_workspace_version,
            version_group,
            group_versions,
            own_next_version,
        ) == Ok::<Seq<char>, Seq<char>>(own_next_version),
        !(workspace_version is Some && inherits_workspace_version) && version_group is Some && 0 <= k
            < group_versions.len() && group_versions[k].0 == version_group->0 ==> next_version_choice_spec(
            workspace_version,
            inherits_workspace_version,
            version_group,
            group_versions,
            own_next_version,
        ) == Ok::<Seq<char>, Seq<char>>(group_versions[k].1),
{
    if !(workspace_version is Some && inherits_workspace_version) && version_group is Some && 0 <= k
        < group_versions.len() && group_versions[k].0 == version_group->0 {
        let g = version_group->0;
        let c = choose|c: int| 0 <= c < group_versions.len() && #[trigger] group_versions[c].0 == g;
        if c != k {
            if c < k {
                assert(group_versions[c].0 != group_versions[k].0);
            } else {
                assert(group_versions[k].0 != group_versions[c].0);
            }
        }
    }
}

} // verus!
