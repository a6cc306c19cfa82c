//! Setting the version of packages: the new version and where its changelog is.
use vstd::prelude::*;
use crate::changelog_parser::{changelog_parse_outcome, last_release_from_str, last_release_spec};
use crate::text::{replace_all, replace_all_spec, replace_first, replace_first_spec};
use crate::version::Version;
use crate::overrides::Overrides;
use crate::text::push_str;
use cargo_metadata::camino::Utf8PathBuf;

verus! {

/// The new version of a package, and where its changelog is.
pub struct VersionChange {
    version: Version,
    /// This path needs to be a relative path to the Cargo.toml of the project.
    /// I.e. if you have a workspace, it needs to be relative to the workspace root.
    pub changelog_path: Option<cargo_metadata::camino::Utf8PathBuf>,
}

impl VersionChange {
    /// The version the package is set to.
    pub closed spec fn version_spec(&self) -> crate::version::VersionView {
        self.version@
    }

    /// Where the changelog of the package is, if set.
    pub closed spec fn changelog_path_spec(&self) -> Option<cargo_metadata::camino::Utf8PathBuf> {
        self.changelog_path
    }

    pub fn new(version: Version) -> (c: Self)
        ensures
            c.version_spec() == version@,
            c.changelog_path_spec().is_none(),
    {
        Self { version, changelog_path: None }
    }

    /// The version the package is set to.
    pub fn version(&self) -> (r: &Version)
        ensures
            r@ == self.version_spec(),
    {
        &self.version
    }

    pub fn with_changelog_path(&mut self, changelog_path: cargo_metadata::camino::Utf8PathBuf)
        ensures
            final(self).changelog_path_spec() == Some(changelog_path),
            final(self).version_spec() == old(self).version_spec(),
    {
        self.changelog_path = Some(changelog_path);
    }
}

/// A copy of a version, part by part.
fn copy_version(v: &Version) -> (r: Version)
    ensures
        r@ == v@,
{
    let mut pre = String::new();
    push_str(&mut pre, v.pre.as_str());
    let mut build = String::new();
    push_str(&mut build, v.build.as_str());
    Version { major: v.major, minor: v.minor, patch: v.patch, pre, build }
}

/// The new version and the changelog path of a change, as plain values.
pub open spec fn change_view(c: VersionChange) -> (crate::version::VersionView, Option<Utf8PathBuf>) {
    (c.version_spec(), c.changelog_path_spec())
}

/// The changes of `m` with each change of `added` set under its package name, in order.
pub open spec fn changes_inserted(
    m: Map<Seq<char>, (crate::version::VersionView, Option<Utf8PathBuf>)>,
    added: Seq<(String, VersionChange)>,
) -> Map<Seq<char>, (crate::version::VersionView, Option<Utf8PathBuf>)>
    decreases added.len(),
{
    if added.len() == 0 {
        m
    } else {
        changes_inserted(m, added.drop_last()).insert(added.last().0@, change_view(added.last().1))
    }
}

/// A request to set the version of some packages of a workspace.
pub struct SetVersionRequest {
    /// The manifest of the project you want to update.
    manifest: Utf8PathBuf,
    /// Cargo metadata.
    metadata: cargo_metadata::Metadata,
    /// <package name, version change>
    version_changes: Overrides<VersionChange>,
}

impl SetVersionRequest {
    #[verifier::type_invariant]
    closed spec fn well_formed(&self) -> bool {
        self.version_changes.well_formed()
    }

    /// The version change of each package that has one.
    pub closed spec fn changes_view(&self) -> Map<Seq<char>, (crate::version::VersionView, Option<Utf8PathBuf>)> {
        self.version_changes@.map_values(|c: VersionChange| change_view(c))
    }

    /// The manifest of the workspace.
    pub closed spec fn manifest_spec(&self) -> Utf8PathBuf {
        self.manifest
    }

    /// The cargo metadata of the workspace.
    pub closed spec fn metadata_spec(&self) -> cargo_metadata::Metadata {
        self.metadata
    }

    /// A request with the given changes (a later change of a package replaces an earlier one)
    /// on the workspace whose manifest is `manifest` (as a canonical path).
    pub fn new(version_changes: Vec<(String, VersionChange)>, metadata: cargo_metadata::Metadata, manifest: Utf8PathBuf) -> (r: Self)
        ensures
            r.changes_view() == changes_inserted(Map::empty(), version_changes@),
            r.metadata_spec() == metadata,
            r.manifest_spec() == manifest,
    {
        let ghost all = version_changes@;
        assert(all.len() == version_changes.len());
        let mut changes: Overrides<VersionChange> = Overrides::new();
        let mut rest = version_changes;
        let mut k: usize = 0;
        assert(all.skip(0) =~= all);
        assert(changes@.map_values(|c: VersionChange| change_view(c)) =~= changes_inserted(Map::empty(), all.take(0)));
        while rest.len() > 0
            invariant
                k <= all.len(),
                all.len() <= usize::MAX,
                rest@ == all.skip(k as int),
                changes.well_formed(),
                changes@.map_values(|c: VersionChange| change_view(c)) == changes_inserted(Map::empty(), all.take(k as int)),
            decreases rest@.len(),
        {
            let (name, change) = crate::project::take_first(&mut rest);
            proof {
                assert(all.take(k + 1).drop_last() == all.take(k as int));
                assert(all.take(k + 1).last() == (name, change));
                assert(rest@ == all.skip(k + 1));
            }
            let ghost before = changes@;
            let ghost nv = name@;
            let ghost cv = change;
            changes.set(name, change);
            proof {
                assert(changes@.map_values(|c: VersionChange| change_view(c)) =~= before.map_values(
                    |c: VersionChange| change_view(c),
                ).insert(nv, change_view(cv)));
            }
            k += 1;
        }
        assert(all.take(k as int) =~= all);
        Self { manifest, metadata, version_changes: changes }
    }

    /// Sets the changelog path of the change of `package`, if it has one.
    pub fn set_changelog_path(&mut self, package: &str, changelog_path: Utf8PathBuf)
        ensures
            final(self).changes_view() == if old(self).changes_view().contains_key(package@) {
                old(self).changes_view().insert(package@, (old(self).changes_view()[package@].0, Some(changelog_path)))
            } else {
                old(self).changes_view()
            },
            final(self).manifest_spec() == old(self).manifest_spec(),
            final(self).metadata_spec() == old(self).metadata_spec(),
    {
        proof {
            use_type_invariant(&*self);
        }
        let change = match self.version_changes.get(package) {
            Some(c) => {
                let mut change = VersionChange::new(copy_version(&c.version));
                change.with_changelog_path(changelog_path);
                Some(change)
            },
            None => None,
        };
        match change {
            Some(change) => {
                let mut name = String::new();
                push_str(&mut name, package);
                let ghost before = self.version_changes@;
                let ghost cv = change;
                let mut changes: Overrides<VersionChange> = Overrides::new();
                std::mem::swap(&mut changes, &mut self.version_changes);
                changes.set(name, change);
                self.version_changes = changes;
                proof {
                    assert(self.changes_view() =~= before.map_values(|c: VersionChange| change_view(c)).insert(
                        package@,
                        change_view(cv),
                    ));
                }
            },
            None => {},
        }
    }

    /// The version change of `package`, if it has one.
    pub fn version_change(&self, package: &str) -> (r: Option<&VersionChange>)
        ensures
            match r {
                Some(c) => self.changes_view().contains_key(package@) && self.changes_view()[package@] == change_view(*c),
                None => !self.changes_view().contains_key(package@),
            },
    {
        proof {
            use_type_invariant(self);
        }
        self.version_changes.get(package)
    }

    /// The manifest of the workspace.
    pub fn manifest(&self) -> (r: &Utf8PathBuf)
        ensures
            *r == self.manifest_spec(),
    {
        &self.manifest
    }

    /// The cargo metadata of the workspace.
    pub fn cargo_metadata(&self) -> (r: &cargo_metadata::Metadata)
        ensures
            *r == self.metadata_spec(),
    {
        &self.metadata
    }
}

/// The changelog with the title of its last release changed from the old version to the new
/// one: every occurrence of the old version in the title (the version and the release link) is
/// replaced, then the first occurrence of the title in the changelog is.
pub open spec fn updated_changelog_spec(changelog: Seq<char>, old_version: Seq<char>, new_version: Seq<char>) -> Result<Seq<char>, Seq<char>> {
    match changelog_parse_outcome(changelog) {
        Err(_) => Err("can't parse changelog"@),
        Ok(notes) => match last_release_spec(notes) {
            None => Err("no release found"@),
            Some(n) => Ok(replace_first_spec(changelog, n.1, replace_all_spec(n.1, old_version, new_version))),
        },
    }
}

/// The changelog with the version of its last release set to `new_version` (see
/// [`updated_changelog_spec`]).
pub fn updated_changelog(changelog: &str, old_version: &str, new_version: &str) -> (r: Result<String, String>)
    ensures
        crate::url_text::string_result_view(r) == updated_changelog_spec(changelog@, old_version@, new_version@),
{
    let last_release = match last_release_from_str(changelog) {
        Err(e) => {
            return Err(e.to_string());
        },
        Ok(None) => {
            let mut e = String::new();
            crate::text::push_str(&mut e, "no release found");
            return Err(e);
        },
        Ok(Some(release)) => release,
    };
    let old_title = last_release.title();
    let new_title = replace_all(old_title, old_version, new_version);
    Ok(replace_first(changelog, old_title, new_title.as_str()))
}

} // verus!
