//! The packages of a project that are released, and the checks on them.
use vstd::prelude::*;
use crate::order::{
    lemma_text_lt_irreflexive, lemma_text_lt_total, lemma_text_lt_transitive, str_less, strictly_sorted,
    text_lt,
};
use crate::next_ver::{is_publishable_spec, Publishable, ReleaseMetadata, ReleaseMetadataBuilder};
use crate::package::Package;
use crate::text::{join, push_str, str_equal};

verus! {

/// Whether `items` holds a string equal to `x`.
pub fn contains_string(items: &Vec<String>, x: &str) -> (r: bool)
    ensures
        r == items.deep_view().contains(x@),
{
    let ghost d = items.deep_view();
    let mut i: usize = 0;
    while i < items.len()
        invariant
            i <= items@.len(),
            d == items.deep_view(),
            forall|k: int| 0 <= k < i ==> d[k] != x@,
        decreases items.len() - i,
    {
        if str_equal(items[i].as_str(), x) {
            assert(d[i as int] == x@);
            return true;
        }
        i += 1;
    }
    assert(!d.contains(x@)) by {
        if d.contains(x@) {
            let k = choose|k: int| 0 <= k < d.len() && d[k] == x@;
            assert(d[k] != x@);
        }
    }
    false
}

/// Inserts `x` at its place in the strictly sorted `v`, unless `v` already holds it.
pub fn insert_sorted(v: &mut Vec<String>, x: String)
    requires
        strictly_sorted(old(v).deep_view()),
    ensures
        strictly_sorted(final(v).deep_view()),
        final(v).deep_view().to_set() == old(v).deep_view().to_set().insert(x@),
{
    let ghost s = v.deep_view();
    let mut p: usize = 0;
    while p < v.len() && str_less(v[p].as_str(), x.as_str())
        invariant
            p <= v@.len(),
            s == v.deep_view(),
            strictly_sorted(s),
            forall|k: int| 0 <= k < p ==> text_lt(#[trigger] s[k], x@),
        decreases v.len() - p,
    {
        p += 1;
    }
    if p < v.len() && str_equal(v[p].as_str(), x.as_str()) {
        assert(s.to_set().insert(x@) =~= s.to_set()) by {
            assert(s[p as int] == x@);
        }
        return;
    }
    proof {
        if p < s.len() {
            assert(!text_lt(s[p as int], x@));
            assert(s[p as int] != x@);
            lemma_text_lt_total(s[p as int], x@);
            assert(text_lt(x@, s[p as int]));
            assert forall|k: int| p < k < s.len() implies text_lt(x@, #[trigger] s[k]) by {
                lemma_text_lt_transitive(x@, s[p as int], s[k]);
            }
        }
    }
    let ghost xv = x@;
    v.insert(p, x);
    let ghost t = v.deep_view();
    assert(t =~= s.insert(p as int, xv));
    assert(strictly_sorted(t)) by {
        assert forall|i: int, j: int| 0 <= i < j < t.len() implies text_lt(#[trigger] t[i], #[trigger] t[j]) by {
            if j < p {
            } else if j == p {
            } else if i < p {
                assert(t[j] == s[j - 1]);
                if j - 1 == p {
                    lemma_text_lt_transitive(s[i], xv, s[j - 1]);
                } else {
                    lemma_text_lt_transitive(s[i], xv, s[j - 1]);
                }
            } else if i == p {
            } else {
                assert(t[i] == s[i - 1]);
                assert(t[j] == s[j - 1]);
            }
        }
    }
    assert(t.to_set() =~= s.to_set().insert(xv)) by {
        assert forall|y: Seq<char>| t.to_set().contains(y) implies s.to_set().insert(xv).contains(y) by {
            let k = choose|k: int| 0 <= k < t.len() && t[k] == y;
            if k < p {
                assert(s[k] == y);
            } else if k > p {
                assert(s[k - 1] == y);
            }
        }
        assert forall|y: Seq<char>| s.to_set().insert(xv).contains(y) implies t.to_set().contains(y) by {
            if y == xv {
                assert(t[p as int] == y);
            } else {
                let k = choose|k: int| 0 <= k < s.len() && s[k] == y;
                if k < p {
                    assert(t[k] == y);
                } else {
                    assert(t[k + 1] == y);
                }
            }
        }
    }
}

/// The overrides that name no package of the workspace.
pub open spec fn missing_overrides(packages: Seq<Seq<char>>, overrides: Seq<Seq<char>>) -> Set<Seq<char>> {
    Set::new(|x: Seq<char>| overrides.contains(x) && !packages.contains(x))
}

/// Overrides that name no package of the workspace (probably typos), sorted.
#[derive(Debug, Clone)]
pub struct TyposError {
    /// The missing package names, strictly sorted.
    pub missing: Vec<String>,
}

/// The names in backticks, separated by commas.
pub open spec fn quoted_list(names: Seq<Seq<char>>) -> Seq<char> {
    join(names.map_values(|n: Seq<char>| "`"@ + n + "`"@), ", "@)
}

/// Message of a [`TyposError`].
pub open spec fn typos_message(missing: Seq<Seq<char>>) -> Seq<char> {
    "The following overrides are not present in the workspace: "@ + quoted_list(missing) + ". Check for typos"@
}

impl TyposError {
    /// The error message.
    pub fn to_string(&self) -> (s: String)
        ensures
            s@ == typos_message(self.missing.deep_view()),
    {
        let ghost names = self.missing.deep_view();
        let ghost quoted = names.map_values(|n: Seq<char>| "`"@ + n + "`"@);
        let mut list = String::new();
        let mut i: usize = 0;
        while i < self.missing.len()
            invariant
                i <= self.missing@.len(),
                names == self.missing.deep_view(),
                quoted == names.map_values(|n: Seq<char>| "`"@ + n + "`"@),
                list@ == join(quoted.take(i as int), ", "@),
            decreases self.missing.len() - i,
        {
            let ghost prev = list@;
            if i > 0 {
                push_str(&mut list, ", ");
            }
            push_str(&mut list, "`");
            push_str(&mut list, self.missing[i].as_str());
            push_str(&mut list, "`");
            proof {
                let q = quoted.take(i + 1);
                assert(q.drop_last() == quoted.take(i as int));
                assert(q.last() == "`"@ + names[i as int] + "`"@);
                if i == 0 {
                    assert(q.len() == 1);
                    assert(list@ == "`"@ + names[i as int] + "`"@);
                } else {
                    assert(list@ == prev + ", "@ + ("`"@ + names[i as int] + "`"@));
                }
            }
            i += 1;
        }
        assert(quoted.take(self.missing@.len() as int) == quoted);
        let mut s = String::new();
        push_str(&mut s, "The following overrides are not present in the workspace: ");
        push_str(&mut s, list.as_str());
        push_str(&mut s, ". Check for typos");
        s
    }
}

/// Check for typos in the package names based on the overrides: every override must name a
/// package. The names that do not are reported, sorted and without repetition.
pub fn check_for_typos(packages: &Vec<String>, overrides: &Vec<String>) -> (r: Result<(), TyposError>)
    ensures
        r is Ok <==> missing_overrides(packages.deep_view(), overrides.deep_view()).is_empty(),
        r matches Err(e) ==> {
            &&& strictly_sorted(e.missing.deep_view())
            &&& e.missing.deep_view().to_set() == missing_overrides(packages.deep_view(), overrides.deep_view())
        },
{
    let ghost pk = packages.deep_view();
    let ghost ov = overrides.deep_view();
    let mut missing: Vec<String> = Vec::new();
    let mut i: usize = 0;
    assert(missing.deep_view().to_set() =~= Set::empty());
    while i < overrides.len()
        invariant
            i <= overrides@.len(),
            pk == packages.deep_view(),
            ov == overrides.deep_view(),
            strictly_sorted(missing.deep_view()),
            missing.deep_view().to_set() == missing_overrides(pk, ov.take(i as int)),
        decreases overrides.len() - i,
    {
        let ghost before = missing.deep_view().to_set();
        if !contains_string(packages, overrides[i].as_str()) {
            insert_sorted(&mut missing, overrides[i].clone());
        }
        assert(missing.deep_view().to_set() =~= missing_overrides(pk, ov.take(i + 1))) by {
            let q1 = ov.take(i + 1);
            let q0 = ov.take(i as int);
            assert(q1 == q0.push(ov[i as int]));
            assert forall|x: Seq<char>| q1.contains(x) <==> (q0.contains(x) || x == ov[i as int]) by {
                if q1.contains(x) {
                    let k = choose|k: int| 0 <= k < q1.len() && q1[k] == x;
                    if k < i {
                        assert(q0[k] == x);
                    }
                }
                if q0.contains(x) {
                    let k = choose|k: int| 0 <= k < q0.len() && q0[k] == x;
                    assert(q1[k] == x);
                }
                if x == ov[i as int] {
                    assert(q1[i as int] == x);
                }
            }
        }
        i += 1;
    }
    assert(ov.take(overrides@.len() as int) == ov);
    if missing.len() == 0 {
        assert(missing_overrides(pk, ov) =~= Set::empty()) by {
            assert(missing.deep_view().to_set() =~= Set::empty());
        }
        Ok(())
    } else {
        assert(missing.deep_view().to_set().contains(missing.deep_view()[0]));
        Err(TyposError { missing })
    }
}

/// Plain view of a list of strings in Rust's debug format (`["a", "b"]`).
pub uninterp spec fn debug_string_list(items: Seq<Seq<char>>) -> Seq<char>;

/// Formats a list of strings with `{:?}`; the text is named, not restated.
#[verifier::external_body]
fn format_debug_list(items: &Vec<String>) -> (r: String)
    ensures
        r@ == debug_string_list(items.deep_view()),
{
    format!("{items:?}")
}

/// Why a project cannot be released.
#[derive(Debug)]
pub enum ProjectError {
    /// Some overrides name no package.
    Typos(TyposError),
    /// No package of the project is released.
    NoPublicPackages {
        /// The names of the packages of the project.
        analyzed: Vec<String>,
    },
    /// The one package asked for is not released or does not exist.
    PackageNotFound { name: String },
}

/// Message of a [`ProjectError`].
pub open spec fn project_error_message(e: ProjectError) -> Seq<char> {
    match e {
        ProjectError::Typos(t) => typos_message(t.missing.deep_view()),
        ProjectError::NoPublicPackages { analyzed } => "no public packages found. Are there any public packages in your project? Analyzed packages: "@
            + debug_string_list(analyzed.deep_view()),
        ProjectError::PackageNotFound { name } => "package `"@ + name@ + "` not found. If it exists, is it public?"@,
    }
}

impl ProjectError {
    /// The error message.
    pub fn to_string(&self) -> (s: String)
        ensures
            s@ == project_error_message(*self),
    {
        match self {
            ProjectError::Typos(t) => t.to_string(),
            ProjectError::NoPublicPackages { analyzed } => {
                let mut s = String::new();
                push_str(&mut s, "no public packages found. Are there any public packages in your project? Analyzed packages: ");
                let list = format_debug_list(analyzed);
                push_str(&mut s, list.as_str());
                s
            },
            ProjectError::PackageNotFound { name } => {
                let mut s = String::new();
                push_str(&mut s, "package `");
                push_str(&mut s, name.as_str());
                push_str(&mut s, "` not found. If it exists, is it public?");
                s
            },
        }
    }
}

/// The packages whose release metadata is known, in order.
pub open spec fn released_packages(packages: Seq<Package>, metadata: Seq<Option<ReleaseMetadata>>) -> Seq<Package>
    decreases packages.len(),
{
    if packages.len() == 0 {
        Seq::empty()
    } else {
        released_packages(packages.drop_last(), metadata.take(packages.len() - 1)) + if metadata[packages.len() - 1] is Some {
            seq![packages.last()]
        } else {
            Seq::empty()
        }
    }
}

/// The release metadata of the released packages, with their names, in order.
pub open spec fn released_metadata(packages: Seq<Package>, metadata: Seq<Option<ReleaseMetadata>>) -> Seq<(Seq<char>, ReleaseMetadata)>
    decreases packages.len(),
{
    if packages.len() == 0 {
        Seq::empty()
    } else {
        released_metadata(packages.drop_last(), metadata.take(packages.len() - 1)) + match metadata[packages.len() - 1] {
            Some(m) => seq![(packages.last().name@, m)],
            None => Seq::empty(),
        }
    }
}

/// The packages of `packages` named `name`, in order.
pub open spec fn packages_named(packages: Seq<Package>, name: Seq<char>) -> Seq<Package> {
    packages.filter(|p: Package| p.name@ == name)
}

/// The names of a list of packages.
pub open spec fn package_names(packages: Seq<Package>) -> Seq<Seq<char>> {
    packages.map_values(|p: Package| p.name@)
}

/// The release metadata recorded last for the package named `name`.
pub open spec fn metadata_for(entries: Seq<(Seq<char>, ReleaseMetadata)>, name: Seq<char>) -> Option<ReleaseMetadata>
    decreases entries.len(),
{
    if entries.len() == 0 {
        None
    } else if entries.last().0 == name {
        Some(entries.last().1)
    } else {
        metadata_for(entries.drop_last(), name)
    }
}

/// The template used when a package sets none: with the package name when the project
/// releases several packages.
pub open spec fn default_template(contains_multiple_pub_packages: bool) -> Seq<char> {
    if contains_multiple_pub_packages {
        "{{ package }}-v{{ version }}"@
    } else {
        "v{{ version }}"@
    }
}

/// The project of a workspace.
#[derive(Debug)]
pub struct Project {
    /// Publishable packages.
    packages: Vec<Package>,
    /// Metadata for each release enabled package, with its name.
    release_metadata: Vec<(String, ReleaseMetadata)>,
    /// Project root directory
    root: cargo_metadata::camino::Utf8PathBuf,
    /// Directory containing the project manifest
    manifest_dir: cargo_metadata::camino::Utf8PathBuf,
    /// The project contains more than one public package.
    /// Not affected by `single_package` option.
    contains_multiple_pub_packages: bool,
}

/// Removes the first item of a non-empty vector.
pub(crate) fn take_first<T>(v: &mut Vec<T>) -> (x: T)
    requires
        old(v)@.len() > 0,
    ensures
        x == old(v)@[0],
        final(v)@ == old(v)@.drop_first(),
{
    v.remove(0)
}

impl Project {
    /// The packages of the project that are released.
    pub closed spec fn packages_spec(&self) -> Seq<Package> {
        self.packages@
    }

    /// The release metadata of the released packages (before any single package was picked),
    /// with their names.
    pub closed spec fn release_metadata_spec(&self) -> Seq<(Seq<char>, ReleaseMetadata)> {
        self.release_metadata@.map_values(|e: (String, ReleaseMetadata)| (e.0@, e.1))
    }

    /// More than one package of the project is released.
    pub closed spec fn contains_multiple_pub_packages_spec(&self) -> bool {
        self.contains_multiple_pub_packages
    }

    /// The project root directory.
    pub closed spec fn root_spec(&self) -> cargo_metadata::camino::Utf8PathBuf {
        self.root
    }

    /// The directory containing the project manifest.
    pub closed spec fn manifest_dir_spec(&self) -> cargo_metadata::camino::Utf8PathBuf {
        self.manifest_dir
    }

    /// The project made of the `packages` of a workspace, given the release metadata of each
    /// (`None` for a package that is not released), keeping the released packages, and of them
    /// only the `single_package` when one is named.
    pub fn from_release_metadata(
        packages: Vec<Package>,
        metadata: Vec<Option<ReleaseMetadata>>,
        root: cargo_metadata::camino::Utf8PathBuf,
        manifest_dir: cargo_metadata::camino::Utf8PathBuf,
        single_package: Option<&str>,
    ) -> (r: Result<Project, ProjectError>)
        requires
            metadata@.len() == packages@.len(),
        ensures
            ({
                let kept = released_packages(packages@, metadata@);
                match r {
                    Ok(p) => {
                        &&& kept.len() > 0
                        &&& p.contains_multiple_pub_packages_spec() == (kept.len() > 1)
                        &&& p.release_metadata_spec() == released_metadata(packages@, metadata@)
                        &&& p.root_spec() == root
                        &&& p.manifest_dir_spec() == manifest_dir
                        &&& match single_package {
                            Some(name) => p.packages_spec() == packages_named(kept, name@)
                                && packages_named(kept, name@).len() > 0,
                            None => p.packages_spec() == kept,
                        }
                    },
                    Err(ProjectError::NoPublicPackages { analyzed }) => kept.len() == 0
                        && analyzed.deep_view() == package_names(packages@),
                    Err(ProjectError::PackageNotFound { name }) => kept.len() > 0 && single_package is Some
                        && name@ == single_package->0@ && packages_named(kept, name@).len() == 0,
                    Err(ProjectError::Typos(_)) => false,
                }
            }),
    {
        let ghost all = packages@;
        let ghost all_md = metadata@;
        let mut names: Vec<String> = Vec::new();
        let mut i: usize = 0;
        while i < packages.len()
            invariant
                i <= packages@.len(),
                names.deep_view() == package_names(packages@.take(i as int)),
            decreases packages.len() - i,
        {
            names.push(packages[i].name.clone());
            assert(package_names(packages@.take(i + 1)) == package_names(packages@.take(i as int)).push(packages@[i as int].name@));
            i += 1;
        }
        assert(packages@.take(packages@.len() as int) == packages@);
        let mut rest = packages;
        let mut rest_md = metadata;
        let mut kept: Vec<Package> = Vec::new();
        let mut entries: Vec<(String, ReleaseMetadata)> = Vec::new();
        let mut j: usize = 0;
        while rest.len() > 0
            invariant
                j <= all.len(),
                all.len() <= usize::MAX,
                all_md.len() == all.len(),
                rest@ == all.skip(j as int),
                rest_md@ == all_md.skip(j as int),
                kept@ == released_packages(all.take(j as int), all_md.take(j as int)),
                entries@.map_values(|e: (String, ReleaseMetadata)| (e.0@, e.1)) == released_metadata(all.take(j as int), all_md.take(j as int)),
            decreases rest@.len(),
        {
            let p = take_first(&mut rest);
            let m = take_first(&mut rest_md);
            proof {
                assert(all.take(j + 1).drop_last() == all.take(j as int));
                assert(all_md.take(j + 1).take(j as int) == all_md.take(j as int));
                assert(all.take(j + 1).last() == p);
                assert(all_md.take(j + 1)[j as int] == m);
                assert(rest@ == all.skip(j + 1));
                assert(rest_md@ == all_md.skip(j + 1));
            }
            let ghost ev = entries@.map_values(|e: (String, ReleaseMetadata)| (e.0@, e.1));
            match m {
                Some(md) => {
                    let name = p.name.clone();
                    kept.push(p);
                    entries.push((name, md));
                    assert(entries@.map_values(|e: (String, ReleaseMetadata)| (e.0@, e.1)) == ev.push((p.name@, md)));
                },
                None => {},
            }
            j += 1;
        }
        proof {
            assert(all.take(j as int) == all);
            assert(all_md.take(j as int) == all_md);
        }
        if kept.len() == 0 {
            return Err(ProjectError::NoPublicPackages { analyzed: names });
        }
        let contains_multiple_pub_packages = kept.len() > 1;
        let packages = match single_package {
            Some(pac) => {
                let ghost k0 = kept@;
                let mut chosen: Vec<Package> = Vec::new();
                let mut t: usize = 0;
                while kept.len() > 0
                    invariant
                        t <= k0.len(),
                        k0.len() <= usize::MAX,
                        kept@ == k0.skip(t as int),
                        chosen@ == packages_named(k0.take(t as int), pac@),
                    decreases kept@.len(),
                {
                    let p = take_first(&mut kept);
                    proof {
                        assert(k0.take(t + 1).drop_last() == k0.take(t as int));
                        assert(k0.take(t + 1).last() == p);
                        assert(kept@ == k0.skip(t + 1));
                        assert(k0.take(t + 1) == k0.take(t as int).push(p));
                        k0.take(t as int).lemma_filter_push(p, |q: Package| q.name@ == pac@);
                    }
                    if str_equal(p.name.as_str(), pac) {
                        chosen.push(p);
                    }
                    t += 1;
                }
                assert(k0.take(t as int) == k0);
                if chosen.len() == 0 {
                    let mut name = String::new();
                    push_str(&mut name, pac);
                    return Err(ProjectError::PackageNotFound { name });
                }
                chosen
            },
            None => kept,
        };
        Ok(Project { packages, release_metadata: entries, root, manifest_dir, contains_multiple_pub_packages })
    }

    /// The project made of the `packages` of a workspace: checks that each override names a
    /// package, asks the builder for the release metadata of each package, and keeps the
    /// released packages (see [`Project::from_release_metadata`]).
    pub fn new<B: ReleaseMetadataBuilder>(
        packages: Vec<Package>,
        root: cargo_metadata::camino::Utf8PathBuf,
        manifest_dir: cargo_metadata::camino::Utf8PathBuf,
        single_package: Option<&str>,
        overrides: &Vec<String>,
        release_metadata_builder: &B,
    ) -> (r: Result<Project, ProjectError>)
        ensures
            r matches Err(ProjectError::Typos(e)) ==> !missing_overrides(package_names(packages@), overrides.deep_view()).is_empty()
                && e.missing.deep_view().to_set() == missing_overrides(package_names(packages@), overrides.deep_view())
                && strictly_sorted(e.missing.deep_view()),
            !missing_overrides(package_names(packages@), overrides.deep_view()).is_empty() ==> r matches Err(ProjectError::Typos(_)),
            missing_overrides(package_names(packages@), overrides.deep_view()).is_empty() ==> exists|md: Seq<Option<ReleaseMetadata>>| {
                let kept = #[trigger] released_packages(packages@, md);
                &&& md.len() == packages@.len()
                &&& match r {
                    Ok(p) => {
                        &&& kept.len() > 0
                        &&& p.contains_multiple_pub_packages_spec() == (kept.len() > 1)
                        &&& p.release_metadata_spec() == released_metadata(packages@, md)
                        &&& p.root_spec() == root
                        &&& p.manifest_dir_spec() == manifest_dir
                        &&& match single_package {
                            Some(name) => p.packages_spec() == packages_named(kept, name@)
                                && packages_named(kept, name@).len() > 0,
                            None => p.packages_spec() == kept,
                        }
                    },
                    Err(ProjectError::NoPublicPackages { analyzed }) => kept.len() == 0
                        && analyzed.deep_view() == package_names(packages@),
                    Err(ProjectError::PackageNotFound { name }) => kept.len() > 0 && single_package is Some
                        && name@ == single_package->0@ && packages_named(kept, name@).len() == 0,
                    Err(ProjectError::Typos(_)) => false,
                }
            },
    {
        let mut names: Vec<String> = Vec::new();
        let mut i: usize = 0;
        while i < packages.len()
            invariant
                i <= packages@.len(),
                names.deep_view() == package_names(packages@.take(i as int)),
            decreases packages.len() - i,
        {
            names.push(packages[i].name.clone());
            assert(package_names(packages@.take(i + 1)) == package_names(packages@.take(i as int)).push(packages@[i as int].name@));
            i += 1;
        }
        assert(packages@.take(packages@.len() as int) == packages@);
        match check_for_typos(&names, overrides) {
            Ok(()) => {},
            Err(e) => {
                return Err(ProjectError::Typos(e));
            },
        }
        let mut metadata: Vec<Option<ReleaseMetadata>> = Vec::new();
        let mut k: usize = 0;
        while k < packages.len()
            invariant
                k <= packages@.len(),
                metadata@.len() == k,
            decreases packages.len() - k,
        {
            metadata.push(release_metadata_builder.get_release_metadata(packages[k].name.as_str()));
            k += 1;
        }
        let ghost md = metadata@;
        let ghost pk = packages@;
        let r = Project::from_release_metadata(packages, metadata, root, manifest_dir, single_package);
        assert(released_packages(pk, md) == released_packages(pk, md));
        r
    }

    pub fn root(&self) -> (r: &cargo_metadata::camino::Utf8PathBuf)
        ensures
            *r == self.root_spec(),
    {
        &self.root
    }

    /// The packages that can be published.
    pub fn publishable_packages(&self) -> (r: Vec<&Package>)
        ensures
            r@ == self.packages_spec().filter(|p: Package| is_publishable_spec(p)).map_values(|p: Package| &p),
    {
        let ghost all = self.packages@;
        let ghost f = |p: Package| is_publishable_spec(p);
        let mut r: Vec<&Package> = Vec::new();
        let mut k: usize = 0;
        while k < self.packages.len()
            invariant
                k <= all.len(),
                all == self.packages@,
                f == (|p: Package| is_publishable_spec(p)),
                r@ == all.take(k as int).filter(f).map_values(|p: Package| &p),
            decreases self.packages.len() - k,
        {
            proof {
                assert(all.take(k + 1) == all.take(k as int).push(all[k as int]));
                all.take(k as int).lemma_filter_push(all[k as int], f);
            }
            if self.packages[k].is_publishable() {
                r.push(&self.packages[k]);
                assert(r@ == all.take(k as int).filter(f).map_values(|p: Package| &p).push(&all[k as int]));
            }
            k += 1;
        }
        assert(all.take(all.len() as int) == all);
        r
    }

    /// Get all packages, including non-publishable.
    pub fn workspace_packages(&self) -> (r: Vec<&Package>)
        ensures
            r@ == self.packages_spec().map_values(|p: Package| &p),
    {
        let mut r: Vec<&Package> = Vec::new();
        let mut k: usize = 0;
        while k < self.packages.len()
            invariant
                k <= self.packages@.len(),
                r@ == self.packages@.take(k as int).map_values(|p: Package| &p),
            decreases self.packages.len() - k,
        {
            r.push(&self.packages[k]);
            assert(self.packages@.take(k + 1).map_values(|p: Package| &p) == self.packages@.take(k as int).map_values(|p: Package| &p).push(&self.packages@[k as int]));
            k += 1;
        }
        assert(self.packages@.take(self.packages@.len() as int) == self.packages@);
        r
    }
}

impl Project {
    /// The index of the entry recorded last for the package named `name`.
    fn metadata_index(&self, name: &str) -> (r: Option<usize>)
        ensures
            match r {
                Some(k) => k < self.release_metadata@.len() && metadata_for(self.release_metadata_spec(), name@)
                    == Some(self.release_metadata@[k as int].1),
                None => metadata_for(self.release_metadata_spec(), name@) is None,
            },
    {
        let ghost es = self.release_metadata_spec();
        let mut k: usize = self.release_metadata.len();
        assert(es.take(k as int) == es);
        while k > 0
            invariant
                k <= self.release_metadata@.len(),
                es == self.release_metadata_spec(),
                metadata_for(es, name@) == metadata_for(es.take(k as int), name@),
            decreases k,
        {
            let ghost pre = es.take(k as int);
            assert(pre.last() == (self.release_metadata@[k - 1].0@, self.release_metadata@[k - 1].1));
            assert(pre.drop_last() == es.take(k - 1));
            if str_equal(self.release_metadata[k - 1].0.as_str(), name) {
                return Some(k - 1);
            }
            k -= 1;
        }
        None
    }

    /// The template of the git tag of the package named `package_name`: its own, else the
    /// default one of the project.
    pub fn git_tag_template(&self, package_name: &str) -> (r: String)
        ensures
            r@ == match metadata_for(self.release_metadata_spec(), package_name@) {
                Some(m) if m.tag_name_template is Some => m.tag_name_template->0@,
                _ => default_template(self.contains_multiple_pub_packages_spec()),
            },
    {
        if let Some(k) = self.metadata_index(package_name) {
            if let Some(t) = &self.release_metadata[k].1.tag_name_template {
                return t.clone();
            }
        }
        self.default_template()
    }

    /// The template of the git release name of the package named `package_name`: its own,
    /// else the default one of the project.
    pub fn release_name_template(&self, package_name: &str) -> (r: String)
        ensures
            r@ == match metadata_for(self.release_metadata_spec(), package_name@) {
                Some(m) if m.release_name_template is Some => m.release_name_template->0@,
                _ => default_template(self.contains_multiple_pub_packages_spec()),
            },
    {
        if let Some(k) = self.metadata_index(package_name) {
            if let Some(t) = &self.release_metadata[k].1.release_name_template {
                return t.clone();
            }
        }
        self.default_template()
    }

    fn default_template(&self) -> (r: String)
        ensures
            r@ == default_template(self.contains_multiple_pub_packages_spec()),
    {
        let mut r = String::new();
        if self.contains_multiple_pub_packages {
            push_str(&mut r, "{{ package }}-v{{ version }}");
        } else {
            push_str(&mut r, "v{{ version }}");
        }
        r
    }
}

} // verus!
