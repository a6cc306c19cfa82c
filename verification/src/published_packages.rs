//! The latest published version of the packages, by package name.
use vstd::prelude::*;
use crate::overrides::Overrides;
use crate::package::Package;
use crate::text::{opt_chars, str_equal};

verus! {

/// A published package.
pub struct PublishedPackage {
    pub package: Package,
    /// The SHA1 hash of the commit when the package was published.
    sha1: Option<String>,
}

impl PublishedPackage {
    /// The hash of the commit the package was published at, if known.
    pub closed spec fn sha1_spec(&self) -> Option<Seq<char>> {
        opt_chars(self.sha1)
    }

    /// The manifest of the published package.
    pub closed spec fn package_spec(&self) -> Package {
        self.package
    }

    pub fn new(package: Package, sha1: Option<String>) -> (p: Self)
        ensures
            p.package_spec() == package,
            p.sha1_spec() == opt_chars(sha1),
    {
        PublishedPackage { package, sha1 }
    }

    pub fn published_at_sha1(&self) -> (r: Option<&str>)
        ensures
            match r {
                Some(s) => self.sha1_spec() == Some(s@),
                None => self.sha1_spec() is None,
            },
    {
        match &self.sha1 {
            Some(s) => Some(s.as_str()),
            None => None,
        }
    }
}

/// A collection of [`PublishedPackage`]s, one per package name: a package added later replaces
/// the one of the same name.
pub struct PackagesCollection {
    packages: Overrides<PublishedPackage>,
}

impl PackagesCollection {
    /// The published packages, by name.
    pub closed spec fn packages_spec(&self) -> Map<Seq<char>, PublishedPackage> {
        self.packages@
    }

    /// The collection is well formed (a name has at most one package).
    pub closed spec fn well_formed(&self) -> bool {
        self.packages.well_formed()
    }

    pub fn new() -> (c: Self)
        ensures
            c.well_formed(),
            c.packages_spec() == Map::<Seq<char>, PublishedPackage>::empty(),
    {
        PackagesCollection { packages: Overrides::new() }
    }

    pub fn get_package(&self, package_name: &str) -> (r: Option<&Package>)
        requires
            self.well_formed(),
        ensures
            match r {
                Some(p) => self.packages_spec().contains_key(package_name@) && self.packages_spec()[package_name@].package_spec() == *p,
                None => !self.packages_spec().contains_key(package_name@),
            },
    {
        match self.packages.get(package_name) {
            Some(p) => Some(&p.package),
            None => None,
        }
    }

    pub fn get_published_package(&self, package_name: &str) -> (r: Option<&PublishedPackage>)
        requires
            self.well_formed(),
        ensures
            match r {
                Some(p) => self.packages_spec().contains_key(package_name@) && self.packages_spec()[package_name@] == *p,
                None => !self.packages_spec().contains_key(package_name@),
            },
    {
        self.packages.get(package_name)
    }

    /// Adds a published package under its name.
    pub fn push(&mut self, package: PublishedPackage)
        requires
            old(self).well_formed(),
        ensures
            final(self).well_formed(),
            final(self).packages_spec() == old(self).packages_spec().insert(package.package_spec().name@, package),
    {
        let name = package.package.name.clone();
        self.packages.set(name, package);
    }

    /// Adds published packages, in order.
    pub fn extend(&mut self, packages: Vec<PublishedPackage>)
        requires
            old(self).well_formed(),
        ensures
            final(self).well_formed(),
            final(self).packages_spec() == inserted_all(old(self).packages_spec(), packages@),
    {
        let ghost all = packages@;
        let ghost start = self.packages_spec();
        assert(all.len() == packages.len());
        let mut rest = packages;
        let mut k: usize = 0;
        while rest.len() > 0
            invariant
                k <= all.len(),
                all.len() <= usize::MAX,
                rest@ == all.skip(k as int),
                self.well_formed(),
                self.packages_spec() == inserted_all(start, all.take(k as int)),
            decreases rest@.len(),
        {
            let p = crate::project::take_first(&mut rest);
            proof {
                assert(all.take(k + 1).drop_last() == all.take(k as int));
                assert(all.take(k + 1).last() == p);
                assert(rest@ == all.skip(k + 1));
            }
            self.push(p);
            k += 1;
        }
        assert(all.take(k as int) == all);
    }
}

/// After a package is pushed, looking its name up gives it back, and every other name gives what
/// it gave before.
pub proof fn law_pushed_package_is_found(before: PackagesCollection, after: PackagesCollection, p: PublishedPackage, other: Seq<char>)
    requires
        after.packages_spec() == before.packages_spec().insert(p.package_spec().name@, p),
    ensures
        after.packages_spec().contains_key(p.package_spec().name@),
        after.packages_spec()[p.package_spec().name@] == p,
        other != p.package_spec().name@ ==> after.packages_spec().contains_key(other) == before.packages_spec().contains_key(other)
            && after.packages_spec()[other] == before.packages_spec()[other],
{
}

/// `m` with each package of `added` inserted under its name, in order.
pub open spec fn inserted_all(m: Map<Seq<char>, PublishedPackage>, added: Seq<PublishedPackage>) -> Map<Seq<char>, PublishedPackage>
    decreases added.len(),
{
    if added.len() == 0 {
        m
    } else {
        inserted_all(m, added.drop_last()).insert(added.last().package_spec().name@, added.last())
    }
}

/// The registry to download a package from: the one asked for, else the first one its manifest
/// names, else none (crates.io).
pub open spec fn download_registry(registry: Option<Seq<char>>, p: Package) -> Option<Seq<char>> {
    match registry {
        Some(r) => Some(r),
        None => match p.publish {
            Some(list) => if list@.len() > 0 { Some(list@[0]@) } else { None },
            None => None,
        },
    }
}

/// The packages grouped by the registry to download them from: runs of consecutive packages
/// with the same registry, in order, each with the names of its packages.
pub open spec fn registry_groups(registry: Option<Seq<char>>, packages: Seq<&Package>) -> Seq<(Option<Seq<char>>, Seq<Seq<char>>)>
    decreases packages.len(),
{
    if packages.len() == 0 {
        Seq::empty()
    } else {
        let prev = registry_groups(registry, packages.drop_last());
        let p = packages.last();
        let key = download_registry(registry, *p);
        if prev.len() > 0 && prev.last().0 == key {
            prev.update(prev.len() - 1, (key, prev.last().1.push(p.name@)))
        } else {
            prev.push((key, seq![p.name@]))
        }
    }
}

/// The registry to download the package from (see [`download_registry`]).
fn registry_of(registry: Option<&str>, p: &Package) -> (r: Option<String>)
    ensures
        opt_chars(r) == download_registry(match registry {
            Some(r) => Some(r@),
            None => None,
        }, *p),
{
    match registry {
        Some(r) => {
            let mut s = String::new();
            crate::text::push_str(&mut s, r);
            Some(s)
        },
        None => match &p.publish {
            Some(list) => if list.len() > 0 {
                Some(list[0].clone())
            } else {
                None
            },
            None => None,
        },
    }
}

/// Plain view of registry groups.
pub open spec fn groups_view(groups: Seq<(Option<String>, Vec<String>)>) -> Seq<(Option<Seq<char>>, Seq<Seq<char>>)> {
    groups.map_values(|g: (Option<String>, Vec<String>)| (opt_chars(g.0), g.1.deep_view()))
}

/// Whether two optional registries are the same.
fn same_registry(a: &Option<String>, b: &Option<String>) -> (r: bool)
    ensures
        r == (opt_chars(*a) == opt_chars(*b)),
{
    match (a, b) {
        (Some(x), Some(y)) => str_equal(x.as_str(), y.as_str()),
        (None, None) => true,
        _ => false,
    }
}

/// The names of the packages grouped by the registry to download them from (see
/// [`registry_groups`]).
pub fn packages_grouped_by_registry(registry: Option<&str>, packages: &[&Package]) -> (r: Vec<(Option<String>, Vec<String>)>)
    ensures
        groups_view(r@) == registry_groups(match registry {
            Some(r) => Some(r@),
            None => None,
        }, packages@),
{
    let ghost reg = match registry {
        Some(r) => Some(r@),
        None => None,
    };
    let mut groups: Vec<(Option<String>, Vec<String>)> = Vec::new();
    let mut k: usize = 0;
    while k < packages.len()
        invariant
            k <= packages@.len(),
            reg == match registry {
                Some(r) => Some(r@),
                None => None::<Seq<char>>,
            },
            groups_view(groups@) == registry_groups(reg, packages@.take(k as int)),
        decreases packages.len() - k,
    {
        let p = packages[k];
        let key = registry_of(registry, p);
        proof {
            assert(packages@.take(k + 1).drop_last() == packages@.take(k as int));
            assert(packages@.take(k + 1).last() == p);
        }
        let ghost before = groups_view(groups@);
        let n = groups.len();
        if n > 0 && same_registry(&groups[n - 1].0, &key) {
            let ghost old_groups = groups@;
            let (last_key, mut names) = groups.pop().unwrap();
            let ghost old_names = names;
            let name = p.name.clone();
            names.push(name);
            groups.push((last_key, names));
            proof {
                assert(old_groups.last() == (last_key, old_names));
                assert(old_names.deep_view().push(name@) =~= names.deep_view());
                assert(before.last().1 == old_names.deep_view());
                assert forall|i: int| 0 <= i < groups@.len() - 1 implies groups@[i] == old_groups[i] by {}
                assert(groups_view(groups@) =~= before.update(before.len() - 1, (opt_chars(key), before.last().1.push(p.name@))));
            }
        } else {
            let mut names: Vec<String> = Vec::new();
            names.push(p.name.clone());
            groups.push((key, names));
            proof {
                assert(names.deep_view() =~= seq![p.name@]);
                assert(groups_view(groups@) =~= before.push((opt_chars(key), seq![p.name@])));
            }
        }
        k += 1;
    }
    assert(packages@.take(packages@.len() as int) == packages@);
    groups
}

} // verus!
