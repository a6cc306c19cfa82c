//! Comparison of the dependencies locked in two `Cargo.lock` files.
use vstd::prelude::*;
use crate::text::str_equal;

verus! {

/// The packages locked by a `Cargo.lock`.
#[derive(Debug, Clone)]
pub struct Lockfile {
    pub packages: Vec<Package>,
}

/// A package locked by a `Cargo.lock`.
#[derive(Debug, Clone)]
pub struct Package {
    pub name: String,
    pub version: String,
}

/// `local` locks a package named as `rp`, but none at the version of `rp`.
pub open spec fn version_changed(local: Seq<Package>, rp: Package) -> bool {
    &&& exists|j: int| 0 <= j < local.len() && #[trigger] local[j].name@ == rp.name@
    &&& forall|j: int| 0 <= j < local.len() && #[trigger] local[j].name@ == rp.name@ ==> local[j].version@ != rp.version@
}

/// Some package of `registry` is locked in `local`, but at none of its versions. Packages that
/// only `local` locks do not count: they may be dependencies of development dependencies.
pub open spec fn dependencies_updated(local: Seq<Package>, registry: Seq<Package>) -> bool {
    exists|i: int| 0 <= i < registry.len() && #[trigger] version_changed(local, registry[i])
}

/// Packages grouped by name, to search faster.
/// Cargo.lock can contain multiple packages with the same name but different versions.
struct PackagesByName<'a> {
    groups: Vec<Vec<&'a Package>>,
}

impl<'a> PackagesByName<'a> {
    /// The groups are non-empty, hold packages of one name each, a name per group, and together
    /// the packages of `source`.
    spec fn groups_of(&self, source: Seq<Package>) -> bool {
        &&& forall|k: int| 0 <= k < self.groups@.len() ==> #[trigger] self.groups@[k]@.len() > 0
        &&& forall|k: int, m: int|
            0 <= k < self.groups@.len() && 0 <= m < self.groups@[k]@.len() ==> #[trigger] self.groups@[k]@[m].name@
                == self.groups@[k]@[0].name@ && source.contains(*self.groups@[k]@[m])
        &&& forall|k1: int, k2: int|
            0 <= k1 < self.groups@.len() && 0 <= k2 < self.groups@.len() && k1 != k2
                ==> #[trigger] self.groups@[k1]@[0].name@ != #[trigger] self.groups@[k2]@[0].name@
        &&& forall|j: int| #![trigger source[j]] 0 <= j < source.len() ==> self.grouped(source[j])
    }

    /// Some group holds `p`.
    spec fn grouped(&self, p: Package) -> bool {
        exists|k: int| 0 <= k < self.groups@.len() && #[trigger] self.groups@[k]@.contains(&p)
    }

    /// The index of the group of packages named `name`.
    fn find(&self, name: &str) -> (r: Option<usize>)
        requires
            forall|k: int| 0 <= k < self.groups@.len() ==> #[trigger] self.groups@[k]@.len() > 0,
        ensures
            match r {
                Some(k) => k < self.groups@.len() && self.groups@[k as int]@[0].name@ == name@,
                None => forall|k: int| 0 <= k < self.groups@.len() ==> #[trigger] self.groups@[k]@[0].name@ != name@,
            },
    {
        let mut k: usize = 0;
        while k < self.groups.len()
            invariant
                k <= self.groups@.len(),
                forall|k2: int| 0 <= k2 < self.groups@.len() ==> #[trigger] self.groups@[k2]@.len() > 0,
                forall|k2: int| 0 <= k2 < k ==> #[trigger] self.groups@[k2]@[0].name@ != name@,
            decreases self.groups.len() - k,
        {
            if str_equal(self.groups[k][0].name.as_str(), name) {
                return Some(k);
            }
            k += 1;
        }
        None
    }

    fn new(packages: &'a [Package]) -> (r: Self)
        ensures
            r.groups_of(packages@),
    {
        let mut r = PackagesByName { groups: Vec::new() };
        let mut t: usize = 0;
        while t < packages.len()
            invariant
                t <= packages@.len(),
                r.groups_of(packages@.take(t as int)),
            decreases packages.len() - t,
        {
            let p = &packages[t];
            let ghost before = r.groups@;
            let ghost src = packages@.take(t as int);
            let ghost src2 = packages@.take(t + 1);
            assert(src2 == src.push(*p));
            match r.find(p.name.as_str()) {
                Some(k) => {
                    r.groups[k].push(p);
                    proof {
                        assert forall|k1: int| 0 <= k1 < r.groups@.len() implies #[trigger] r.groups@[k1]@.len() > 0 by {
                            if k1 != k {
                                assert(r.groups@[k1] == before[k1]);
                            }
                        }
                        assert forall|k1: int, m: int|
                            0 <= k1 < r.groups@.len() && 0 <= m < r.groups@[k1]@.len() implies #[trigger] r.groups@[k1]@[m].name@
                                == r.groups@[k1]@[0].name@ && src2.contains(*r.groups@[k1]@[m]) by {
                            if k1 != k {
                                assert(r.groups@[k1] == before[k1]);
                                assert(before[k1]@[m].name@ == before[k1]@[0].name@);
                                assert(src.contains(*before[k1]@[m]));
                                let q = choose|q: int| 0 <= q < src.len() && src[q] == *before[k1]@[m];
                                assert(src2[q] == src[q]);
                            } else if m < before[k1]@.len() {
                                assert(r.groups@[k1]@[m] == before[k1]@[m]);
                                assert(before[k1]@[m].name@ == before[k1]@[0].name@);
                                assert(src.contains(*before[k1]@[m]));
                                let q = choose|q: int| 0 <= q < src.len() && src[q] == *before[k1]@[m];
                                assert(src2[q] == src[q]);
                            } else {
                                assert(src2[t as int] == *p);
                            }
                        }
                        assert forall|k1: int, k2: int|
                            0 <= k1 < r.groups@.len() && 0 <= k2 < r.groups@.len() && k1 != k2
                                implies #[trigger] r.groups@[k1]@[0].name@ != #[trigger] r.groups@[k2]@[0].name@ by {
                            assert(r.groups@[k1]@[0] == before[k1]@[0]);
                            assert(r.groups@[k2]@[0] == before[k2]@[0]);
                        }
                        assert forall|j: int| 0 <= j < src2.len() implies r.grouped(#[trigger] src2[j]) by {
                            if j < t {
                                assert(src2[j] == src[j]);
                                assert(src[j] == src[j]);
                                let k1 = choose|k1: int| 0 <= k1 < before.len() && #[trigger] before[k1]@.contains(&src[j]);
                                let m = choose|m: int| 0 <= m < before[k1]@.len() && before[k1]@[m] == &src[j];
                                assert(r.groups@[k1]@[m] == before[k1]@[m]);
                                assert(r.groups@[k1]@.contains(&src2[j]));
                            } else {
                                assert(r.groups@[k as int]@.last() == p);
                                assert(r.groups@[k as int]@.contains(&src2[j]));
                            }
                        }
                    }
                },
                None => {
                    let mut g: Vec<&'a Package> = Vec::new();
                    g.push(p);
                    r.groups.push(g);
                    proof {
                        let n = before.len();
                        assert forall|k1: int| 0 <= k1 < r.groups@.len() implies #[trigger] r.groups@[k1]@.len() > 0 by {
                            if k1 < n {
                                assert(r.groups@[k1] == before[k1]);
                            }
                        }
                        assert forall|k1: int, m: int|
                            0 <= k1 < r.groups@.len() && 0 <= m < r.groups@[k1]@.len() implies #[trigger] r.groups@[k1]@[m].name@
                                == r.groups@[k1]@[0].name@ && src2.contains(*r.groups@[k1]@[m]) by {
                            if k1 < n {
                                assert(r.groups@[k1] == before[k1]);
                                assert(before[k1]@[m].name@ == before[k1]@[0].name@);
                                assert(src.contains(*before[k1]@[m]));
                                let q = choose|q: int| 0 <= q < src.len() && src[q] == *before[k1]@[m];
                                assert(src2[q] == src[q]);
                            } else {
                                assert(src2[t as int] == *p);
                            }
                        }
                        assert forall|k1: int, k2: int|
                            0 <= k1 < r.groups@.len() && 0 <= k2 < r.groups@.len() && k1 != k2
                                implies #[trigger] r.groups@[k1]@[0].name@ != #[trigger] r.groups@[k2]@[0].name@ by {
                            if k1 < n && k2 < n {
                                assert(r.groups@[k1] == before[k1]);
                                assert(r.groups@[k2] == before[k2]);
                            } else if k1 < n {
                                assert(r.groups@[k1] == before[k1]);
                            } else {
                                assert(r.groups@[k2] == before[k2]);
                            }
                        }
                        assert forall|j: int| 0 <= j < src2.len() implies r.grouped(#[trigger] src2[j]) by {
                            if j < t {
                                assert(src2[j] == src[j]);
                                assert(src[j] == src[j]);
                                let k1 = choose|k1: int| 0 <= k1 < before.len() && #[trigger] before[k1]@.contains(&src[j]);
                                assert(r.groups@[k1] == before[k1]);
                                assert(r.groups@[k1]@.contains(&src2[j]));
                            } else {
                                assert(r.groups@[n as int]@[0] == p);
                                assert(r.groups@[n as int]@.contains(&src2[j]));
                            }
                        }
                    }
                },
            }
            t += 1;
        }
        assert(packages@.take(packages@.len() as int) == packages@);
        r
    }
}

/// Whether one of `group` is at `version`.
fn any_at_version(group: &Vec<&Package>, version: &str) -> (r: bool)
    ensures
        r == exists|m: int| 0 <= m < group@.len() && #[trigger] group@[m].version@ == version@,
{
    let mut m: usize = 0;
    while m < group.len()
        invariant
            m <= group@.len(),
            forall|m2: int| 0 <= m2 < m ==> #[trigger] group@[m2].version@ != version@,
        decreases group.len() - m,
    {
        if str_equal(group[m].version.as_str(), version) {
            assert(group@[m as int].version@ == version@);
            return true;
        }
        m += 1;
    }
    false
}

/// Whether the version of some package of `registry_lock` changed in `local_lock`.
fn are_dependencies_of_lockfiles_updated(
    registry_lock: &Lockfile,
    local_lock: &PackagesByName,
    Ghost(local): Ghost<Seq<Package>>,
) -> (r: bool)
    requires
        local_lock.groups_of(local),
    ensures
        r == dependencies_updated(local, registry_lock.packages@),
{
    // We iterate over registry packages, because the Cargo.lock of the
    // local package can have more packages.
    // In particular, the local package contains the dependencies of the dev dependencies.
    // If we iterate over local packages, this function will return true if
    // the dev dependencies contain a version of a package different from the one
    // used in the normal dependencies.
    let registry = &registry_lock.packages;
    let mut i: usize = 0;
    while i < registry.len()
        invariant
            i <= registry@.len(),
            registry@ == registry_lock.packages@,
            local_lock.groups_of(local),
            forall|i2: int| 0 <= i2 < i ==> !#[trigger] version_changed(local, registry@[i2]),
        decreases registry.len() - i,
    {
        let rp = &registry[i];
        match local_lock.find(rp.name.as_str()) {
            Some(k) => {
                let group = &local_lock.groups[k];
                let same = any_at_version(group, rp.version.as_str());
                proof {
                    let g = local_lock.groups@[k as int]@;
                    if same {
                        let m = choose|m: int| 0 <= m < g.len() && #[trigger] g[m].version@ == rp.version@;
                        assert(local_lock.groups@[k as int]@[m].name@ == local_lock.groups@[k as int]@[0].name@);
                        assert(g[m].name@ == g[0].name@ && local.contains(*g[m]));
                        let j = choose|j: int| 0 <= j < local.len() && local[j] == *g[m];
                        assert(local[j].name@ == rp.name@);
                    } else {
                        assert(local_lock.groups@[k as int]@[0].name@ == local_lock.groups@[k as int]@[0].name@);
                        assert(g[0].name@ == g[0].name@ && local.contains(*g[0]));
                        let j0 = choose|j: int| 0 <= j < local.len() && local[j] == *g[0];
                        assert(local[j0].name@ == rp.name@);
                        assert forall|j: int| 0 <= j < local.len() && #[trigger] local[j].name@ == rp.name@
                            implies local[j].version@ != rp.version@ by {
                            assert(local_lock.grouped(local[j]));
                            let k1 = choose|k1: int| 0 <= k1 < local_lock.groups@.len() && #[trigger] local_lock.groups@[k1]@.contains(&local[j]);
                            let m = choose|m: int| 0 <= m < local_lock.groups@[k1]@.len() && local_lock.groups@[k1]@[m] == &local[j];
                            assert(local_lock.groups@[k1]@[m].name@ == local_lock.groups@[k1]@[0].name@);
                            if k1 != k {
                                assert(local_lock.groups@[k1]@[0].name@ != local_lock.groups@[k as int]@[0].name@);
                            }
                            assert(g[m].version@ != rp.version@);
                        }
                        assert(version_changed(local, registry@[i as int]));
                    }
                }
                if !same {
                    assert(version_changed(local, registry@[i as int]));
                    assert(dependencies_updated(local, registry_lock.packages@));
                    return true;
                }
            },
            None => {
                proof {
                    if exists|j: int| 0 <= j < local.len() && #[trigger] local[j].name@ == rp.name@ {
                        let j = choose|j: int| 0 <= j < local.len() && #[trigger] local[j].name@ == rp.name@;
                        assert(local_lock.grouped(local[j]));
                        let k1 = choose|k1: int| 0 <= k1 < local_lock.groups@.len() && #[trigger] local_lock.groups@[k1]@.contains(&local[j]);
                        let m = choose|m: int| 0 <= m < local_lock.groups@[k1]@.len() && local_lock.groups@[k1]@[m] == &local[j];
                        assert(local_lock.groups@[k1]@[m].name@ == local_lock.groups@[k1]@[0].name@);
                        assert(local_lock.groups@[k1]@[0].name@ != rp.name@);
                    }
                }
            },
        }
        i += 1;
    }
    false
}

/// Compares the dependencies present in the `Cargo.lock` of the registry package and the local
/// one: whether the version of a package locked by the registry one changed locally. New
/// packages of the local lockfile do not count: a changed version is enough to tell that the
/// package was updated.
pub fn are_dependencies_updated(local_lock: &Lockfile, registry_lock: &Lockfile) -> (r: bool)
    ensures
        r == dependencies_updated(local_lock.packages@, registry_lock.packages@),
{
    let local_lock_packages = PackagesByName::new(local_lock.packages.as_slice());
    are_dependencies_of_lockfiles_updated(registry_lock, &local_lock_packages, Ghost(local_lock.packages@))
}

/// A lockfile compared with itself shows no update.
pub proof fn law_same_lockfile_is_not_updated(lock: Seq<Package>)
    ensures
        !dependencies_updated(lock, lock),
{
    assert forall|i: int| 0 <= i < lock.len() implies !#[trigger] version_changed(lock, lock[i]) by {
        assert(lock[i].name@ == lock[i].name@);
    }
}

} // verus!
