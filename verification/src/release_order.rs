//! The order in which the packages of a workspace can be released: every package after the
//! packages it depends on.
use vstd::prelude::*;
use crate::package::{Dependency, DependencyKind, Package};
use crate::text::{chars_of, has_prefix, push_str, starts_with, str_equal};

verus! {

/// `value` enables a feature of the dependency named `dep` (it reads `dep/...`).
pub open spec fn enables_feature_of(value: Seq<char>, dep: Seq<char>) -> bool {
    has_prefix(value, dep + "/"@)
}

/// Some feature of `p` enables a feature of the dependency named `dep`.
pub open spec fn used_in_features(p: Package, dep: Seq<char>) -> bool {
    exists|f: int, k: int|
        0 <= f < p.features@.len() && 0 <= k < p.features@[f].1@.len()
            && #[trigger] enables_feature_of(p.features@[f].1@[k]@, dep)
}

/// The dependency `d` of `p` has to be released before `p`: always, but for a development
/// dependency that no feature of `p` uses.
pub open spec fn is_release_dependency(p: Package, d: Dependency) -> bool {
    d.kind != DependencyKind::Development || used_in_features(p, d.name@)
}

/// Some package of `pkgs` is named `name`.
pub open spec fn has_name(pkgs: Seq<&Package>, name: Seq<char>) -> bool {
    exists|i: int| 0 <= i < pkgs.len() && pkgs[i].name@ == name
}

/// `i` is the first package of `pkgs` with its name: the one that stands for the name.
pub open spec fn is_first_of_name(pkgs: Seq<&Package>, i: int) -> bool {
    0 <= i < pkgs.len() && forall|j: int| 0 <= j < i ==> pkgs[j].name@ != pkgs[i].name@
}

/// The `k`-th dependency of package `i` has to be released before it.
pub open spec fn release_dependency_at(pkgs: Seq<&Package>, i: int, k: int) -> bool {
    0 <= k < pkgs[i].dependencies@.len() && is_release_dependency(*pkgs[i], pkgs[i].dependencies@[k])
}

/// The package named `x` has to be released after the package named `y`: both are packages of
/// `pkgs`, they differ, and the package that stands for `x` has `y` as a release dependency.
pub open spec fn depends_on(pkgs: Seq<&Package>, x: Seq<char>, y: Seq<char>) -> bool {
    &&& x != y
    &&& has_name(pkgs, y)
    &&& exists|i: int, k: int|
        #![trigger release_dependency_at(pkgs, i, k)]
        is_first_of_name(pkgs, i) && pkgs[i].name@ == x && release_dependency_at(pkgs, i, k)
            && pkgs[i].dependencies@[k].name@ == y
}

/// The `j`-th step of `c` follows a dependency.
pub open spec fn chain_step(pkgs: Seq<&Package>, c: Seq<Seq<char>>, j: int) -> bool {
    depends_on(pkgs, c[j], c[j + 1])
}

/// `c` is a non-empty chain of names, each depending on the next.
pub open spec fn is_chain(pkgs: Seq<&Package>, c: Seq<Seq<char>>) -> bool {
    c.len() >= 1 && forall|j: int| 0 <= j < c.len() - 1 ==> #[trigger] chain_step(pkgs, c, j)
}

/// A chain of dependencies leads from `x` to `y`.
pub open spec fn reaches(pkgs: Seq<&Package>, x: Seq<char>, y: Seq<char>) -> bool {
    exists|c: Seq<Seq<char>>| is_chain(pkgs, c) && c[0] == x && c.last() == y
}

/// The dependencies among `pkgs` have a cycle.
pub open spec fn has_cycle(pkgs: Seq<&Package>) -> bool {
    exists|x: Seq<char>, y: Seq<char>| depends_on(pkgs, x, y) && reaches(pkgs, y, x)
}

/// The names of a list of packages.
pub open spec fn names(s: Seq<&Package>) -> Seq<Seq<char>> {
    s.map_values(|p: &Package| p.name@)
}

/// `p` is the package of `pkgs` that stands for its name.
pub open spec fn stands_for_name(pkgs: Seq<&Package>, p: &Package) -> bool {
    exists|i: int| is_first_of_name(pkgs, i) && pkgs[i] == p
}

/// `order` is a release order of `pkgs`: it holds, once each, the package that stands for each
/// name of `pkgs`, and every package comes after the packages it depends on.
pub open spec fn is_release_order(pkgs: Seq<&Package>, order: Seq<&Package>) -> bool {
    &&& names(order).no_duplicates()
    &&& forall|i: int| 0 <= i < pkgs.len() ==> names(order).contains(#[trigger] pkgs[i].name@)
    &&& forall|k: int| 0 <= k < order.len() ==> #[trigger] stands_for_name(pkgs, order[k])
    &&& forall|k: int, y: Seq<char>|
        0 <= k < order.len() && #[trigger] depends_on(pkgs, order[k].name@, y) ==> names(order).take(
            k,
        ).contains(y)
}

/// The names of the packages at the given indices.
pub open spec fn names_at(pkgs: Seq<&Package>, ids: Seq<usize>) -> Seq<Seq<char>> {
    ids.map_values(|i: usize| pkgs[i as int].name@)
}

/// The state of the search: `order` holds the packages released so far, each after its
/// dependencies; `passed` the packages entered since the last one was released, each depending
/// on the next; no name occurs twice in the two lists together.
spec fn search_state(pkgs: Seq<&Package>, order: Seq<usize>, passed: Seq<usize>) -> bool {
    &&& forall|k: int| 0 <= k < order.len() ==> is_first_of_name(pkgs, #[trigger] order[k] as int)
    &&& forall|k: int| 0 <= k < passed.len() ==> is_first_of_name(pkgs, #[trigger] passed[k] as int)
    &&& (names_at(pkgs, order) + names_at(pkgs, passed)).no_duplicates()
    &&& forall|k: int, y: Seq<char>|
        0 <= k < order.len() && #[trigger] depends_on(pkgs, pkgs[order[k] as int].name@, y)
            ==> names_at(pkgs, order).take(k).contains(y)
    &&& forall|j: int| 0 <= j < passed.len() - 1 ==> #[trigger] chain_step(pkgs, names_at(pkgs, passed), j)
}

/// A list of distinct names of packages of `pkgs` is no longer than `pkgs`.
proof fn lemma_distinct_names_bounded(pkgs: Seq<&Package>, s: Seq<Seq<char>>)
    requires
        s.no_duplicates(),
        forall|k: int| 0 <= k < s.len() ==> has_name(pkgs, #[trigger] s[k]),
    ensures
        s.len() <= pkgs.len(),
{
    let all = names(pkgs);
    s.unique_seq_to_set();
    assert(s.to_set().subset_of(all.to_set())) by {
        assert forall|x: Seq<char>| s.to_set().contains(x) implies all.to_set().contains(x) by {
            let k = choose|k: int| 0 <= k < s.len() && s[k] == x;
            assert(has_name(pkgs, s[k]));
            let i = choose|i: int| 0 <= i < pkgs.len() && pkgs[i].name@ == x;
            assert(all[i] == x);
        }
    }
    all.lemma_cardinality_of_set();
    vstd::set_lib::lemma_len_subset(s.to_set(), all.to_set());
}

/// Two packages that stand for the same name are the same package.
proof fn lemma_first_of_name_unique(pkgs: Seq<&Package>, i: int, j: int)
    requires
        is_first_of_name(pkgs, i),
        is_first_of_name(pkgs, j),
        pkgs[i].name@ == pkgs[j].name@,
    ensures
        i == j,
{
    if i < j {
        assert(pkgs[i].name@ != pkgs[j].name@);
    } else if j < i {
        assert(pkgs[j].name@ != pkgs[i].name@);
    }
}

/// A dependency cycle, found between `package` and its dependency `dependency`.
#[derive(Debug, Clone)]
pub struct CircularDependency {
    /// The dependency that leads back to `package`.
    pub dependency: String,
    /// The package that depends on `dependency`.
    pub package: String,
}

impl CircularDependency {
    /// The error message.
    pub fn to_string(&self) -> (s: String)
        ensures
            s@ == "Circular dependency detected: "@ + self.dependency@ + " -> "@ + self.package@,
    {
        let mut s = String::new();
        push_str(&mut s, "Circular dependency detected: ");
        push_str(&mut s, self.dependency.as_str());
        push_str(&mut s, " -> ");
        push_str(&mut s, self.package.as_str());
        s
    }
}

/// Whether some feature of `pkg` enables a feature of the dependency named `dep`.
pub fn is_used_in_features(pkg: &Package, dep: &str) -> (r: bool)
    ensures
        r == used_in_features(*pkg, dep@),
{
    let mut needle = String::new();
    push_str(&mut needle, dep);
    push_str(&mut needle, "/");
    let needle = chars_of(needle.as_str());
    let mut f: usize = 0;
    while f < pkg.features.len()
        invariant
            f <= pkg.features@.len(),
            needle@ == dep@ + "/"@,
            forall|f2: int, k: int|
                0 <= f2 < f && 0 <= k < pkg.features@[f2].1@.len() ==> !#[trigger] enables_feature_of(
                    pkg.features@[f2].1@[k]@,
                    dep@,
                ),
        decreases pkg.features.len() - f,
    {
        let values = &pkg.features[f].1;
        let mut k: usize = 0;
        while k < values.len()
            invariant
                f < pkg.features@.len(),
                k <= values@.len(),
                *values == pkg.features@[f as int].1,
                needle@ == dep@ + "/"@,
                forall|k2: int| 0 <= k2 < k ==> !#[trigger] enables_feature_of(values@[k2]@, dep@),
            decreases values.len() - k,
        {
            let v = chars_of(values[k].as_str());
            if starts_with(v.as_slice(), needle.as_slice()) {
                assert(enables_feature_of(pkg.features@[f as int].1@[k as int]@, dep@));
                return true;
            }
            k += 1;
        }
        f += 1;
    }
    false
}

/// Whether `d` has to be released before `pkg` (see [`is_release_dependency`]).
pub fn must_release_before(pkg: &Package, d: &Dependency) -> (r: bool)
    ensures
        r == is_release_dependency(*pkg, *d),
{
    match d.kind {
        DependencyKind::Development => is_used_in_features(pkg, d.name.as_str()),
        _ => true,
    }
}

/// The first package named `dep_name`, unless that is `pkg_name`.
fn find_package(packages: &[&Package], dep_name: &str, pkg_name: &str) -> (r: Option<usize>)
    ensures
        match r {
            Some(j) => is_first_of_name(packages@, j as int) && packages@[j as int].name@ == dep_name@
                && dep_name@ != pkg_name@,
            None => dep_name@ == pkg_name@ || !has_name(packages@, dep_name@),
        },
{
    let mut k: usize = 0;
    while k < packages.len()
        invariant
            k <= packages@.len(),
            forall|j: int|
                0 <= j < k ==> !(#[trigger] packages@[j].name@ == dep_name@ && dep_name@ != pkg_name@),
        decreases packages.len() - k,
    {
        if str_equal(packages[k].name.as_str(), dep_name) && !str_equal(packages[k].name.as_str(), pkg_name) {
            return Some(k);
        }
        k += 1;
    }
    None
}

/// Whether one of the packages at the indices `ids` is named `name`.
fn name_listed(packages: &[&Package], ids: &Vec<usize>, name: &str) -> (r: bool)
    requires
        forall|k: int| 0 <= k < ids@.len() ==> #[trigger] ids@[k] < packages@.len(),
    ensures
        r == names_at(packages@, ids@).contains(name@),
{
    let ghost ns = names_at(packages@, ids@);
    let mut k: usize = 0;
    while k < ids.len()
        invariant
            k <= ids@.len(),
            ns == names_at(packages@, ids@),
            forall|k2: int| 0 <= k2 < ids@.len() ==> #[trigger] ids@[k2] < packages@.len(),
            forall|k2: int| 0 <= k2 < k ==> ns[k2] != name@,
        decreases ids.len() - k,
    {
        if str_equal(packages[ids[k]].name.as_str(), name) {
            assert(ns[k as int] == name@);
            return true;
        }
        k += 1;
    }
    assert(!ns.contains(name@)) by {
        if ns.contains(name@) {
            let k2 = choose|k2: int| 0 <= k2 < ns.len() && ns[k2] == name@;
            assert(ns[k2] != name@);
        }
    }
    false
}

/// Where the search of a release order stands after a step.
pub enum SearchOutcome {
    /// The step ended with these released packages and entered packages (by index).
    Done(Seq<usize>, Seq<usize>),
    /// The step found this dependency (first) of this package (second) among the entered
    /// packages: a cycle.
    Cycle(Seq<char>, Seq<char>),
    /// The step was not given enough steps to end.
    OutOfSteps,
}

/// The first package of `pkgs`, from index `from` on, named `name`, unless `name` is `excluded`.
pub open spec fn first_named(pkgs: Seq<&Package>, name: Seq<char>, excluded: Seq<char>, from: int) -> Option<int>
    decreases pkgs.len() - from,
{
    if from < 0 || from >= pkgs.len() || name == excluded {
        None
    } else if pkgs[from].name@ == name {
        Some(from)
    } else {
        first_named(pkgs, name, excluded, from + 1)
    }
}

/// The search from package `i`, with `order` released and `passed` entered, in at most `fuel`
/// nested steps: nothing to do if `i` is released; else `i` is entered and its dependencies
/// are searched in order.
pub open spec fn search_package(pkgs: Seq<&Package>, i: int, order: Seq<usize>, passed: Seq<usize>, fuel: int) -> SearchOutcome
    decreases fuel, 0int,
{
    if fuel <= 0 {
        SearchOutcome::OutOfSteps
    } else if names_at(pkgs, order).contains(pkgs[i].name@) {
        SearchOutcome::Done(order, passed)
    } else {
        search_dependencies(pkgs, i, 0, order, passed.push(i as usize), fuel - 1)
    }
}

/// The search of the dependencies of package `i` from its `k`-th on: a dependency to release
/// first that names a package is a cycle if that package is entered, else it is searched; at
/// the end, `i` is released and nothing is entered any more.
pub open spec fn search_dependencies(
    pkgs: Seq<&Package>,
    i: int,
    k: int,
    order: Seq<usize>,
    passed: Seq<usize>,
    fuel: int,
) -> SearchOutcome
    decreases fuel, pkgs[i].dependencies@.len() - k + 1,
{
    if k < 0 || k >= pkgs[i].dependencies@.len() {
        SearchOutcome::Done(order.push(i as usize), Seq::empty())
    } else if release_dependency_at(pkgs, i, k) {
        match first_named(pkgs, pkgs[i].dependencies@[k].name@, pkgs[i].name@, 0) {
            Some(j) => if names_at(pkgs, passed).contains(pkgs[j].name@) {
                SearchOutcome::Cycle(pkgs[j].name@, pkgs[i].name@)
            } else {
                match search_package(pkgs, j, order, passed, fuel) {
                    SearchOutcome::Done(o, p) => search_dependencies(pkgs, i, k + 1, o, p, fuel),
                    other => other,
                }
            },
            None => search_dependencies(pkgs, i, k + 1, order, passed, fuel),
        }
    } else {
        search_dependencies(pkgs, i, k + 1, order, passed, fuel)
    }
}

/// The search through all packages from the `t`-th on, each after the previous ones.
pub open spec fn search_all(pkgs: Seq<&Package>, t: int, order: Seq<usize>, fuel: int) -> SearchOutcome
    decreases pkgs.len() - t,
{
    if t < 0 || t >= pkgs.len() {
        SearchOutcome::Done(order, Seq::empty())
    } else {
        match search_package(pkgs, t, order, Seq::empty(), fuel) {
            SearchOutcome::Done(o, _) => search_all(pkgs, t + 1, o, fuel),
            other => other,
        }
    }
}

/// Enough nested steps for a search with `order` released and `passed` entered.
pub open spec fn search_measure(pkgs: Seq<&Package>, order: Seq<usize>, passed: Seq<usize>) -> int {
    (pkgs.len() - order.len()) * (pkgs.len() + 2) + (pkgs.len() + 1 - passed.len())
}

/// The cycle that the search of a release order meets first: walking the packages in order,
/// and the dependencies of each package in order, the first dependency found among the
/// packages entered since the last release, with the package that depends on it.
pub open spec fn first_cycle(pkgs: Seq<&Package>) -> Option<(Seq<char>, Seq<char>)> {
    match search_all(pkgs, 0, Seq::empty(), search_measure(pkgs, Seq::empty(), Seq::empty())) {
        SearchOutcome::Cycle(d, p) => Some((d, p)),
        _ => None,
    }
}

/// The first package named `name` that is not `excluded`, as [`find_package`] finds it.
proof fn lemma_first_named(pkgs: Seq<&Package>, name: Seq<char>, excluded: Seq<char>, j: Option<int>, from: int)
    requires
        0 <= from <= pkgs.len(),
        forall|q: int| 0 <= q < from ==> pkgs[q].name@ != name,
        match j {
            Some(j) => is_first_of_name(pkgs, j) && pkgs[j].name@ == name && name != excluded && from <= j,
            None => name == excluded || !has_name(pkgs, name),
        },
    ensures
        first_named(pkgs, name, excluded, from) == j,
    decreases pkgs.len() - from,
{
    if from < pkgs.len() && name != excluded && pkgs[from].name@ != name {
        match j {
            Some(jj) => {
                if jj == from {
                } else {
                }
            },
            None => {},
        }
        lemma_first_named(pkgs, name, excluded, j, from + 1);
    } else if from < pkgs.len() && name != excluded && pkgs[from].name@ == name {
        match j {
            Some(jj) => {
                if jj > from {
                    assert(pkgs[from].name@ != pkgs[jj].name@);
                }
            },
            None => {
                assert(has_name(pkgs, name));
            },
        }
    }
}

/// In a search state, the released and entered packages are no more than the packages.
proof fn lemma_search_state_bounded(pk: Seq<&Package>, order: Seq<usize>, passed: Seq<usize>)
    requires
        search_state(pk, order, passed),
    ensures
        order.len() + passed.len() <= pk.len(),
{
    let all = names_at(pk, order) + names_at(pk, passed);
    assert forall|q: int| 0 <= q < all.len() implies has_name(pk, #[trigger] all[q]) by {
        if q < order.len() {
            assert(is_first_of_name(pk, order[q] as int));
            assert(all[q] == pk[order[q] as int].name@);
        } else {
            assert(is_first_of_name(pk, passed[q - order.len()] as int));
            assert(all[q] == pk[passed[q - order.len()] as int].name@);
        }
    }
    lemma_distinct_names_bounded(pk, all);
}

/// Releasing a package leaves fewer steps to take than entering one.
proof fn lemma_measure_drop(n: int, a: int, b: int, c: int)
    requires
        0 <= a < b <= n,
        0 <= c <= n,
    ensures
        (n - b) * (n + 2) + (n + 1) <= (n - a) * (n + 2) + (n + 1 - c) - 2,
        (n - b) * (n + 2) >= 0,
{
    assert((n - a) * (n + 2) - (n - b) * (n + 2) >= n + 2) by (nonlinear_arith)
        requires
            0 <= a < b <= n,
    ;
    assert((n - b) * (n + 2) >= 0) by (nonlinear_arith)
        requires
            0 <= b <= n,
    ;
}

/// A search nested in the search of a package has fewer steps left.
proof fn lemma_nested_measure(pk: Seq<&Package>, o0: Seq<usize>, p0: Seq<usize>, p1: Seq<usize>, ob: Seq<usize>, pb: Seq<usize>)
    requires
        (ob == o0 && pb == p1) || (pb.len() == 0 && ob.len() > o0.len()),
        p1.len() == p0.len() + 1,
        p0.len() + o0.len() <= pk.len(),
        ob.len() <= pk.len(),
    ensures
        search_measure(pk, ob, pb) <= search_measure(pk, o0, p0) - 1,
{
    if !(ob == o0 && pb == p1) {
        lemma_measure_drop(pk.len() as int, o0.len() as int, ob.len() as int, p0.len() as int);
    }
}

/// A search from nothing released has at least as many steps as one with some released.
proof fn lemma_measure_start(n: int, a: int)
    requires
        0 <= a <= n,
    ensures
        (n - a) * (n + 2) <= n * (n + 2),
        (n - a) * (n + 2) >= 0,
{
    assert((n - a) * (n + 2) <= n * (n + 2)) by (nonlinear_arith)
        requires
            0 <= a <= n,
    ;
    assert((n - a) * (n + 2) >= 0) by (nonlinear_arith)
        requires
            0 <= a <= n,
    ;
}

/// Releases package `i` after its dependencies: appends to `order` the packages it needs that
/// are not there yet, then `i`. `passed` holds the packages entered since the last release; a
/// dependency found there closes a cycle. `stack` names the packages whose search is under way.
fn visit(
    packages: &[&Package],
    i: usize,
    order: &mut Vec<usize>,
    passed: &mut Vec<usize>,
    Ghost(stack): Ghost<Seq<Seq<char>>>,
) -> (r: Result<(), CircularDependency>)
    requires
        i < packages@.len(),
        search_state(packages@, old(order)@, old(passed)@),
        is_first_of_name(packages@, i as int) || names_at(packages@, old(order)@).contains(
            packages@[i as int].name@,
        ),
        !names_at(packages@, old(passed)@).contains(packages@[i as int].name@),
        old(passed)@.len() > 0 ==> depends_on(
            packages@,
            packages@[old(passed)@.last() as int].name@,
            packages@[i as int].name@,
        ),
        is_chain(packages@, stack.push(packages@[i as int].name@)),
        forall|k: int| 0 <= k < stack.len() ==> !names_at(packages@, old(order)@).contains(#[trigger] stack[k]),
    ensures
        match r {
            Ok(()) => {
                &&& search_state(packages@, final(order)@, final(passed)@)
                &&& old(order)@.len() <= final(order)@.len()
                &&& final(order)@.take(old(order)@.len() as int) == old(order)@
                &&& names_at(packages@, final(order)@).contains(packages@[i as int].name@)
                &&& (final(order)@ == old(order)@ && final(passed)@ == old(passed)@) || (
                final(order)@.len() > old(order)@.len() && final(passed)@.len() == 0)
                &&& forall|k: int|
                    0 <= k < stack.len() ==> !names_at(packages@, final(order)@).contains(#[trigger] stack[k])
            },
            Err(e) => depends_on(packages@, e.package@, e.dependency@) && reaches(
                packages@,
                e.dependency@,
                e.package@,
            ),
        },
        forall|f: int|
            f >= search_measure(packages@, old(order)@, old(passed)@) ==> #[trigger] search_package(
                packages@,
                i as int,
                old(order)@,
                old(passed)@,
                f,
            ) == match r {
                Ok(()) => SearchOutcome::Done(final(order)@, final(passed)@),
                Err(e) => SearchOutcome::Cycle(e.dependency@, e.package@),
            },
    decreases packages@.len() - old(order)@.len(), packages@.len() - old(passed)@.len(),
{
    proof {
        lemma_search_state_bounded(packages@, order@, passed@);
        lemma_measure_start(packages@.len() as int, order@.len() as int);
    }
    if name_listed(packages, order, packages[i].name.as_str()) {
        return Ok(());
    }
    let ghost pk = packages@;
    let ghost o0 = order@;
    let ghost p0 = passed@;
    let ghost name_i = pk[i as int].name@;
    let ghost st = stack.push(name_i);
    passed.push(i);
    let ghost p1 = passed@;
    proof {
        assert(names_at(pk, p1) == names_at(pk, p0).push(name_i));
        assert(names_at(pk, o0) + names_at(pk, p1) == (names_at(pk, o0) + names_at(pk, p0)).push(name_i));
        assert(!(names_at(pk, o0) + names_at(pk, p0)).contains(name_i)) by {
            if (names_at(pk, o0) + names_at(pk, p0)).contains(name_i) {
                let q = choose|q: int| 0 <= q < (names_at(pk, o0) + names_at(pk, p0)).len() && (names_at(pk, o0) + names_at(pk, p0))[q] == name_i;
                if q < o0.len() {
                    assert(names_at(pk, o0)[q] == name_i);
                } else {
                    assert(names_at(pk, p0)[q - o0.len()] == name_i);
                }
            }
        }
        assert forall|j: int| 0 <= j < p1.len() - 1 implies #[trigger] chain_step(pk, names_at(pk, p1), j) by {
            if j < p0.len() - 1 {
                assert(chain_step(pk, names_at(pk, p0), j));
            }
        }
        assert forall|k: int| 0 <= k < p1.len() implies is_first_of_name(pk, #[trigger] p1[k] as int) by {
            if k < p0.len() {
                assert(is_first_of_name(pk, p0[k] as int));
            }
        }
        assert(search_state(pk, o0, p1));
    }
    let mut k: usize = 0;
    while k < packages[i].dependencies.len()
        invariant
            pk == packages@,
            o0 == old(order)@,
            p0 == old(passed)@,
            i < pk.len(),
            name_i == pk[i as int].name@,
            st == stack.push(name_i),
            is_first_of_name(pk, i as int),
            is_chain(pk, st),
            k <= pk[i as int].dependencies@.len(),
            search_state(pk, order@, passed@),
            o0.len() <= order@.len(),
            order@.take(o0.len() as int) == o0,
            (order@ == o0 && passed@ == p1) || (passed@.len() == 0 && order@.len() > o0.len()),
            p1 == p0.push(i),
            p0.len() + o0.len() <= pk.len(),
            search_measure(pk, o0, p0) >= 1,
            !names_at(pk, o0).contains(name_i),
            forall|g: int|
                #![trigger search_dependencies(pk, i as int, 0, o0, p1, g)]
                g + 1 >= search_measure(pk, o0, p0) ==> search_dependencies(pk, i as int, 0, o0, p1, g)
                    == search_dependencies(pk, i as int, k as int, order@, passed@, g),
            forall|s: int| 0 <= s < st.len() ==> !names_at(pk, order@).contains(#[trigger] st[s]),
            forall|k2: int|
                0 <= k2 < k && #[trigger] release_dependency_at(pk, i as int, k2) && has_name(
                    pk,
                    pk[i as int].dependencies@[k2].name@,
                ) && pk[i as int].dependencies@[k2].name@ != name_i ==> names_at(pk, order@).contains(
                    pk[i as int].dependencies@[k2].name@,
                ),
        decreases pk[i as int].dependencies@.len() - k,
    {
        let d = &packages[i].dependencies[k];
        if must_release_before(packages[i], d) {
            assert(release_dependency_at(pk, i as int, k as int));
            match find_package(packages, d.name.as_str(), packages[i].name.as_str()) {
                Some(j) => {
                    let ghost name_j = pk[j as int].name@;
                    assert(depends_on(pk, name_i, name_j));
                    if name_listed(packages, passed, d.name.as_str()) {
                        proof {
                            assert(names_at(pk, passed@).len() > 0);
                            assert(passed@ == p1);
                            let np = names_at(pk, p1);
                            let m = choose|m: int| 0 <= m < np.len() && np[m] == name_j;
                            let c = np.skip(m);
                            assert(np.last() == name_i);
                            assert forall|q: int| 0 <= q < c.len() - 1 implies #[trigger] chain_step(pk, c, q) by {
                                assert(chain_step(pk, np, m + q));
                            }
                            assert(is_chain(pk, c));
                            assert(c[0] == name_j);
                            assert(c.last() == name_i);
                            assert(reaches(pk, name_j, name_i));
                            lemma_first_named(pk, pk[i as int].dependencies@[k as int].name@, name_i, Some(j as int), 0);
                            assert forall|f: int| f >= search_measure(pk, o0, p0) implies #[trigger] search_package(
                                pk,
                                i as int,
                                o0,
                                p0,
                                f,
                            ) == SearchOutcome::Cycle(name_j, name_i) by {
                                assert(search_dependencies(pk, i as int, 0, o0, p1, f - 1) == search_dependencies(
                                    pk,
                                    i as int,
                                    k as int,
                                    order@,
                                    passed@,
                                    f - 1,
                                ));
                            }
                        }
                        return Err(
                            CircularDependency {
                                dependency: packages[j].name.clone(),
                                package: packages[i].name.clone(),
                            },
                        );
                    }
                    proof {
                        let all = names_at(pk, order@) + names_at(pk, passed@);
                        assert forall|q: int| 0 <= q < all.len() implies has_name(pk, #[trigger] all[q]) by {
                            if q < order@.len() {
                                assert(is_first_of_name(pk, order@[q] as int));
                                assert(all[q] == pk[order@[q] as int].name@);
                            } else {
                                assert(is_first_of_name(pk, passed@[q - order@.len()] as int));
                                assert(all[q] == pk[passed@[q - order@.len()] as int].name@);
                            }
                        }
                        lemma_distinct_names_bounded(pk, all);
                        assert(st.push(name_j).drop_last() == st);
                        assert forall|q: int| 0 <= q < st.push(name_j).len() - 1 implies #[trigger] chain_step(pk, st.push(name_j), q) by {
                            if q < st.len() - 1 {
                                assert(chain_step(pk, st, q));
                            }
                        }
                        if passed@.len() > 0 {
                            assert(passed@.last() == i);
                        }
                    }
                    let ghost o1 = order@;
                    let ghost pb = passed@;
                    proof {
                        lemma_first_named(pk, pk[i as int].dependencies@[k as int].name@, name_i, Some(j as int), 0);
                        lemma_nested_measure(pk, o0, p0, p1, o1, pb);
                    }
                    match visit(packages, j, order, passed, Ghost(st)) {
                        Ok(()) => {},
                        Err(e) => {
                            proof {
                                assert forall|f: int| f >= search_measure(pk, o0, p0) implies #[trigger] search_package(
                                    pk,
                                    i as int,
                                    o0,
                                    p0,
                                    f,
                                ) == SearchOutcome::Cycle(e.dependency@, e.package@) by {
                                    assert(search_dependencies(pk, i as int, 0, o0, p1, f - 1) == search_dependencies(
                                        pk,
                                        i as int,
                                        k as int,
                                        o1,
                                        pb,
                                        f - 1,
                                    ));
                                    assert(search_package(pk, j as int, o1, pb, f - 1) == SearchOutcome::Cycle(
                                        e.dependency@,
                                        e.package@,
                                    ));
                                }
                            }
                            return Err(e);
                        },
                    }
                    proof {
                        assert forall|g: int|
                            #![trigger search_dependencies(pk, i as int, 0, o0, p1, g)]
                            g + 1 >= search_measure(pk, o0, p0) implies search_dependencies(pk, i as int, 0, o0, p1, g)
                            == search_dependencies(pk, i as int, (k + 1) as int, order@, passed@, g) by {
                            assert(search_dependencies(pk, i as int, 0, o0, p1, g) == search_dependencies(
                                pk,
                                i as int,
                                k as int,
                                o1,
                                pb,
                                g,
                            ));
                            assert(search_package(pk, j as int, o1, pb, g) == SearchOutcome::Done(order@, passed@));
                        }
                        assert(order@.take(o0.len() as int) == o1.take(o0.len() as int));
                        assert forall|k2: int|
                            0 <= k2 <= k && #[trigger] release_dependency_at(pk, i as int, k2) && has_name(
                                pk,
                                pk[i as int].dependencies@[k2].name@,
                            ) && pk[i as int].dependencies@[k2].name@ != name_i implies names_at(pk, order@).contains(
                                pk[i as int].dependencies@[k2].name@,
                            ) by {
                            if k2 < k {
                                let y = pk[i as int].dependencies@[k2].name@;
                                let q = choose|q: int| 0 <= q < o1.len() && names_at(pk, o1)[q] == y;
                                assert(order@.take(o1.len() as int) == o1);
                                assert(names_at(pk, order@)[q] == y);
                            }
                        }
                    }
                },
                None => {
                    proof {
                        lemma_first_named(pk, pk[i as int].dependencies@[k as int].name@, name_i, None, 0);
                        assert forall|g: int|
                            #![trigger search_dependencies(pk, i as int, 0, o0, p1, g)]
                            g + 1 >= search_measure(pk, o0, p0) implies search_dependencies(pk, i as int, 0, o0, p1, g)
                            == search_dependencies(pk, i as int, (k + 1) as int, order@, passed@, g) by {
                            assert(search_dependencies(pk, i as int, 0, o0, p1, g) == search_dependencies(
                                pk,
                                i as int,
                                k as int,
                                order@,
                                passed@,
                                g,
                            ));
                        }
                    }
                },
            }
        } else {
            proof {
                assert forall|g: int|
                    #![trigger search_dependencies(pk, i as int, 0, o0, p1, g)]
                    g + 1 >= search_measure(pk, o0, p0) implies search_dependencies(pk, i as int, 0, o0, p1, g)
                    == search_dependencies(pk, i as int, (k + 1) as int, order@, passed@, g) by {
                    assert(search_dependencies(pk, i as int, 0, o0, p1, g) == search_dependencies(
                        pk,
                        i as int,
                        k as int,
                        order@,
                        passed@,
                        g,
                    ));
                }
            }
        }
        k += 1;
    }
    proof {
        assert(!stack.contains(name_i)) by {
            if stack.contains(name_i) {
                let m = choose|m: int| 0 <= m < stack.len() && stack[m] == name_i;
                assert(chain_step(pk, st, m));
                let y = st[m + 1];
                assert(depends_on(pk, name_i, y));
                let (i2, k2) = choose|i2: int, k2: int|
                    #![trigger release_dependency_at(pk, i2, k2)]
                    is_first_of_name(pk, i2) && pk[i2].name@ == name_i && release_dependency_at(pk, i2, k2)
                        && pk[i2].dependencies@[k2].name@ == y;
                lemma_first_of_name_unique(pk, i2, i as int);
                assert(names_at(pk, order@).contains(y));
                assert(!names_at(pk, order@).contains(st[m + 1]));
            }
        }
    }
    let ghost o2 = order@;
    let ghost pp = passed@;
    order.push(i);
    passed.clear();
    proof {
        assert forall|f: int| f >= search_measure(pk, o0, p0) implies #[trigger] search_package(pk, i as int, o0, p0, f)
            == SearchOutcome::Done(order@, passed@) by {
            assert(search_dependencies(pk, i as int, 0, o0, p1, f - 1) == search_dependencies(
                pk,
                i as int,
                k as int,
                o2,
                pp,
                f - 1,
            ));
            assert(passed@ =~= Seq::<usize>::empty());
        }
    }
    proof {
        let n2 = names_at(pk, o2);
        let n3 = names_at(pk, order@);
        assert(n3 == n2.push(name_i));
        assert(names_at(pk, passed@) =~= Seq::<Seq<char>>::empty());
        assert(n3 + names_at(pk, passed@) == n3);
        assert(!n2.contains(name_i)) by {
            assert(st[st.len() - 1] == name_i);
        }
        assert(n2.no_duplicates()) by {
            let all = n2 + names_at(pk, pp);
            assert forall|a: int, b: int| 0 <= a < b < n2.len() implies n2[a] != n2[b] by {
                assert(all[a] == n2[a]);
                assert(all[b] == n2[b]);
            }
        }
        assert forall|q: int| 0 <= q < order@.len() implies is_first_of_name(pk, #[trigger] order@[q] as int) by {
            if q < o2.len() {
                assert(is_first_of_name(pk, o2[q] as int));
            }
        }
        assert forall|q: int, y: Seq<char>|
            0 <= q < order@.len() && #[trigger] depends_on(pk, pk[order@[q] as int].name@, y)
                implies n3.take(q).contains(y) by {
            if q < o2.len() {
                assert(n3.take(q) == n2.take(q));
                assert(depends_on(pk, pk[o2[q] as int].name@, y));
            } else {
                assert(n3.take(q) == n2);
                let (i2, k2) = choose|i2: int, k2: int|
                    #![trigger release_dependency_at(pk, i2, k2)]
                    is_first_of_name(pk, i2) && pk[i2].name@ == name_i && release_dependency_at(pk, i2, k2)
                        && pk[i2].dependencies@[k2].name@ == y;
                lemma_first_of_name_unique(pk, i2, i as int);
            }
        }
        assert(order@.take(o0.len() as int) == o0) by {
            assert(order@.take(o0.len() as int) == o2.take(o0.len() as int));
        }
        assert(n3[n3.len() - 1] == name_i);
        assert forall|q: int| 0 <= q < stack.len() implies !n3.contains(#[trigger] stack[q]) by {
            assert(st[q] == stack[q]);
            assert(!n2.contains(st[q]));
            if n3.contains(stack[q]) {
                let z = choose|z: int| 0 <= z < n3.len() && n3[z] == stack[q];
                if z < n2.len() {
                    assert(n2[z] == stack[q]);
                } else {
                    assert(stack.contains(name_i));
                }
            }
        }
    }
    Ok(())
}

/// The position of `z` in `s`.
spec fn position(s: Seq<Seq<char>>, z: Seq<char>) -> int {
    choose|k: int| 0 <= k < s.len() && s[k] == z
}

/// In a release order, a package comes after each package it depends on.
proof fn lemma_dependency_comes_first(pkgs: Seq<&Package>, order: Seq<&Package>, x: Seq<char>, y: Seq<char>)
    requires
        is_release_order(pkgs, order),
        depends_on(pkgs, x, y),
    ensures
        names(order).contains(x),
        names(order).contains(y),
        position(names(order), y) < position(names(order), x),
{
    let ns = names(order);
    let (i, k) = choose|i: int, k: int|
        #![trigger release_dependency_at(pkgs, i, k)]
        is_first_of_name(pkgs, i) && pkgs[i].name@ == x && release_dependency_at(pkgs, i, k)
            && pkgs[i].dependencies@[k].name@ == y;
    assert(ns.contains(pkgs[i].name@));
    let j = choose|j: int| 0 <= j < pkgs.len() && pkgs[j].name@ == y;
    assert(ns.contains(pkgs[j].name@));
    let px = position(ns, x);
    assert(ns[px] == x);
    assert(order[px].name@ == x);
    assert(depends_on(pkgs, order[px].name@, y));
    assert(ns.take(px).contains(y));
    let q = choose|q: int| 0 <= q < px && ns.take(px)[q] == y;
    let py = position(ns, y);
    assert(ns[q] == y);
    assert(ns[py] == y);
}

/// Along a chain of dependencies, positions in a release order decrease.
proof fn lemma_chain_positions(pkgs: Seq<&Package>, order: Seq<&Package>, c: Seq<Seq<char>>)
    requires
        is_release_order(pkgs, order),
        is_chain(pkgs, c),
        c.len() >= 2,
    ensures
        position(names(order), c.last()) < position(names(order), c[0]),
    decreases c.len(),
{
    assert(chain_step(pkgs, c, 0));
    lemma_dependency_comes_first(pkgs, order, c[0], c[1]);
    if c.len() > 2 {
        let rest = c.drop_first();
        assert forall|j: int| 0 <= j < rest.len() - 1 implies #[trigger] chain_step(pkgs, rest, j) by {
            assert(chain_step(pkgs, c, j + 1));
        }
        lemma_chain_positions(pkgs, order, rest);
    }
}

/// Packages that have a release order have no dependency cycle.
pub proof fn lemma_release_order_is_acyclic(pkgs: Seq<&Package>, order: Seq<&Package>)
    requires
        is_release_order(pkgs, order),
    ensures
        !has_cycle(pkgs),
{
    if has_cycle(pkgs) {
        let (x, y) = choose|x: Seq<char>, y: Seq<char>| depends_on(pkgs, x, y) && reaches(pkgs, y, x);
        let c = choose|c: Seq<Seq<char>>| is_chain(pkgs, c) && c[0] == y && c.last() == x;
        lemma_dependency_comes_first(pkgs, order, x, y);
        if c.len() >= 2 {
            lemma_chain_positions(pkgs, order, c);
        }
    }
}

/// Returns the packages in an order in which they can be released: each package after the
/// packages it depends on (see [`is_release_order`]). Fails on a dependency cycle, with a
/// dependency of a package that leads back to it: the first one the search meets (see
/// [`first_cycle`]).
pub fn release_order<'a>(packages: &[&'a Package]) -> (r: Result<Vec<&'a Package>, CircularDependency>)
    ensures
        match r {
            Ok(order) => is_release_order(packages@, order@),
            Err(e) => depends_on(packages@, e.package@, e.dependency@) && reaches(
                packages@,
                e.dependency@,
                e.package@,
            ),
        },
        r is Ok <==> !has_cycle(packages@),
        r matches Err(e) ==> first_cycle(packages@) == Some((e.dependency@, e.package@)),
        r is Ok ==> first_cycle(packages@) is None,
{
    let ghost pk = packages@;
    let mut order: Vec<usize> = Vec::new();
    let mut passed: Vec<usize> = Vec::new();
    let mut t: usize = 0;
    assert(names_at(pk, order@) + names_at(pk, passed@) =~= Seq::<Seq<char>>::empty());
    while t < packages.len()
        invariant
            pk == packages@,
            t <= pk.len(),
            search_state(pk, order@, passed@),
            passed@.len() == 0,
            forall|t2: int| 0 <= t2 < t ==> names_at(pk, order@).contains(#[trigger] pk[t2].name@),
            forall|f: int|
                #![trigger search_all(pk, 0, Seq::<usize>::empty(), f)]
                f >= search_measure(pk, Seq::<usize>::empty(), Seq::<usize>::empty()) ==> search_all(
                    pk,
                    0,
                    Seq::<usize>::empty(),
                    f,
                ) == search_all(pk, t as int, order@, f),
        decreases pk.len() - t,
    {
        proof {
            if !is_first_of_name(pk, t as int) {
                let j = choose|j: int| 0 <= j < t && pk[j].name@ == pk[t as int].name@;
                assert(names_at(pk, order@).contains(pk[j].name@));
            }
            assert(Seq::<Seq<char>>::empty().push(pk[t as int].name@).len() == 1);
        }
        let ghost o1 = order@;
        proof {
            lemma_search_state_bounded(pk, order@, passed@);
            lemma_measure_start(pk.len() as int, order@.len() as int);
            assert(passed@ =~= Seq::<usize>::empty());
        }
        match visit(packages, t, &mut order, &mut passed, Ghost(Seq::empty())) {
            Ok(()) => {},
            Err(e) => {
                proof {
                    assert(depends_on(pk, e.package@, e.dependency@) && reaches(pk, e.dependency@, e.package@));
                    let f = search_measure(pk, Seq::<usize>::empty(), Seq::<usize>::empty());
                    assert(search_all(pk, 0, Seq::<usize>::empty(), f) == search_all(pk, t as int, o1, f));
                    assert(search_package(pk, t as int, o1, Seq::<usize>::empty(), f) == SearchOutcome::Cycle(
                        e.dependency@,
                        e.package@,
                    ));
                }
                return Err(e);
            },
        }
        proof {
            assert forall|f: int|
                #![trigger search_all(pk, 0, Seq::<usize>::empty(), f)]
                f >= search_measure(pk, Seq::<usize>::empty(), Seq::<usize>::empty()) implies search_all(
                    pk,
                    0,
                    Seq::<usize>::empty(),
                    f,
                ) == search_all(pk, (t + 1) as int, order@, f) by {
                assert(search_all(pk, 0, Seq::<usize>::empty(), f) == search_all(pk, t as int, o1, f));
                assert(search_package(pk, t as int, o1, Seq::<usize>::empty(), f) == SearchOutcome::Done(
                    order@,
                    passed@,
                ));
            }
        }
        proof {
            assert forall|t2: int| 0 <= t2 <= t implies names_at(pk, order@).contains(#[trigger] pk[t2].name@) by {
                if t2 < t {
                    let q = choose|q: int| 0 <= q < o1.len() && names_at(pk, o1)[q] == pk[t2].name@;
                    assert(order@.take(o1.len() as int) == o1);
                    assert(names_at(pk, order@)[q] == pk[t2].name@);
                }
            }
        }
        t += 1;
    }
    let mut result: Vec<&'a Package> = Vec::new();
    let mut k: usize = 0;
    while k < order.len()
        invariant
            pk == packages@,
            k <= order@.len(),
            search_state(pk, order@, passed@),
            result@.len() == k,
            forall|k2: int| 0 <= k2 < k ==> #[trigger] result@[k2] == pk[order@[k2] as int],
        decreases order.len() - k,
    {
        assert(is_first_of_name(pk, order@[k as int] as int));
        result.push(packages[order[k]]);
        k += 1;
    }
    proof {
        let ns = names(result@);
        assert(ns =~= names_at(pk, order@));
        assert(names_at(pk, order@) + names_at(pk, passed@) =~= names_at(pk, order@));
        assert forall|k2: int| 0 <= k2 < result@.len() implies #[trigger] stands_for_name(pk, result@[k2]) by {
            assert(is_first_of_name(pk, order@[k2] as int));
            assert(result@[k2] == pk[order@[k2] as int]);
        }
        assert forall|k2: int, y: Seq<char>|
            0 <= k2 < result@.len() && #[trigger] depends_on(pk, result@[k2].name@, y) implies ns.take(k2).contains(y) by {
            assert(depends_on(pk, pk[order@[k2] as int].name@, y));
        }
        assert(ns.no_duplicates());
        assert forall|i: int| 0 <= i < pk.len() implies ns.contains(#[trigger] pk[i].name@) by {
            assert(names_at(pk, order@).contains(pk[i].name@));
        }
        assert(is_release_order(pk, result@));
        lemma_release_order_is_acyclic(pk, result@);
        let f = search_measure(pk, Seq::<usize>::empty(), Seq::<usize>::empty());
        assert(search_all(pk, 0, Seq::<usize>::empty(), f) == search_all(pk, t as int, order@, f));
    }
    Ok(result)
}

} // verus!
