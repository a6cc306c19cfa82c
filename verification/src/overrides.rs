//! Settings that some packages override, by package name.
use vstd::prelude::*;
use crate::text::str_equal;

verus! {

/// Values set for some packages, each under its package name, a name at most once.
#[derive(Debug, Clone)]
pub struct Overrides<C> {
    entries: Vec<(String, C)>,
}

impl<C> View for Overrides<C> {
    type V = Map<Seq<char>, C>;

    /// The package names with a value, and their values.
    closed spec fn view(&self) -> Map<Seq<char>, C> {
        Map::new(
            |name: Seq<char>| exists|k: int| 0 <= k < self.entries@.len() && #[trigger] self.entries@[k].0@ == name,
            |name: Seq<char>| self.entries@[choose|k: int| 0 <= k < self.entries@.len() && #[trigger] self.entries@[k].0@ == name].1,
        )
    }
}

impl<C> Overrides<C> {
    /// No name occurs twice.
    pub closed spec fn well_formed(&self) -> bool {
        forall|a: int, b: int|
            0 <= a < b < self.entries@.len() ==> #[trigger] self.entries@[a].0@ != #[trigger] self.entries@[b].0@
    }

    /// No package has a value.
    pub fn new() -> (o: Self)
        ensures
            o.well_formed(),
            o@ == Map::<Seq<char>, C>::empty(),
    {
        let o = Overrides { entries: Vec::new() };
        assert(o@ =~= Map::<Seq<char>, C>::empty());
        o
    }

    /// The index of the entry of the package named `name`.
    fn find(&self, name: &str) -> (r: Option<usize>)
        requires
            self.well_formed(),
        ensures
            match r {
                Some(k) => k < self.entries@.len() && self.entries@[k as int].0@ == name@
                    && self@.contains_key(name@) && self@[name@] == self.entries@[k as int].1,
                None => !self@.contains_key(name@),
            },
    {
        let mut k: usize = 0;
        while k < self.entries.len()
            invariant
                k <= self.entries@.len(),
                self.well_formed(),
                forall|k2: int| 0 <= k2 < k ==> #[trigger] self.entries@[k2].0@ != name@,
            decreases self.entries.len() - k,
        {
            if str_equal(self.entries[k].0.as_str(), name) {
                proof {
                    let j = choose|j: int| 0 <= j < self.entries@.len() && #[trigger] self.entries@[j].0@ == name@;
                    if j != k {
                        if j < k {
                            assert(self.entries@[j].0@ != self.entries@[k as int].0@);
                        } else {
                            assert(self.entries@[k as int].0@ != self.entries@[j].0@);
                        }
                    }
                }
                return Some(k);
            }
            k += 1;
        }
        None
    }

    /// The value of the package named `name`, if it has one.
    pub fn get(&self, name: &str) -> (r: Option<&C>)
        requires
            self.well_formed(),
        ensures
            match r {
                Some(c) => self@.contains_key(name@) && self@[name@] == *c,
                None => !self@.contains_key(name@),
            },
    {
        match self.find(name) {
            Some(k) => Some(&self.entries[k].1),
            None => None,
        }
    }

    /// Sets the value of the package named `package_name`, replacing the one it had.
    pub fn set(&mut self, package_name: String, config: C)
        requires
            old(self).well_formed(),
        ensures
            final(self).well_formed(),
            final(self)@ == old(self)@.insert(package_name@, config),
    {
        let ghost before = self.entries@;
        let ghost name = package_name@;
        let ghost old_map = self@;
        match self.find(package_name.as_str()) {
            Some(k) => {
                self.entries.set(k, (package_name, config));
                proof {
                    let after = self.entries@;
                    assert forall|a: int, b: int| 0 <= a < b < after.len() implies #[trigger] after[a].0@ != #[trigger] after[b].0@ by {
                        if a != k && b != k {
                            assert(before[a].0@ != before[b].0@);
                        } else if a == k {
                            assert(before[a].0@ != before[b].0@);
                        } else {
                            assert(before[a].0@ != before[b].0@);
                        }
                    }
                    assert forall|x: Seq<char>| #[trigger] self@.contains_key(x) <==> old_map.insert(name, config).contains_key(x) by {
                        if x != name {
                            if self@.contains_key(x) {
                                let j = choose|j: int| 0 <= j < after.len() && #[trigger] after[j].0@ == x;
                                assert(before[j].0@ == x);
                            }
                            if old_map.contains_key(x) {
                                let j = choose|j: int| 0 <= j < before.len() && #[trigger] before[j].0@ == x;
                                assert(after[j].0@ == x);
                            }
                        } else {
                            assert(after[k as int].0@ == x);
                        }
                    }
                    assert forall|x: Seq<char>| #[trigger] self@.contains_key(x) implies self@[x] == old_map.insert(name, config)[x] by {
                        let j = choose|j: int| 0 <= j < after.len() && #[trigger] after[j].0@ == x;
                        if x == name {
                            if j != k {
                                if j < k {
                                    assert(after[j].0@ != after[k as int].0@);
                                } else {
                                    assert(after[k as int].0@ != after[j].0@);
                                }
                            }
                        } else {
                            assert(before[j].0@ == x);
                            let i = choose|i: int| 0 <= i < before.len() && #[trigger] before[i].0@ == x;
                            if i != j {
                                if i < j {
                                    assert(before[i].0@ != before[j].0@);
                                } else {
                                    assert(before[j].0@ != before[i].0@);
                                }
                            }
                        }
                    }
                    assert(self@ =~= old_map.insert(name, config));
                }
            },
            None => {
                self.entries.push((package_name, config));
                proof {
                    let after = self.entries@;
                    assert forall|a: int, b: int| 0 <= a < b < after.len() implies #[trigger] after[a].0@ != #[trigger] after[b].0@ by {
                        if b < before.len() {
                            assert(before[a].0@ != before[b].0@);
                        } else {
                            assert(after[b].0@ == name);
                            assert(before[a].0@ == after[a].0@);
                            if before[a].0@ == name {
                                assert(old_map.contains_key(name));
                            }
                        }
                    }
                    assert forall|x: Seq<char>| #[trigger] self@.contains_key(x) <==> old_map.insert(name, config).contains_key(x) by {
                        if self@.contains_key(x) && x != name {
                            let j = choose|j: int| 0 <= j < after.len() && #[trigger] after[j].0@ == x;
                            assert(before[j].0@ == x);
                        }
                        if old_map.contains_key(x) {
                            let j = choose|j: int| 0 <= j < before.len() && #[trigger] before[j].0@ == x;
                            assert(after[j].0@ == x);
                        }
                        if x == name {
                            assert(after[before.len() as int].0@ == x);
                        }
                    }
                    assert forall|x: Seq<char>| #[trigger] self@.contains_key(x) implies self@[x] == old_map.insert(name, config)[x] by {
                        let j = choose|j: int| 0 <= j < after.len() && #[trigger] after[j].0@ == x;
                        if x == name {
                            if j < before.len() {
                                assert(before[j].0@ == name);
                                assert(old_map.contains_key(name));
                            }
                        } else {
                            assert(j < before.len());
                            let i = choose|i: int| 0 <= i < before.len() && #[trigger] before[i].0@ == x;
                            if i != j {
                                if i < j {
                                    assert(before[i].0@ != before[j].0@);
                                } else {
                                    assert(before[j].0@ != before[i].0@);
                                }
                            }
                        }
                    }
                    assert(self@ =~= old_map.insert(name, config));
                }
            },
        }
    }
}

} // verus!
