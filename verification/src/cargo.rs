//! What is decided around the cargo registry index: whether a version is in the index, and
//! whether to keep waiting for a package that is being published.
use vstd::prelude::*;
use crate::text::{push_str, str_equal};

verus! {

/// How long to wait for a published package to show up in the index, in nanoseconds.
pub const PUBLISH_TIMEOUT_NANOS: u128 = 300_000_000_000;

/// How long to sleep between two looks at the index, in seconds.
pub const PUBLISH_POLL_SECS: u64 = 2;

/// `version` is one of `versions`.
pub open spec fn version_listed(versions: Seq<String>, version: Seq<char>) -> bool {
    exists|i: int| 0 <= i < versions.len() && #[trigger] versions[i]@ == version
}

/// Whether the index entry of a crate, given by the versions it lists, has `version`.
pub fn is_version_present(version: &str, versions: &[String]) -> (r: bool)
    ensures
        r == version_listed(versions@, version@),
{
    let mut k: usize = 0;
    while k < versions.len()
        invariant
            k <= versions@.len(),
            forall|i: int| 0 <= i < k ==> #[trigger] versions@[i]@ != version@,
        decreases versions.len() - k,
    {
        if str_equal(versions[k].as_str(), version) {
            return true;
        }
        k += 1;
    }
    false
}

/// Whether the index has `version` of a crate: `crate_versions` lists the versions of the
/// crate's index entry, `None` when the index has no entry for it.
pub fn is_in_cache(crate_versions: Option<&Vec<String>>, version: &str) -> (r: bool)
    ensures
        r == match crate_versions {
            Some(v) => version_listed(v@, version@),
            None => false,
        },
{
    match crate_versions {
        Some(v) => is_version_present(version, v.as_slice()),
        None => false,
    }
}

/// What to do after a look at the index while waiting for a package to be published.
#[derive(Debug, PartialEq, Eq)]
pub enum WaitStep {
    /// The package is in the index: stop waiting.
    Published,
    /// The package took too long to show up: give up with this message.
    TimedOut(String),
    /// Sleep, then look again.
    Retry,
}

/// The message of the error given when a package does not show up in time.
pub open spec fn timeout_message(package_name: Seq<char>) -> Seq<char> {
    "timeout while publishing "@ + package_name
}

/// The next step of the wait for `package_name` to be published, given whether the last look
/// found it and the nanoseconds since the wait began.
pub fn wait_step(is_published: bool, elapsed_nanos: u128, package_name: &str) -> (r: WaitStep)
    ensures
        is_published ==> r == WaitStep::Published,
        !is_published && PUBLISH_TIMEOUT_NANOS < elapsed_nanos ==> (r matches WaitStep::TimedOut(m)
            && m@ == timeout_message(package_name@)),
        !is_published && elapsed_nanos <= PUBLISH_TIMEOUT_NANOS ==> r == WaitStep::Retry,
{
    if is_published {
        WaitStep::Published
    } else if PUBLISH_TIMEOUT_NANOS < elapsed_nanos {
        let mut m = String::new();
        push_str(&mut m, "timeout while publishing ");
        push_str(&mut m, package_name);
        WaitStep::TimedOut(m)
    } else {
        WaitStep::Retry
    }
}

/// The registries a package is published to: the one asked for, else those its manifest's
/// `publish` field names (none when the field is absent).
pub open spec fn publish_registries_spec(registry: Option<Seq<char>>, publish: Option<Seq<Seq<char>>>) -> Seq<Seq<char>> {
    match registry {
        Some(r) => seq![r],
        None => match publish {
            Some(list) => list,
            None => Seq::empty(),
        },
    }
}

/// The registries a package is published to (see [`publish_registries_spec`]).
pub fn publish_registries(registry: Option<&str>, publish: &Option<Vec<String>>) -> (r: Vec<String>)
    ensures
        r.deep_view() == publish_registries_spec(
            match registry {
                Some(x) => Some(x@),
                None => None,
            },
            match publish {
                Some(l) => Some(l.deep_view()),
                None => None,
            },
        ),
{
    let mut r: Vec<String> = Vec::new();
    match registry {
        Some(x) => {
            let mut s = String::new();
            push_str(&mut s, x);
            r.push(s);
            assert(r.deep_view() =~= seq![x@]);
        },
        None => match publish {
            Some(list) => {
                let mut k: usize = 0;
                while k < list.len()
                    invariant
                        k <= list@.len(),
                        r.deep_view() == list.deep_view().take(k as int),
                    decreases list.len() - k,
                {
                    let ghost before = r.deep_view();
                    let mut s = String::new();
                    push_str(&mut s, list[k].as_str());
                    r.push(s);
                    proof {
                        assert(r.deep_view() =~= before.push(list@[k as int]@));
                        assert(list.deep_view().take(k + 1) =~= list.deep_view().take(k as int).push(list@[k as int]@));
                    }
                    k += 1;
                }
                assert(list.deep_view().take(k as int) =~= list.deep_view());
            },
            None => {
                assert(r.deep_view() =~= Seq::<Seq<char>>::empty());
            },
        },
    }
    r
}

/// Where the index of a registry is read from.
#[derive(Debug, PartialEq, Eq)]
pub enum IndexLocation {
    /// A sparse index at this URL (which starts with `sparse+`).
    Sparse(String),
    /// A git index at this URL (the registry URL behind `registry+`).
    Git(String),
    /// The git index of crates.io.
    CratesIo,
}

/// Plain view of an [`IndexLocation`].
pub enum IndexLocationView {
    Sparse(Seq<char>),
    Git(Seq<char>),
    CratesIo,
}

impl View for IndexLocation {
    type V = IndexLocationView;

    open spec fn view(&self) -> IndexLocationView {
        match self {
            IndexLocation::Sparse(u) => IndexLocationView::Sparse(u@),
            IndexLocation::Git(u) => IndexLocationView::Git(u@),
            IndexLocation::CratesIo => IndexLocationView::CratesIo,
        }
    }
}

/// Where the index of the registry at `url` is read from.
pub open spec fn index_location_spec(url: Seq<char>) -> IndexLocationView {
    if crate::text::has_prefix(url, "sparse+"@) {
        IndexLocationView::Sparse(url)
    } else {
        IndexLocationView::Git("registry+"@ + url)
    }
}

/// The indexes to look a published package up in, from the URLs of its registries: one per
/// URL, or the crates.io index when there is none.
pub fn index_locations(registry_urls: &Vec<String>) -> (r: Vec<IndexLocation>)
    ensures
        registry_urls@.len() == 0 ==> r@.len() == 1 && r@[0]@ == IndexLocationView::CratesIo,
        registry_urls@.len() > 0 ==> r@.len() == registry_urls@.len() && forall|k: int| 0 <= k < r@.len()
            ==> #[trigger] r@[k]@ == index_location_spec(registry_urls@[k]@),
{
    let mut r: Vec<IndexLocation> = Vec::new();
    let mut k: usize = 0;
    while k < registry_urls.len()
        invariant
            k <= registry_urls@.len(),
            r@.len() == k,
            forall|j: int| 0 <= j < k ==> #[trigger] r@[j]@ == index_location_spec(registry_urls@[j]@),
        decreases registry_urls.len() - k,
    {
        let u = registry_urls[k].as_str();
        let cs = crate::text::chars_of(u);
        let prefix = crate::text::chars_of("sparse+");
        if crate::text::starts_with(cs.as_slice(), prefix.as_slice()) {
            let mut s = String::new();
            push_str(&mut s, u);
            r.push(IndexLocation::Sparse(s));
        } else {
            let mut s = String::new();
            push_str(&mut s, "registry+");
            push_str(&mut s, u);
            r.push(IndexLocation::Git(s));
        }
        k += 1;
    }
    if r.len() == 0 {
        r.push(IndexLocation::CratesIo);
    }
    r
}

} // verus!
