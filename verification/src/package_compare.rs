//! What is decided when a local package is compared with its published copy: the output of
//! `cargo package --list`, the lists of packaged files, and which files are compared by content.
use vstd::prelude::*;
use crate::text::{push_str, str_equal, string_from_chars};

verus! {

/// `s` without one trailing carriage return, if it has one.
pub open spec fn strip_cr(s: Seq<char>) -> Seq<char> {
    if s.len() > 0 && s.last() == '\r' {
        s.drop_last()
    } else {
        s
    }
}

/// The lines of `s` from index `pos` on, the current line having begun at `start`: a line ends at
/// a `\n`, which it does not keep, and a `\r` before that `\n` is dropped too; the text after the
/// last `\n` is a line when it is not empty.
pub open spec fn lines_from(s: Seq<char>, start: int, pos: int) -> Seq<Seq<char>>
    recommends
        0 <= start <= pos <= s.len(),
    decreases s.len() - pos,
{
    if pos >= s.len() {
        if start < s.len() {
            seq![s.subrange(start, s.len() as int)]
        } else {
            Seq::empty()
        }
    } else if s[pos] == '\n' {
        seq![strip_cr(s.subrange(start, pos))] + lines_from(s, pos + 1, pos + 1)
    } else {
        lines_from(s, start, pos + 1)
    }
}

/// The lines of `s`, as `str::lines` gives them.
pub open spec fn lines(s: Seq<char>) -> Seq<Seq<char>> {
    lines_from(s, 0, 0)
}

/// The name of the file that cargo adds to a published package, which the local package lacks.
pub const CARGO_VCS_INFO: &'static str = ".cargo_vcs_info.json";

/// `lines` without the ones equal to `skipped`.
pub open spec fn without(lines: Seq<Seq<char>>, skipped: Seq<char>) -> Seq<Seq<char>> {
    lines.filter(|l: Seq<char>| l != skipped)
}

/// The lines of `s`, in order.
pub fn split_lines(s: &str) -> (r: Vec<String>)
    ensures
        r.deep_view() == lines(s@),
{
    let cs = crate::text::chars_of(s);
    let ghost sv = s@;
    let mut out: Vec<String> = Vec::new();
    let mut start: usize = 0;
    let mut pos: usize = 0;
    while pos < cs.len()
        invariant
            cs@ == sv,
            start <= pos <= cs@.len(),
            out.deep_view() + lines_from(sv, start as int, pos as int) == lines(sv),
        decreases cs.len() - pos,
    {
        if cs[pos] == '\n' {
            let mut end = pos;
            if end > start && cs[end - 1] == '\r' {
                end = end - 1;
            }
            let line = string_from_chars(slice_range(&cs, start, end).as_slice());
            proof {
                assert(line@ == strip_cr(sv.subrange(start as int, pos as int)));
                assert(out.deep_view().push(line@) + lines_from(sv, pos + 1, pos + 1) =~= out.deep_view()
                    + lines_from(sv, start as int, pos as int));
            }
            let ghost before = out.deep_view();
            out.push(line);
            assert(out.deep_view() =~= before.push(line@));
            pos = pos + 1;
            start = pos;
        } else {
            pos = pos + 1;
        }
    }
    if start < cs.len() {
        let line = string_from_chars(slice_range(&cs, start, cs.len()).as_slice());
        let ghost before = out.deep_view();
        out.push(line);
        assert(out.deep_view() =~= before.push(line@));
    } else {
        assert(lines_from(sv, start as int, pos as int) =~= Seq::<Seq<char>>::empty());
    }
    out
}

/// The characters of `cs` from `a` up to `b`.
fn slice_range(cs: &Vec<char>, a: usize, b: usize) -> (r: Vec<char>)
    requires
        a <= b <= cs@.len(),
    ensures
        r@ == cs@.subrange(a as int, b as int),
{
    let mut r: Vec<char> = Vec::new();
    let mut k = a;
    while k < b
        invariant
            a <= k <= b <= cs@.len(),
            r@ == cs@.subrange(a as int, k as int),
        decreases b - k,
    {
        r.push(cs[k]);
        k += 1;
    }
    r
}

/// The list of packaged files that `cargo package --list --quiet` printed, or the error when it
/// wrote anything on stderr.
pub fn cargo_package_output(stdout: String, stderr: &str) -> (r: Result<String, String>)
    ensures
        stderr@.len() == 0 ==> r == Ok::<String, String>(stdout),
        stderr@.len() > 0 ==> (r matches Err(e) && e@ == "error while running `cargo package`: "@
            + stderr@),
{
    if stderr.unicode_len() == 0 {
        Ok(stdout)
    } else {
        let mut e = String::new();
        push_str(&mut e, "error while running `cargo package`: ");
        push_str(&mut e, stderr);
        Err(e)
    }
}

/// The lines of `v` but `.cargo_vcs_info.json`, in order.
fn without_vcs_info(v: &Vec<String>) -> (r: Vec<String>)
    ensures
        r.deep_view() == without(v.deep_view(), CARGO_VCS_INFO@),
{
    let ghost vv = v.deep_view();
    let mut r: Vec<String> = Vec::new();
    let mut k: usize = 0;
    assert(without(vv.take(0), CARGO_VCS_INFO@) =~= Seq::<Seq<char>>::empty()) by {
        reveal(Seq::filter);
    }
    while k < v.len()
        invariant
            k <= v@.len(),
            vv == v.deep_view(),
            r.deep_view() == without(vv.take(k as int), CARGO_VCS_INFO@),
        decreases v.len() - k,
    {
        let l = v[k].as_str();
        proof {
            reveal(Seq::filter);
            assert(vv.take(k + 1).drop_last() =~= vv.take(k as int));
            assert(vv[k as int] == l@);
        }
        let kept = !str_equal(l, CARGO_VCS_INFO);
        let ghost before = r.deep_view();
        if kept {
            r.push(v[k].clone());
            assert(r.deep_view() =~= before.push(l@));
        }
        proof {
            if kept {
                assert(without(vv.take(k + 1), CARGO_VCS_INFO@) =~= before.push(l@));
            } else {
                assert(without(vv.take(k + 1), CARGO_VCS_INFO@) =~= before);
            }
        }
        k += 1;
    }
    assert(vv.take(k as int) =~= vv);
    r
}

/// Whether two lists of strings are equal.
fn same_strings(a: &Vec<String>, b: &Vec<String>) -> (r: bool)
    ensures
        r == (a.deep_view() == b.deep_view()),
{
    if a.len() != b.len() {
        assert(a.deep_view().len() != b.deep_view().len());
        return false;
    }
    let mut k: usize = 0;
    while k < a.len()
        invariant
            a@.len() == b@.len(),
            k <= a@.len(),
            forall|q: int| 0 <= q < k ==> #[trigger] a@[q]@ == b@[q]@,
        decreases a.len() - k,
    {
        if !str_equal(a[k].as_str(), b[k].as_str()) {
            assert(a.deep_view()[k as int] != b.deep_view()[k as int]);
            return false;
        }
        k += 1;
    }
    assert(a.deep_view() =~= b.deep_view());
    true
}

/// Whether the lists of packaged files of the local package and of the published one agree:
/// the local list without `.cargo_vcs_info.json` must equal the published list line by line.
/// The published list is kept whole: its filter (`!= "Cargo.toml.orig.orig" || !=
/// ".cargo_vcs_info.json"`) holds of every line.
pub fn are_packaged_files_equal(local_list: &str, registry_list: &str) -> (r: bool)
    ensures
        r == (without(lines(local_list@), CARGO_VCS_INFO@) == lines(registry_list@)),
{
    let local = split_lines(local_list);
    let registry = split_lines(registry_list);
    let local_kept = without_vcs_info(&local);
    same_strings(&local_kept, &registry)
}

/// Whether a packaged file is left out of the comparison by content, by its file name:
/// `Cargo.lock` differs between a workspace and a published package, `Cargo.toml` was compared
/// before, and `Cargo.toml.orig` is written by cargo.
pub fn is_skipped_file_name(file_name: &str) -> (r: bool)
    ensures
        r == (file_name@ == "Cargo.lock"@ || file_name@ == "Cargo.toml"@ || file_name@
            == "Cargo.toml.orig"@),
{
    str_equal(file_name, "Cargo.lock") || str_equal(file_name, "Cargo.toml") || str_equal(
        file_name,
        "Cargo.toml.orig",
    )
}

} // verus!
