//! The parts of a GitHub GraphQL commit that do not depend on the network: the mutation, the
//! files it adds and deletes, and the endpoint it is sent to.
use vstd::prelude::*;
use crate::git::backend::Remote;
use crate::text::{chars_of, has_prefix, is_white_space, is_white_space_exec, starts_with, string_from_chars};

verus! {

/// The mutation that creates a commit on a branch.
pub const MUTATION: &'static str = "
            mutation($input: CreateCommitOnBranchInput!) {
              createCommitOnBranch(input: $input) {
                commit {
                  author {
                    name,
                    email
                  }
                }
              }
            }";

/// `s` without its white space.
pub open spec fn without_white_space(s: Seq<char>) -> Seq<char> {
    s.filter(|c: char| !is_white_space(c))
}

/// The mutation, without white space.
pub fn mutation() -> (r: String)
    ensures
        r@ == without_white_space(MUTATION@),
{
    let cs = chars_of(MUTATION);
    let ghost f = |c: char| !is_white_space(c);
    let mut out: Vec<char> = Vec::new();
    let mut i: usize = 0;
    while i < cs.len()
        invariant
            i <= cs@.len(),
            cs@ == MUTATION@,
            f == (|c: char| !is_white_space(c)),
            out@ == cs@.take(i as int).filter(f),
        decreases cs.len() - i,
    {
        proof {
            assert(cs@.take(i + 1) == cs@.take(i as int).push(cs@[i as int]));
            cs@.take(i as int).lemma_filter_push(cs@[i as int], f);
        }
        if !is_white_space_exec(cs[i]) {
            out.push(cs[i]);
        }
        i += 1;
    }
    assert(cs@.take(cs@.len() as int) == cs@);
    string_from_chars(out.as_slice())
}

/// A line of `git status --porcelain` for a file to add: neither a type change nor a deletion.
pub open spec fn is_changed_file_line_spec(line: Seq<char>) -> bool {
    !has_prefix(line, "T "@) && !has_prefix(line, "D "@)
}

/// A line of `git status --porcelain` for a deleted file.
pub open spec fn is_removed_file_line_spec(line: Seq<char>) -> bool {
    has_prefix(line, "D "@)
}

/// Whether the status line is of a file to add (not a type change, not a deletion).
pub fn is_changed_file_line(line: &str) -> (r: bool)
    ensures
        r == is_changed_file_line_spec(line@),
{
    let l = chars_of(line);
    let t = chars_of("T ");
    let d = chars_of("D ");
    !starts_with(l.as_slice(), t.as_slice()) && !starts_with(l.as_slice(), d.as_slice())
}

/// Whether the status line is of a deleted file.
pub fn is_removed_file_line(line: &str) -> (r: bool)
    ensures
        r == is_removed_file_line_spec(line@),
{
    let l = chars_of(line);
    let d = chars_of("D ");
    starts_with(l.as_slice(), d.as_slice())
}

/// What `url::Url::parse` followed by `Url::set_path` gives: the URL with its path replaced,
/// serialized, or the message of the parse error.
pub uninterp spec fn url_set_path_outcome(url: Seq<char>, path: Seq<char>) -> Result<Seq<char>, Seq<char>>;

/// Parses `url` with `url::Url::parse`, sets its path with `Url::set_path`, and serializes it.
#[verifier::external_body]
fn url_with_path(url: &str, path: &str) -> (r: Result<String, String>)
    ensures
        crate::url_text::string_result_view(r) == url_set_path_outcome(url@, path@),
{
    match url::Url::parse(url) {
        Ok(mut u) => {
            u.set_path(path);
            Ok(u.to_string())
        },
        Err(e) => Err(e.to_string()),
    }
}

/// The GraphQL endpoint of the API of the remote: its base URL with the path `graphql`.
pub fn get_graphql_endpoint(remote: &Remote) -> (r: Result<String, String>)
    ensures
        crate::url_text::string_result_view(r) == url_set_path_outcome(remote.base_url@, "graphql"@),
{
    url_with_path(remote.base_url.as_str(), "graphql")
}

} // verus!
