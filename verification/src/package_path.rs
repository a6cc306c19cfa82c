//! Where a package lives: the directory of its manifest.
use vstd::prelude::*;
use crate::text::push_str;

verus! {

/// What `std::path::Path::parent` gives for a path: the path without its final component, or
/// nothing for a root or an empty path.
pub uninterp spec fn path_parent_outcome(path: Seq<char>) -> Option<Seq<char>>;

/// Calls `std::path::Path::parent` on the path `path`.
#[verifier::external_body]
fn path_parent(path: &str) -> (r: Option<String>)
    ensures
        crate::text::opt_chars(r) == path_parent_outcome(path@),
{
    std::path::Path::new(path).parent().map(|p| p.to_string_lossy().into_owned())
}

/// The text of a path in Rust's debug format (quoted and escaped).
pub uninterp spec fn debug_path(path: Seq<char>) -> Seq<char>;

/// Formats the path `path` with `{:?}`.
#[verifier::external_body]
fn format_debug_path(path: &str) -> (r: String)
    ensures
        r@ == debug_path(path@),
{
    format!("{:?}", std::path::Path::new(path))
}

/// The directory where the manifest at `manifest` is located.
pub fn manifest_dir(manifest: &str) -> (r: Result<String, String>)
    ensures
        match path_parent_outcome(manifest@) {
            Some(dir) => r matches Ok(d) && d@ == dir,
            None => r matches Err(e) && e@ == "Cannot find directory where manifest "@ + debug_path(manifest@)
                + " is located"@,
        },
{
    match path_parent(manifest) {
        Some(dir) => Ok(dir),
        None => {
            let mut e = String::new();
            push_str(&mut e, "Cannot find directory where manifest ");
            let shown = format_debug_path(manifest);
            push_str(&mut e, shown.as_str());
            push_str(&mut e, " is located");
            Err(e)
        },
    }
}

} // verus!
