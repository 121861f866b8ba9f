//! Questions about paths that the standard library answers: whether one
//! path lies under another, and what is left of it below a root.

use vstd::prelude::*;

verus! {

/// What `Path::starts_with` returns for a path and a base, both as text.
pub uninterp spec fn has_prefix_of(path: Seq<char>, base: Seq<char>) -> bool;

/// What `Path::strip_prefix` returns for a path and a base, both as text;
/// `None` where the base is no prefix of the path.
pub uninterp spec fn below_of(path: Seq<char>, base: Seq<char>) -> Option<Seq<char>>;

/// Trusted: `std::path::Path::starts_with`, which compares whole
/// components. The result is named, not described.
#[verifier::external_body]
fn path_starts_with(path: &str, base: &str) -> (r: bool)
    ensures
        r == has_prefix_of(path@, base@),
{
    std::path::Path::new(path).starts_with(base)
}

/// Trusted: `std::path::Path::strip_prefix`. The result is named, not
/// described; an error of the standard library is `None`.
#[verifier::external_body]
fn path_strip_prefix(path: &str, base: &str) -> (r: Option<String>)
    ensures
        match r {
            Some(rest) => below_of(path@, base@) == Some(rest@),
            None => below_of(path@, base@) is None,
        },
{
    std::path::Path::new(path).strip_prefix(base).ok().map(|p| p.to_string_lossy().into_owned())
}

/// Whether a destination file belongs in the conflict index.
pub open spec fn indexed_of(canonical: Option<String>, source_root: Seq<char>) -> bool {
    match canonical {
        Some(c) => !has_prefix_of(c@, source_root),
        None => true,
    }
}

/// Whether a file found at the destination belongs in the conflict index:
/// it does unless its canonical path lies under the canonical source root,
/// so that no file is matched against itself. A file whose path cannot be
/// canonicalised is indexed.
pub fn belongs_in_index(canonical: &Option<String>, source_root: &str) -> (r: bool)
    ensures
        r == indexed_of(*canonical, source_root@),
{
    match canonical {
        Some(c) => !path_starts_with(c.as_str(), source_root),
        None => true,
    }
}

/// The key of a file in a structure-preserving merge: its path relative to
/// the root it was scanned from. `None` where the file is not under the
/// root, which is an error for that file.
pub fn relative_key(path: &str, root: &str) -> (r: Option<String>)
    ensures
        match r {
            Some(rest) => below_of(path@, root@) == Some(rest@),
            None => below_of(path@, root@) is None,
        },
{
    path_strip_prefix(path, root)
}

} // verus!
