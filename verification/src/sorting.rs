//! Decisions particular to sorting into folders and to removing duplicates
//! inside one library.

use crate::operations::{decide, decision_of, Decision};
use crate::text::{chars_of, same_chars, trim, trim_of};
use vstd::prelude::*;

verus! {

/// What happens to the winner of a destination when files are sorted.
#[derive(Debug, Clone, Copy, PartialEq, Eq, Structural)]
pub enum SortDecision {
    /// The file already is the file at the destination.
    AlreadyInPlace,
    /// The shared rule decides against what the destination holds.
    Ruled { decision: Decision },
}

/// The decision for a file of quality `n`; `same_file` says whether the
/// destination exists and is this very file, `existing` is the quality of
/// another file found there.
pub open spec fn sort_decision_of(n: u32, same_file: bool, existing: Option<u32>) -> SortDecision {
    if same_file {
        SortDecision::AlreadyInPlace
    } else {
        SortDecision::Ruled { decision: decision_of(n, existing) }
    }
}

/// Whether the source file is deleted: only in destructive mode, never in
/// a dry run, and only where a better file stays at the destination.
pub open spec fn source_removed_of(d: SortDecision, destructive: bool, dry_run: bool) -> bool {
    destructive && !dry_run && match d {
        SortDecision::Ruled { decision } => decision is SkipLower,
        SortDecision::AlreadyInPlace => false,
    }
}

/// Whether a removal of duplicates has to be confirmed first.
pub open spec fn confirmation_needed_of(to_remove: nat, auto_remove: bool, dry_run: bool) -> bool {
    to_remove > 0 && !auto_remove && !dry_run
}

/// Decides what happens to a file that is sorted into its folder.
pub fn decide_sorted(new_quality: u32, same_file: bool, existing: Option<u32>) -> (r:
    SortDecision)
    ensures
        r == sort_decision_of(new_quality, same_file, existing),
{
    if same_file {
        SortDecision::AlreadyInPlace
    } else {
        SortDecision::Ruled { decision: decide(new_quality, existing) }
    }
}

/// The reason recorded for a file that already is where it belongs.
pub fn in_place_reason() -> (r: String)
    ensures
        r@ == "already in correct location"@,
{
    "already in correct location".to_owned()
}

/// The reason recorded for a file that already lies in the folders its
/// metadata asks for.
pub fn organized_reason() -> (r: String)
    ensures
        r@ == "already organized"@,
{
    "already organized".to_owned()
}

/// Whether the source of a sorted file is deleted.
pub fn removes_source(decision: SortDecision, destructive: bool, dry_run: bool) -> (r: bool)
    ensures
        r == source_removed_of(decision, destructive, dry_run),
{
    match decision {
        SortDecision::Ruled { decision: Decision::SkipLower { .. } } => destructive && !dry_run,
        _ => false,
    }
}

/// Whether the user has to confirm before duplicates are removed.
pub fn needs_confirmation(to_remove: usize, auto_remove: bool, dry_run: bool) -> (r: bool)
    ensures
        r == confirmation_needed_of(to_remove as nat, auto_remove, dry_run),
{
    to_remove > 0 && !auto_remove && !dry_run
}

/// Whether an answer confirms: it does if, whitespace aside, it is `y` or
/// `Y`.
pub fn is_confirmation(answer: &str) -> (r: bool)
    ensures
        r == (trim_of(answer@) == "y"@ || trim_of(answer@) == "Y"@),
{
    let t = trim(&chars_of(answer));
    same_chars(&t, &chars_of("y")) || same_chars(&t, &chars_of("Y"))
}

/// A second sorting run moves nothing that the first run placed: placed
/// files are found in place, and a dry run deletes nothing.
pub proof fn lemma_sorted_stays(n: u32, existing: Option<u32>, destructive: bool)
    ensures
        sort_decision_of(n, true, existing) == SortDecision::AlreadyInPlace,
        !source_removed_of(sort_decision_of(n, true, existing), destructive, false),
        forall|d: SortDecision| !source_removed_of(d, destructive, true),
        forall|d: SortDecision| !source_removed_of(d, false, false),
{
}

} // verus!
