//! Which directories a move leaves behind as disposable, and what is
//! removed from them first.

use crate::utils::{is_audio_extension, is_audio_file, lower_extension_of};
use vstd::prelude::*;

verus! {

/// One entry of a directory.
#[derive(Debug, Clone)]
pub struct DirEntry {
    pub path: String,
    pub is_dir: bool,
    pub is_file: bool,
}

/// Whether a path has an audio extension.
pub open spec fn is_audio_path(path: Seq<char>) -> bool {
    match lower_extension_of(path) {
        Some(e) => is_audio_extension(e),
        None => false,
    }
}

/// Whether an entry keeps its directory alive: an audio file does, a
/// subdirectory or any other file does not.
pub open spec fn keeps_alive(e: DirEntry) -> bool {
    !e.is_dir && is_audio_path(e.path@)
}

/// The positions of the plain files among the entries, in order.
pub open spec fn plain_files_of(entries: Seq<DirEntry>) -> Seq<int>
    decreases entries.len(),
{
    if entries.len() == 0 {
        Seq::empty()
    } else if entries.last().is_file {
        plain_files_of(entries.drop_last()).push(entries.len() - 1)
    } else {
        plain_files_of(entries.drop_last())
    }
}

/// What happens to a directory that a move may have emptied.
#[derive(Debug, Clone, Copy, PartialEq, Eq, Structural)]
pub enum CleanupStep {
    /// The directory stays, and the walk upwards ends.
    Stop,
    /// Its leftover files and then the directory itself are removed.
    Remove,
}

/// The step for a directory: it is removed if it is not the root, exists
/// and holds nothing that keeps it alive.
pub open spec fn cleanup_step_of(at_root: bool, exists: bool, entries: Seq<DirEntry>)
    -> CleanupStep {
    if !at_root && exists && (forall|i: int|
        0 <= i < entries.len() ==> !keeps_alive(#[trigger] entries[i])) {
        CleanupStep::Remove
    } else {
        CleanupStep::Stop
    }
}

/// The count of removed directories and whether the walk goes on to the
/// parent, after an attempt to remove a directory: a removed directory is
/// counted and its parent comes next; a failure ends the walk.
pub open spec fn cleanup_progress_of(count: usize, removed: bool, has_parent: bool) -> (
    usize,
    bool,
) {
    if removed {
        (
            if count < usize::MAX {
                (count + 1) as usize
            } else {
                count
            },
            has_parent,
        )
    } else {
        (count, false)
    }
}

/// Decides what happens to a directory: `at_root` says whether it is the
/// root that must stay, `exists` whether it is there, `entries` what it
/// holds.
pub fn cleanup_step(at_root: bool, exists: bool, entries: &Vec<DirEntry>) -> (r: CleanupStep)
    ensures
        r == cleanup_step_of(at_root, exists, entries@),
{
    if !at_root && exists && is_disposable(entries) {
        CleanupStep::Remove
    } else {
        CleanupStep::Stop
    }
}

/// Counts a removal and says whether the parent directory comes next.
pub fn cleanup_progress(count: usize, removed: bool, has_parent: bool) -> (r: (usize, bool))
    ensures
        r == cleanup_progress_of(count, removed, has_parent),
{
    if removed {
        if count < usize::MAX {
            (count + 1, has_parent)
        } else {
            (count, has_parent)
        }
    } else {
        (count, false)
    }
}

/// Whether a directory with these entries may go: it is empty, or holds
/// only subdirectories and files that are not audio.
pub fn is_disposable(entries: &Vec<DirEntry>) -> (r: bool)
    ensures
        r == forall|i: int| 0 <= i < entries@.len() ==> !keeps_alive(#[trigger] entries@[i]),
{
    let mut i: usize = 0;
    while i < entries.len()
        invariant
            i <= entries.len(),
            forall|k: int| 0 <= k < i ==> !keeps_alive(#[trigger] entries@[k]),
        decreases entries.len() - i,
    {
        if !entries[i].is_dir && is_audio_file(entries[i].path.as_str()) {
            assert(keeps_alive(entries@[i as int]));
            return false;
        }
        i += 1;
    }
    true
}

/// The entries to remove before the directory itself: its plain files.
pub fn leftover_files(entries: &Vec<DirEntry>) -> (r: Vec<usize>)
    ensures
        r@.len() == plain_files_of(entries@).len(),
        forall|k: int| 0 <= k < r@.len() ==> #[trigger] r@[k] as int == plain_files_of(entries@)[k],
{
    let mut out: Vec<usize> = Vec::new();
    let mut i: usize = 0;
    while i < entries.len()
        invariant
            i <= entries.len(),
            out@.len() == plain_files_of(entries@.take(i as int)).len(),
            forall|k: int|
                0 <= k < out@.len() ==> #[trigger] out@[k] as int == plain_files_of(
                    entries@.take(i as int),
                )[k],
        decreases entries.len() - i,
    {
        assert(entries@.take(i + 1).drop_last() =~= entries@.take(i as int));
        if entries[i].is_file {
            out.push(i);
        }
        i += 1;
    }
    assert(entries@.take(entries.len() as int) =~= entries@);
    out
}

} // verus!
