//! Decisions of the modes that link instead of copying: merging several
//! libraries into a tree of symbolic links, and replacing duplicates across
//! libraries by links to the best copy.

use crate::operations::{reason_of, skip_reason, Decision};
use vstd::prelude::*;

verus! {

/// What `pathdiff::diff_paths` returns for a path and a base, both as text.
pub uninterp spec fn diff_paths_of(path: Seq<char>, base: Seq<char>) -> Option<Seq<char>>;

/// Trusted: `pathdiff::diff_paths(path, base)`, the path that leads from the
/// directory `base` to `path`. The result is named, not described; it is
/// `None` where the crate finds no such path.
#[verifier::external_body]
fn diff_paths(path: &str, base: &str) -> (r: Option<String>)
    ensures
        match r {
            Some(p) => diff_paths_of(path@, base@) == Some(p@),
            None => diff_paths_of(path@, base@) is None,
        },
{
    pathdiff::diff_paths(path, base).map(|p| p.to_string_lossy().into_owned())
}

/// What is found where a link is to be made.
#[derive(Debug, Clone, Copy, PartialEq, Eq, Structural)]
pub enum LinkState {
    /// Nothing is there.
    Absent,
    /// Something that is no symbolic link.
    NotSymlink,
    /// A symbolic link; `same_target` says whether it resolves to the file
    /// that is to be linked, `quality` is the score of what it points to, 0
    /// where that cannot be read.
    Symlink { same_target: bool, quality: u32 },
}

/// What happens where a link is to be made.
#[derive(Debug, Clone, Copy, PartialEq, Eq, Structural)]
pub enum LinkDecision {
    /// A new link is created.
    Create,
    /// The link is there already and is left untouched.
    AlreadyCorrect,
    /// The link pointed to a file of lower quality and is replaced.
    Replace { existing: u32 },
    /// The link points to another file of the same quality and stays.
    SkipSame,
    /// The link points to a file of higher quality and stays.
    SkipLower { existing: u32 },
    /// What is there is no link: it is reported and never overwritten.
    SkipNotSymlink,
}

/// One step of a linking run.
#[derive(Debug, Clone, PartialEq, Eq)]
pub enum LinkStep {
    /// No relative path leads from the link's directory to the file: an
    /// error for this file only.
    NoRelativePath,
    /// The decision, with the link text to write where a link is made.
    Decided { target: String, decision: LinkDecision },
}

/// What becomes of a duplicate in the cross-library mode.
#[derive(Debug, Clone, Copy, PartialEq, Eq, Structural)]
pub enum DuplicateDecision {
    /// It is already a link to the best copy.
    AlreadyLinked,
    /// It is removed and a link to the best copy takes its place.
    ReplaceWithLink,
}

/// Why a run cannot start.
#[derive(Debug, Clone, Copy, PartialEq, Eq, Structural)]
pub enum SetupError {
    /// The cross-library modes need at least two libraries.
    TooFewLibraries,
    /// The input directory with this position does not exist.
    MissingInput { index: usize },
}

/// The position of the first input directory that does not exist.
pub open spec fn first_missing(exists: Seq<bool>) -> Option<int>
    decreases exists.len(),
{
    if exists.len() == 0 {
        None
    } else {
        match first_missing(exists.drop_last()) {
            Some(i) => Some(i),
            None => if exists.last() {
                None
            } else {
                Some(exists.len() - 1)
            },
        }
    }
}

/// Whether a run can start: it cannot with fewer input directories than
/// the mode needs, nor with one that does not exist.
pub open spec fn setup_of(exists: Seq<bool>, at_least: usize) -> Result<(), SetupError> {
    if exists.len() < at_least {
        Err(SetupError::TooFewLibraries)
    } else {
        match first_missing(exists) {
            Some(i) => Err(SetupError::MissingInput { index: i as usize }),
            None => Ok(()),
        }
    }
}

/// The decision for linking a file of quality `n`.
pub open spec fn link_decision_of(n: u32, state: LinkState) -> LinkDecision {
    match state {
        LinkState::Absent => LinkDecision::Create,
        LinkState::NotSymlink => LinkDecision::SkipNotSymlink,
        LinkState::Symlink { same_target, quality } => if same_target {
            LinkDecision::AlreadyCorrect
        } else if n > quality {
            LinkDecision::Replace { existing: quality }
        } else if n == quality {
            LinkDecision::SkipSame
        } else {
            LinkDecision::SkipLower { existing: quality }
        },
    }
}

/// Whether a decision writes a link.
pub open spec fn writes_link(d: LinkDecision) -> bool {
    d is Create || d is Replace
}

/// What is found at the link's place once the decision is carried out.
pub open spec fn link_state_after(n: u32, state: LinkState) -> LinkState {
    if writes_link(link_decision_of(n, state)) {
        LinkState::Symlink { same_target: true, quality: n }
    } else {
        state
    }
}

/// The reason recorded where no link is written.
pub open spec fn link_reason_of(n: u32, d: LinkDecision) -> Option<Seq<char>> {
    match d {
        LinkDecision::AlreadyCorrect => Some("symlink already correct"@),
        LinkDecision::SkipNotSymlink => Some("destination is not a symlink"@),
        LinkDecision::SkipSame => reason_of(n, Decision::SkipSame),
        LinkDecision::SkipLower { existing } => reason_of(n, Decision::SkipLower { existing }),
        _ => None,
    }
}

/// The step for a file, given the relative path computed for it.
pub open spec fn link_step_of(relative: Option<Seq<char>>, n: u32, state: LinkState) -> Option<
    (Seq<char>, LinkDecision),
> {
    match relative {
        None => None,
        Some(target) => Some((target, link_decision_of(n, state))),
    }
}

/// Decides between creating, replacing and leaving a link.
pub fn decide_link(new_quality: u32, state: LinkState) -> (r: LinkDecision)
    ensures
        r == link_decision_of(new_quality, state),
{
    match state {
        LinkState::Absent => LinkDecision::Create,
        LinkState::NotSymlink => LinkDecision::SkipNotSymlink,
        LinkState::Symlink { same_target, quality } => {
            if same_target {
                LinkDecision::AlreadyCorrect
            } else if new_quality > quality {
                LinkDecision::Replace { existing: quality }
            } else if new_quality == quality {
                LinkDecision::SkipSame
            } else {
                LinkDecision::SkipLower { existing: quality }
            }
        },
    }
}

/// The reason to record where no link is written; `None` where one is.
pub fn link_skip_reason(new_quality: u32, decision: LinkDecision) -> (r: Option<String>)
    ensures
        match r {
            Some(s) => link_reason_of(new_quality, decision) == Some(s@),
            None => link_reason_of(new_quality, decision) is None,
        },
{
    match decision {
        LinkDecision::AlreadyCorrect => Some("symlink already correct".to_owned()),
        LinkDecision::SkipNotSymlink => Some("destination is not a symlink".to_owned()),
        LinkDecision::SkipSame => skip_reason(new_quality, Decision::SkipSame),
        LinkDecision::SkipLower { existing } => skip_reason(
            new_quality,
            Decision::SkipLower { existing },
        ),
        _ => None,
    }
}

/// The text of a link in directory `link_dir` that points to
/// `source_absolute`: a path relative to the link's own directory, so that
/// the tree keeps working when it is moved as a whole.
pub fn relative_link_target(source_absolute: &str, link_dir: &str) -> (r: Option<String>)
    ensures
        match r {
            Some(p) => diff_paths_of(source_absolute@, link_dir@) == Some(p@),
            None => diff_paths_of(source_absolute@, link_dir@) is None,
        },
{
    diff_paths(source_absolute, link_dir)
}

/// The step for one file once its relative path has been computed: an error
/// for this file where there is none, else the decision.
pub fn link_step(relative: Option<String>, new_quality: u32, state: LinkState) -> (r: LinkStep)
    ensures
        match r {
            LinkStep::NoRelativePath => relative is None,
            LinkStep::Decided { target, decision } => relative == Some(target) && decision
                == link_decision_of(new_quality, state),
        },
{
    match relative {
        None => LinkStep::NoRelativePath,
        Some(target) => LinkStep::Decided { target, decision: decide_link(new_quality, state) },
    }
}

/// Computes the relative path from the link's directory to the file and
/// decides what happens at the link's place.
pub fn plan_link(source_absolute: &str, link_dir: &str, new_quality: u32, state: LinkState) -> (r:
    LinkStep)
    ensures
        match r {
            LinkStep::NoRelativePath => diff_paths_of(source_absolute@, link_dir@) is None,
            LinkStep::Decided { target, decision } => diff_paths_of(source_absolute@, link_dir@)
                == Some(target@) && decision == link_decision_of(new_quality, state),
        },
{
    link_step(relative_link_target(source_absolute, link_dir), new_quality, state)
}

/// Decides what becomes of a duplicate, given whether it already is a link
/// that resolves to the best copy.
pub fn decide_duplicate(already_linked: bool) -> (r: DuplicateDecision)
    ensures
        r == if already_linked {
            DuplicateDecision::AlreadyLinked
        } else {
            DuplicateDecision::ReplaceWithLink
        },
{
    if already_linked {
        DuplicateDecision::AlreadyLinked
    } else {
        DuplicateDecision::ReplaceWithLink
    }
}

/// Checks that a cross-library run has the libraries it needs.
pub fn check_library_count(count: usize) -> (r: Result<(), SetupError>)
    ensures
        r is Ok <==> count >= 2,
        r is Err ==> r == Err::<(), SetupError>(SetupError::TooFewLibraries),
{
    if count < 2 {
        Err(SetupError::TooFewLibraries)
    } else {
        Ok(())
    }
}

/// Checks the input directories of a run before any file is touched:
/// `exists` says of each whether it is there, `at_least` how many the mode
/// needs.
pub fn check_setup(exists: &Vec<bool>, at_least: usize) -> (r: Result<(), SetupError>)
    ensures
        r == setup_of(exists@, at_least),
{
    if exists.len() < at_least {
        return Err(SetupError::TooFewLibraries);
    }
    let mut missing: Option<usize> = None;
    let mut i: usize = 0;
    while i < exists.len()
        invariant
            i <= exists.len(),
            match missing {
                Some(m) => m < i && first_missing(exists@.take(i as int)) == Some(m as int),
                None => first_missing(exists@.take(i as int)) is None,
            },
        decreases exists.len() - i,
    {
        assert(exists@.take(i + 1).drop_last() =~= exists@.take(i as int));
        if missing.is_none() && !exists[i] {
            missing = Some(i);
        }
        i += 1;
    }
    assert(exists@.take(exists.len() as int) =~= exists@);
    match missing {
        Some(m) => Err(SetupError::MissingInput { index: m }),
        None => Ok(()),
    }
}

/// A second linking run against what the first left behind writes no link:
/// what was created or replaced is found correct, and what was skipped is
/// skipped again for the same reason.
pub proof fn lemma_second_link_run_writes_nothing(n: u32, state: LinkState)
    ensures
        !writes_link(link_decision_of(n, link_state_after(n, state))),
        writes_link(link_decision_of(n, state)) ==> link_decision_of(n, link_state_after(n, state))
            == LinkDecision::AlreadyCorrect,
        !writes_link(link_decision_of(n, state)) ==> link_decision_of(
            n,
            link_state_after(n, state),
        ) == link_decision_of(n, state),
{
}

/// What is no symbolic link is never overwritten.
pub proof fn lemma_non_link_is_kept(n: u32)
    ensures
        !writes_link(link_decision_of(n, LinkState::NotSymlink)),
        link_state_after(n, LinkState::NotSymlink) == LinkState::NotSymlink,
{
}

} // verus!
