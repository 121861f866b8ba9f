//! The consolidation engine: one winner per grouping key among the files
//! scanned, and for each winner a decision against what the destination
//! already holds.
//!
//! The engine decides; it touches no file. A caller scans, asks for the
//! plan, carries out each action and records how it went.

use crate::config::Config;
use crate::index::{best_at, best_entry, best_quality, lemma_push_raises, ConflictIndex,
    IndexEntry};
use crate::metadata::AudioMetadata;
use crate::naming::{song_id_for, song_id_of};
use crate::quality::{calculate_quality_score, score_of};
use crate::operations::{action_for, action_of, decide, decision_of, is_skip, reason_of,
    skip_reason, Decision, FileAction};
use vstd::prelude::*;

verus! {

/// One scanned file: where it is, the key of the track it holds, its
/// quality score and, where it could be read, its modification time.
#[derive(Debug, Clone)]
pub struct Candidate {
    pub path: String,
    pub key: String,
    pub quality: u32,
    pub mtime: Option<i64>,
}

/// One file as the scan found it: where it is, its metadata and, where it
/// could be read, its modification time.
#[derive(Debug, Clone)]
pub struct ScannedFile {
    pub path: String,
    pub metadata: AudioMetadata,
    pub mtime: Option<i64>,
}

/// How files of equal quality are ranked.
#[derive(Debug, Clone, Copy, PartialEq, Eq, Structural)]
pub enum TieBreak {
    /// The file scanned first wins.
    FirstSeen,
    /// The file modified earlier wins, as the more likely first copy: a
    /// policy choice, not a fact about the files. A file whose modification time
    /// is unknown counts as older than any other; of files equal in this
    /// too, the one scanned last wins.
    OldestModified,
}

/// A modification time as a rank: lower is older, unknown is oldest.
pub open spec fn age_rank(mtime: Option<i64>) -> int {
    match mtime {
        None => i64::MIN - 1,
        Some(t) => t as int,
    }
}

/// Candidate `a` at position `ia` is preferred to `b` at position `ib`.
pub open spec fn beats(a: Candidate, ia: int, b: Candidate, ib: int, policy: TieBreak) -> bool {
    if a.quality != b.quality {
        a.quality > b.quality
    } else {
        match policy {
            TieBreak::FirstSeen => ia < ib,
            TieBreak::OldestModified => if age_rank(a.mtime) != age_rank(b.mtime) {
                age_rank(a.mtime) < age_rank(b.mtime)
            } else {
                ia > ib
            },
        }
    }
}

/// The candidate at `w` is preferred to every other candidate with its key.
pub open spec fn is_winner(cands: Seq<Candidate>, w: int, policy: TieBreak) -> bool {
    &&& 0 <= w < cands.len()
    &&& forall|j: int|
        #![trigger cands[j]]
        0 <= j < cands.len() && j != w && cands[j].key@ == cands[w].key@ ==> beats(
            cands[w],
            w,
            cands[j],
            j,
            policy,
        )
}

/// The entry that stands for a candidate once it is at the destination.
pub open spec fn entry_of(c: Candidate) -> IndexEntry {
    IndexEntry { key: c.key, path: c.path, quality: c.quality }
}

/// The destination after a run: the entries found before it, and one more
/// for each file that was added or upgraded. Every decision of a run is
/// taken against the entries found before it.
pub open spec fn entries_after(entries: Seq<IndexEntry>, files: Seq<Candidate>) -> Seq<IndexEntry>
    decreases files.len(),
{
    if files.len() == 0 {
        entries
    } else {
        let earlier = entries_after(entries, files.drop_last());
        let f = files.last();
        if is_skip(decision_of(f.quality, best_quality(entries, f.key@))) {
            earlier
        } else {
            earlier.push(entry_of(f))
        }
    }
}

fn older(a: Option<i64>, b: Option<i64>) -> (r: bool)
    ensures
        r == (age_rank(a) < age_rank(b)),
{
    match (a, b) {
        (None, None) => false,
        (None, Some(_)) => true,
        (Some(_), None) => false,
        (Some(x), Some(y)) => x < y,
    }
}

/// Whether the candidate `a`, scanned as number `ia`, is preferred to `b`,
/// scanned as number `ib`.
pub fn prefers(a: &Candidate, ia: usize, b: &Candidate, ib: usize, policy: TieBreak) -> (r: bool)
    ensures
        r == beats(*a, ia as int, *b, ib as int, policy),
{
    if a.quality != b.quality {
        a.quality > b.quality
    } else {
        match policy {
            TieBreak::FirstSeen => ia < ib,
            TieBreak::OldestModified => {
                if older(a.mtime, b.mtime) {
                    true
                } else if older(b.mtime, a.mtime) {
                    false
                } else {
                    ia > ib
                }
            },
        }
    }
}

/// The winner among the candidates that share the key of candidate `i`.
pub fn winner_of(cands: &Vec<Candidate>, i: usize, policy: TieBreak) -> (w: usize)
    requires
        i < cands.len(),
    ensures
        is_winner(cands@, w as int, policy),
        cands@[w as int].key@ == cands@[i as int].key@,
{
    let mut best: usize = i;
    let mut j: usize = 0;
    while j < cands.len()
        invariant
            j <= cands.len(),
            i < cands.len(),
            best < cands.len(),
            cands@[best as int].key@ == cands@[i as int].key@,
            forall|k: int|
                #![trigger cands@[k]]
                0 <= k < j && k != best && cands@[k].key@ == cands@[i as int].key@ ==> beats(
                    cands@[best as int],
                    best as int,
                    cands@[k],
                    k,
                    policy,
                ),
        decreases cands.len() - j,
    {
        if j != best && cands[j].key == cands[i].key && prefers(
            &cands[j],
            j,
            &cands[best],
            best,
            policy,
        ) {
            best = j;
        }
        j += 1;
    }
    best
}

/// Some file with the key of the file at `k` is a winner.
pub open spec fn has_winner(cands: Seq<Candidate>, k: int, policy: TieBreak) -> bool {
    exists|w: int| #[trigger] is_winner(cands, w, policy) && cands[w].key@ == cands[k].key@
}

/// The positions of the winners, in scan order: exactly one for each key
/// that occurs.
pub fn winners(cands: &Vec<Candidate>, policy: TieBreak) -> (r: Vec<usize>)
    ensures
        forall|t: int| 0 <= t < r@.len() ==> is_winner(cands@, #[trigger] r@[t] as int, policy),
        forall|i: int|
            0 <= i < cands@.len() && is_winner(cands@, i, policy) ==> exists|t: int|
                0 <= t < r@.len() && #[trigger] r@[t] == i,
        forall|s: int, t: int| 0 <= s < t < r@.len() ==> r@[s] < r@[t],
        forall|s: int, t: int|
            0 <= s < t < r@.len() ==> cands@[r@[s] as int].key@ != cands@[r@[t] as int].key@,
        forall|k: int| 0 <= k < cands@.len() ==> has_winner(cands@, k, policy),
{
    let mut out: Vec<usize> = Vec::new();
    let mut i: usize = 0;
    while i < cands.len()
        invariant
            i <= cands.len(),
            forall|t: int|
                0 <= t < out@.len() ==> #[trigger] out@[t] < i && is_winner(
                    cands@,
                    out@[t] as int,
                    policy,
                ),
            forall|k: int|
                0 <= k < i && is_winner(cands@, k, policy) ==> exists|t: int|
                    0 <= t < out@.len() && #[trigger] out@[t] == k,
            forall|s: int, t: int| 0 <= s < t < out@.len() ==> out@[s] < out@[t],
            forall|k: int| 0 <= k < i ==> has_winner(cands@, k, policy),
        decreases cands.len() - i,
    {
        let w: usize = winner_of(cands, i, policy);
        assert(has_winner(cands@, i as int, policy)) by {
            assert(is_winner(cands@, w as int, policy));
        }
        if w == i {
            let ghost before = out@;
            out.push(i);
            proof {
                assert(out@[before.len() as int] == i);
                assert forall|k: int| 0 <= k < i + 1 && is_winner(cands@, k, policy) implies exists|
                    t: int,
                |
                    0 <= t < out@.len() && #[trigger] out@[t] == k by {
                    if k < i {
                        let t = choose|t: int| 0 <= t < before.len() && #[trigger] before[t] == k;
                        assert(out@[t] == k);
                    } else {
                        assert(out@[before.len() as int] == k);
                    }
                }
            }
        } else {
            proof {
                lemma_one_winner(cands@, w as int, i as int, policy);
            }
        }
        i += 1;
    }
    proof {
        assert forall|s: int, t: int| 0 <= s < t < out@.len() implies cands@[out@[s] as int].key@
            != cands@[out@[t] as int].key@ by {
            if cands@[out@[s] as int].key@ == cands@[out@[t] as int].key@ {
                lemma_one_winner(cands@, out@[s] as int, out@[t] as int, policy);
            }
        }
    }
    out
}

/// For each file that is not the winner of its key, its position and the
/// position of the winner that stands for it, in scan order.
pub fn losers(cands: &Vec<Candidate>, policy: TieBreak) -> (r: Vec<(usize, usize)>)
    ensures
        forall|t: int|
            #![trigger r@[t]]
            0 <= t < r@.len() ==> {
                &&& r@[t].0 < cands@.len()
                &&& !is_winner(cands@, r@[t].0 as int, policy)
                &&& is_winner(cands@, r@[t].1 as int, policy)
                &&& cands@[r@[t].1 as int].key@ == cands@[r@[t].0 as int].key@
            },
        forall|i: int|
            0 <= i < cands@.len() && !is_winner(cands@, i, policy) ==> exists|t: int|
                0 <= t < r@.len() && #[trigger] r@[t].0 == i,
        forall|s: int, t: int| 0 <= s < t < r@.len() ==> r@[s].0 < r@[t].0,
{
    let mut out: Vec<(usize, usize)> = Vec::new();
    let mut i: usize = 0;
    while i < cands.len()
        invariant
            i <= cands.len(),
            forall|t: int|
                #![trigger out@[t]]
                0 <= t < out@.len() ==> {
                    &&& out@[t].0 < i
                    &&& !is_winner(cands@, out@[t].0 as int, policy)
                    &&& is_winner(cands@, out@[t].1 as int, policy)
                    &&& cands@[out@[t].1 as int].key@ == cands@[out@[t].0 as int].key@
                },
            forall|k: int|
                0 <= k < i && !is_winner(cands@, k, policy) ==> exists|t: int|
                    0 <= t < out@.len() && #[trigger] out@[t].0 == k,
            forall|s: int, t: int| 0 <= s < t < out@.len() ==> out@[s].0 < out@[t].0,
        decreases cands.len() - i,
    {
        let w: usize = winner_of(cands, i, policy);
        if w != i {
            let ghost before = out@;
            proof {
                lemma_one_winner(cands@, w as int, i as int, policy);
            }
            out.push((i, w));
            proof {
                assert(out@[before.len() as int] == (i, w));
                assert forall|k: int|
                    0 <= k < i + 1 && !is_winner(cands@, k, policy) implies exists|t: int|
                    0 <= t < out@.len() && #[trigger] out@[t].0 == k by {
                    if k < i {
                        let t = choose|t: int|
                            0 <= t < before.len() && #[trigger] before[t].0 == k;
                        assert(out@[t].0 == k);
                    } else {
                        assert(out@[before.len() as int].0 == k);
                    }
                }
            }
        }
        i += 1;
    }
    out
}

/// The candidate that stands for a scanned file when files are grouped by
/// track: its key is the grouping key of its metadata, its quality the
/// score of its codec and bitrate.
pub open spec fn candidate_of(file: ScannedFile, config: Config) -> (
    Seq<char>,
    Seq<char>,
    nat,
    Option<i64>,
) {
    (
        file.path@,
        song_id_of(
            file.metadata.organizing_artist(config.naming.prefer_artist),
            file.metadata.album_name(),
            file.metadata.title_name(),
        ),
        score_of(file.metadata.codec@, file.metadata.bitrate, config.quality),
        file.mtime,
    )
}

/// A candidate as its path, key, quality and modification time.
pub open spec fn candidate_view(c: Candidate) -> (Seq<char>, Seq<char>, nat, Option<i64>) {
    (c.path@, c.key@, c.quality as nat, c.mtime)
}

/// Scores the scanned files and keys them by track.
pub fn candidates_by_track(files: &Vec<ScannedFile>, config: &Config) -> (r: Vec<Candidate>)
    ensures
        r@.len() == files@.len(),
        forall|i: int|
            0 <= i < files@.len() ==> candidate_view(#[trigger] r@[i]) == candidate_of(
                files@[i],
                *config,
            ),
{
    let mut out: Vec<Candidate> = Vec::new();
    let mut i: usize = 0;
    while i < files.len()
        invariant
            i <= files.len(),
            out@.len() == i,
            forall|k: int|
                0 <= k < i ==> candidate_view(#[trigger] out@[k]) == candidate_of(
                    files@[k],
                    *config,
                ),
        decreases files.len() - i,
    {
        let file = &files[i];
        out.push(
            Candidate {
                path: file.path.clone(),
                key: song_id_for(&file.metadata, config.naming.prefer_artist),
                quality: calculate_quality_score(&file.metadata, config),
                mtime: file.mtime,
            },
        );
        i += 1;
    }
    out
}

/// The entries that stand for the files found at a destination.
pub open spec fn entries_of(files: Seq<Candidate>) -> Seq<IndexEntry> {
    Seq::new(files.len(), |i: int| entry_of(files[i]))
}

/// The conflict index of the files found at a destination: for every key
/// the path and quality of the best of the files with that key.
pub fn build_index(files: &Vec<Candidate>) -> (r: ConflictIndex)
    ensures
        r.wf(),
        r.entries@.len() <= files@.len(),
        forall|k: Seq<char>|
            #![trigger best_entry(r.entries@, k)]
            best_entry(r.entries@, k) == best_entry(entries_of(files@), k),
        forall|k: Seq<char>|
            #![trigger best_quality(r.entries@, k)]
            best_quality(r.entries@, k) == best_quality(entries_of(files@), k),
{
    let mut index = ConflictIndex::new();
    let mut i: usize = 0;
    while i < files.len()
        invariant
            i <= files.len(),
            index.wf(),
            index.entries@.len() <= i,
            forall|k: Seq<char>|
                #![trigger best_entry(index.entries@, k)]
                best_entry(index.entries@, k) == best_entry(entries_of(files@.take(i as int)), k),
        decreases files.len() - i,
    {
        let ghost before = index.entries@;
        let ghost e = entry_of(files@[i as int]);
        index.insert(files[i].key.clone(), files[i].path.clone(), files[i].quality);
        proof {
            let seen = entries_of(files@.take(i as int));
            assert(entries_of(files@.take(i + 1)) =~= seen.push(e));
            assert forall|k: Seq<char>|
                #![trigger best_entry(index.entries@, k)]
                best_entry(index.entries@, k) == best_entry(entries_of(files@.take(i + 1)), k) by {
                assert(best_entry(before, k) == best_entry(seen, k));
                crate::index::lemma_push_entry(before, e, k);
                crate::index::lemma_push_entry(seen, e, k);
            }
        }
        i += 1;
    }
    assert(files@.take(files.len() as int) =~= files@);
    assert forall|k: Seq<char>|
        #![trigger best_quality(index.entries@, k)]
        best_quality(index.entries@, k) == best_quality(entries_of(files@), k) by {
        assert(best_entry(index.entries@, k) == best_entry(entries_of(files@), k));
    }
    index
}

/// The decision for each file against the destination's index, in the order
/// of the files. The index is read, never changed: every decision is taken
/// against the same destination state.
pub fn plan_merge(files: &Vec<Candidate>, index: &ConflictIndex) -> (r: Vec<Decision>)
    ensures
        r@.len() == files@.len(),
        forall|i: int|
            0 <= i < files@.len() ==> #[trigger] r@[i] == decision_of(
                files@[i].quality,
                best_quality(index.entries@, files@[i].key@),
            ),
{
    let mut out: Vec<Decision> = Vec::new();
    let mut i: usize = 0;
    while i < files.len()
        invariant
            i <= files.len(),
            out@.len() == i,
            forall|k: int|
                0 <= k < i ==> #[trigger] out@[k] == decision_of(
                    files@[k].quality,
                    best_quality(index.entries@, files@[k].key@),
                ),
        decreases files.len() - i,
    {
        let existing: Option<u32> = match index.find(files[i].key.as_str()) {
            Some(found) => Some(found.1),
            None => None,
        };
        out.push(decide(files[i].quality, existing));
        i += 1;
    }
    out
}

/// What a run does with one file.
#[derive(Debug, Clone)]
pub struct Step {
    pub decision: Decision,
    /// The filesystem action to carry out; none for a skip, and none in a
    /// dry run, where a log line takes its place.
    pub action: FileAction,
    /// The reason to record where the file is skipped.
    pub reason: Option<String>,
    /// The existing file that an upgrade replaces.
    pub replaces: Option<String>,
}

/// The path of the file that a decision replaces: for an upgrade the best
/// file recorded under the key.
pub open spec fn replaced_of(d: Decision, entries: Seq<IndexEntry>, key: Seq<char>) -> Option<
    Seq<char>,
> {
    if d is Upgrade && best_at(entries, key) is Some {
        Some(entries[best_at(entries, key)->0].path@)
    } else {
        None
    }
}

/// The step for one file of a run.
pub open spec fn step_of(
    file: Candidate,
    entries: Seq<IndexEntry>,
    do_move: bool,
    dry_run: bool,
) -> (Decision, FileAction, Option<Seq<char>>, Option<Seq<char>>) {
    let d = decision_of(file.quality, best_quality(entries, file.key@));
    (
        d,
        if dry_run {
            FileAction::Nothing
        } else {
            action_of(d, do_move)
        },
        reason_of(file.quality, d),
        replaced_of(d, entries, file.key@),
    )
}

/// A step as its decision, its action, the text of its reason and the path
/// that it replaces.
pub open spec fn step_view(s: Step) -> (
    Decision,
    FileAction,
    Option<Seq<char>>,
    Option<Seq<char>>,
) {
    (
        s.decision,
        s.action,
        match s.reason {
            Some(r) => Some(r@),
            None => None,
        },
        match s.replaces {
            Some(p) => Some(p@),
            None => None,
        },
    )
}

/// The steps of a merge run: for each file its decision against the
/// destination's index, the action that carries it out and the reason
/// where it is skipped. A dry run decides exactly as a real run does and
/// carries nothing out.
pub fn plan_run(files: &Vec<Candidate>, index: &ConflictIndex, do_move: bool, dry_run: bool) -> (r:
    Vec<Step>)
    ensures
        r@.len() == files@.len(),
        forall|i: int|
            0 <= i < files@.len() ==> step_view(#[trigger] r@[i]) == step_of(
                files@[i],
                index.entries@,
                do_move,
                dry_run,
            ),
{
    let decisions = plan_merge(files, index);
    let mut out: Vec<Step> = Vec::new();
    let mut i: usize = 0;
    while i < files.len()
        invariant
            i <= files.len(),
            out@.len() == i,
            decisions@.len() == files@.len(),
            forall|k: int|
                0 <= k < files@.len() ==> #[trigger] decisions@[k] == decision_of(
                    files@[k].quality,
                    best_quality(index.entries@, files@[k].key@),
                ),
            forall|k: int|
                0 <= k < i ==> step_view(#[trigger] out@[k]) == step_of(
                    files@[k],
                    index.entries@,
                    do_move,
                    dry_run,
                ),
        decreases files.len() - i,
    {
        let decision = decisions[i];
        let action = if dry_run {
            FileAction::Nothing
        } else {
            action_for(decision, do_move)
        };
        let reason = skip_reason(files[i].quality, decision);
        let replaces: Option<String> = match decision {
            Decision::Upgrade { .. } => match index.find(files[i].key.as_str()) {
                Some(found) => Some(found.0),
                None => None,
            },
            _ => None,
        };
        out.push(Step { decision, action, reason, replaces });
        i += 1;
    }
    out
}

/// A dry run takes the decisions of a real run, with the same reasons, and
/// carries out none of them.
pub proof fn lemma_dry_run_decides_alike(
    file: Candidate,
    entries: Seq<IndexEntry>,
    do_move: bool,
)
    ensures
        step_of(file, entries, do_move, true).0 == step_of(file, entries, do_move, false).0,
        step_of(file, entries, do_move, true).2 == step_of(file, entries, do_move, false).2,
        step_of(file, entries, do_move, true).3 == step_of(file, entries, do_move, false).3,
        step_of(file, entries, do_move, true).1 == FileAction::Nothing,
{
}

/// Where no two files share a key, every file is the winner of its key:
/// once the losers of a run are gone, a second run finds none.
pub proof fn lemma_distinct_keys_all_win(cands: Seq<Candidate>, policy: TieBreak, i: int)
    requires
        0 <= i < cands.len(),
        forall|a: int, b: int|
            0 <= a < cands.len() && 0 <= b < cands.len() && a != b ==> (#[trigger] cands[a]).key@
                != (#[trigger] cands[b]).key@,
    ensures
        is_winner(cands, i, policy),
{
}

/// A file that scores strictly higher than every other file of its key is
/// the winner, under either policy and in any scan order.
pub proof fn lemma_strictly_best_wins(cands: Seq<Candidate>, w: int, policy: TieBreak)
    requires
        0 <= w < cands.len(),
        forall|j: int|
            #![trigger cands[j]]
            0 <= j < cands.len() && j != w && cands[j].key@ == cands[w].key@ ==> cands[j].quality
                < cands[w].quality,
    ensures
        is_winner(cands, w, policy),
        forall|j: int|
            #![trigger cands[j]]
            0 <= j < cands.len() && j != w && cands[j].key@ == cands[w].key@ ==> !is_winner(
                cands,
                j,
                policy,
            ),
{
    assert forall|j: int|
        #![trigger cands[j]]
        0 <= j < cands.len() && j != w && cands[j].key@ == cands[w].key@ implies !is_winner(
        cands,
        j,
        policy,
    ) by {
        lemma_one_winner(cands, w, j, policy);
    }
}

/// Of the copies of one track in one codec at 128, 192 and 320 kbps, scored
/// with the default configuration, the 320 kbps copy is the winner and no
/// other copy is, whatever the codec, the policy and the scan order.
pub proof fn lemma_highest_bitrate_wins(
    cands: Seq<Candidate>,
    w: int,
    codec: Seq<char>,
    policy: TieBreak,
)
    requires
        0 <= w < cands.len(),
        cands[w].quality == score_of(codec, Some(320_000u32), crate::config::default_quality()),
        forall|j: int|
            #![trigger cands[j]]
            0 <= j < cands.len() && j != w && cands[j].key@ == cands[w].key@ ==> cands[j].quality
                == score_of(codec, Some(128_000u32), crate::config::default_quality())
                || cands[j].quality == score_of(
                codec,
                Some(192_000u32),
                crate::config::default_quality(),
            ),
    ensures
        is_winner(cands, w, policy),
        forall|j: int|
            #![trigger cands[j]]
            0 <= j < cands.len() && j != w && cands[j].key@ == cands[w].key@ ==> !is_winner(
                cands,
                j,
                policy,
            ),
{
    crate::quality::lemma_three_bitrates_rank(codec);
    lemma_strictly_best_wins(cands, w, policy);
}

/// Two winners with the same key are the same file: each key has at most
/// one winner.
pub proof fn lemma_one_winner(cands: Seq<Candidate>, w1: int, w2: int, policy: TieBreak)
    requires
        is_winner(cands, w1, policy),
        0 <= w2 < cands.len(),
        cands[w1].key@ == cands[w2].key@,
        w1 != w2,
    ensures
        !is_winner(cands, w2, policy),
{
    assert(beats(cands[w1], w1, cands[w2], w2, policy));
    if is_winner(cands, w2, policy) {
        assert(cands[w1].key@ == cands[w2].key@);
        assert(beats(cands[w2], w2, cands[w1], w1, policy));
    }
}

/// No file with the winner's key has a higher quality than the winner, and
/// under the oldest-modified policy none of equal quality is older.
pub proof fn lemma_winner_is_best(cands: Seq<Candidate>, w: int, j: int, policy: TieBreak)
    requires
        is_winner(cands, w, policy),
        0 <= j < cands.len(),
        cands[j].key@ == cands[w].key@,
    ensures
        cands[j].quality <= cands[w].quality,
        policy == TieBreak::OldestModified && cands[j].quality == cands[w].quality ==> age_rank(
            cands[w].mtime,
        ) <= age_rank(cands[j].mtime),
{
    if j != w {
        assert(beats(cands[w], w, cands[j], j, policy));
    }
}

/// Scanning the same files in another order changes neither the quality
/// nor, under the oldest-modified policy, the age of the file that is kept
/// for a key.
pub proof fn lemma_winner_is_order_free(
    first: Seq<Candidate>,
    w1: int,
    second: Seq<Candidate>,
    w2: int,
    policy: TieBreak,
)
    requires
        is_winner(first, w1, policy),
        is_winner(second, w2, policy),
        first[w1].key@ == second[w2].key@,
        exists|j: int| 0 <= j < second.len() && #[trigger] second[j] == first[w1],
        exists|j: int| 0 <= j < first.len() && #[trigger] first[j] == second[w2],
    ensures
        first[w1].quality == second[w2].quality,
        policy == TieBreak::OldestModified ==> age_rank(first[w1].mtime) == age_rank(
            second[w2].mtime,
        ),
{
    let j2 = choose|j: int| 0 <= j < second.len() && #[trigger] second[j] == first[w1];
    let j1 = choose|j: int| 0 <= j < first.len() && #[trigger] first[j] == second[w2];
    lemma_winner_is_best(second, w2, j2, policy);
    lemma_winner_is_best(first, w1, j1, policy);
}

/// Of two files of one track with equal quality and different modification
/// times, the one modified earlier is kept, whichever was scanned first.
pub proof fn lemma_older_wins_in_any_order(a: Candidate, b: Candidate)
    requires
        a.key@ == b.key@,
        a.quality == b.quality,
        age_rank(a.mtime) < age_rank(b.mtime),
    ensures
        is_winner(seq![a, b], 0, TieBreak::OldestModified),
        !is_winner(seq![a, b], 1, TieBreak::OldestModified),
        is_winner(seq![b, a], 1, TieBreak::OldestModified),
        !is_winner(seq![b, a], 0, TieBreak::OldestModified),
{
    let ab = seq![a, b];
    let ba = seq![b, a];
    assert(ab[0] == a && ab[1] == b);
    assert(ba[0] == b && ba[1] == a);
    assert(!beats(ab[1], 1, ab[0], 0, TieBreak::OldestModified));
    assert(!beats(ba[0], 0, ba[1], 1, TieBreak::OldestModified));
}

/// After a run, the destination holds for every file of the run an entry
/// that is at least as good.
pub proof fn lemma_entries_after_cover(entries: Seq<IndexEntry>, files: Seq<Candidate>, i: int)
    requires
        0 <= i < files.len(),
    ensures
        best_quality(entries_after(entries, files), files[i].key@) is Some,
        best_quality(entries_after(entries, files), files[i].key@)->0 >= files[i].quality,
    decreases files.len(),
{
    let init = files.drop_last();
    let earlier = entries_after(entries, init);
    let f = files.last();
    let key = files[i].key@;
    if i == files.len() - 1 {
        if is_skip(decision_of(f.quality, best_quality(entries, f.key@))) {
            lemma_entries_after_keep(entries, init, key);
        } else {
            lemma_push_raises(earlier, entry_of(f), key);
        }
    } else {
        assert(init[i] == files[i]);
        lemma_entries_after_cover(entries, init, i);
        if !is_skip(decision_of(f.quality, best_quality(entries, f.key@))) {
            lemma_push_raises(earlier, entry_of(f), key);
        }
    }
}

/// A run never lowers the best quality that the destination holds for a
/// key.
pub proof fn lemma_entries_after_keep(
    entries: Seq<IndexEntry>,
    files: Seq<Candidate>,
    key: Seq<char>,
)
    ensures
        best_quality(entries, key) is Some ==> best_quality(entries_after(entries, files), key)
            is Some && best_quality(entries_after(entries, files), key)->0 >= best_quality(
            entries,
            key,
        )->0,
    decreases files.len(),
{
    if files.len() > 0 {
        let init = files.drop_last();
        lemma_entries_after_keep(entries, init, key);
        lemma_push_raises(entries_after(entries, init), entry_of(files.last()), key);
    }
}

/// Running a merge a second time, against the destination that the first
/// run left, adds and upgrades nothing: every decision is a skip.
pub proof fn lemma_second_merge_only_skips(
    entries: Seq<IndexEntry>,
    files: Seq<Candidate>,
    i: int,
)
    requires
        0 <= i < files.len(),
    ensures
        is_skip(
            decision_of(
                files[i].quality,
                best_quality(entries_after(entries, files), files[i].key@),
            ),
        ),
{
    lemma_entries_after_cover(entries, files, i);
}

} // verus!
