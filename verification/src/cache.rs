//! The rules of the metadata cache: when a stored entry answers a lookup,
//! and which entries a maintenance pass removes.
//!
//! An entry belongs to a canonical path and carries the modification time
//! and size that the file had when its metadata was extracted. It is valid
//! only while the file still has both. The store itself is the caller's; it
//! hands rows in and carries the verdicts out.

use crate::text::{chars_of, decimal_of, push_all, push_decimal, string_of};
use vstd::prelude::*;

verus! {

/// Modification time in seconds since the epoch, and size in bytes, of a
/// file on disk.
#[derive(Debug, Clone, Copy, PartialEq, Eq, Structural)]
pub struct FileStamp {
    pub mtime: i64,
    pub size: i64,
}

/// One row of the cache.
#[derive(Debug, Clone)]
pub struct CacheEntry {
    /// Canonical absolute path: the key.
    pub path: String,
    pub mtime: i64,
    pub size: i64,
    /// The serialised metadata record.
    pub metadata_json: String,
    /// When the row was written, in seconds since the epoch.
    pub cached_at: i64,
}

/// The key columns of a row as a maintenance pass reads them, with what
/// is found on disk for the row's file: its stamp now, or `None` where the
/// file is gone.
#[derive(Debug, Clone)]
pub struct CheckedRow {
    pub path: String,
    pub mtime: i64,
    pub size: i64,
    pub current: Option<FileStamp>,
}

/// How a row relates to the file it describes.
#[derive(Debug, Clone, Copy, PartialEq, Eq, Structural)]
pub enum EntryState {
    /// The file is there with the stored modification time and size.
    Valid,
    /// The file is gone.
    Missing,
    /// The file's modification time or size differs.
    Changed,
}

/// Size of the cache.
#[derive(Debug, Clone, Copy, PartialEq, Eq)]
pub struct CacheStats {
    pub total_entries: usize,
    pub db_size_bytes: u64,
}

/// What a maintenance pass did.
#[derive(Debug, Clone, Copy, PartialEq, Eq)]
pub struct CacheCleanupStats {
    pub total_entries: usize,
    pub removed_missing: usize,
    pub removed_changed: usize,
}

/// How warming the cache went for one file.
#[derive(Debug, Clone, Copy, PartialEq, Eq, Structural)]
pub enum WarmupOutcome {
    /// The cache answered already.
    AlreadyCached,
    /// Metadata was extracted and stored.
    NewlyCached,
    /// Extracting or storing failed.
    Failed,
}

/// Counters of a warm-up.
#[derive(Debug, Clone, Copy, PartialEq, Eq)]
pub struct WarmupStats {
    pub already_cached: usize,
    pub newly_cached: usize,
    pub errors: usize,
}

/// What a lookup comes to once its payload has been parsed.
#[derive(Debug, Clone, Copy, PartialEq, Eq, Structural)]
pub enum PayloadVerdict {
    /// The payload parsed: the lookup is a hit.
    Hit,
    /// The payload did not parse: the lookup is a miss, and the row is
    /// deleted so that it is written afresh.
    MissAndDelete,
}

/// What a maintenance pass is to do.
#[derive(Debug, Clone)]
pub struct CleanupPlan {
    /// The keys of the rows to delete, in the order of the rows.
    pub to_delete: Vec<String>,
    pub stats: CacheCleanupStats,
}

/// The state of a row with this stamp, given the file's current stamp.
pub open spec fn state_of(mtime: i64, size: i64, current: Option<FileStamp>) -> EntryState {
    match current {
        None => EntryState::Missing,
        Some(now) => if now.mtime == mtime && now.size == size {
            EntryState::Valid
        } else {
            EntryState::Changed
        },
    }
}

/// What a lookup returns: the stored payload, if the file exists and the
/// row is valid for it.
pub open spec fn lookup_of(current: Option<FileStamp>, row: Option<CacheEntry>) -> Option<
    Seq<char>,
> {
    match row {
        Some(entry) => if state_of(entry.mtime, entry.size, current) == EntryState::Valid {
            Some(entry.metadata_json@)
        } else {
            None
        },
        None => None,
    }
}

/// The state of a row as a maintenance pass found it.
pub open spec fn row_state(row: CheckedRow) -> EntryState {
    state_of(row.mtime, row.size, row.current)
}

/// The keys of the rows that are not valid, in order.
pub open spec fn stale_paths_of(rows: Seq<CheckedRow>) -> Seq<Seq<char>>
    decreases rows.len(),
{
    if rows.len() == 0 {
        Seq::empty()
    } else {
        let earlier = stale_paths_of(rows.drop_last());
        if row_state(rows.last()) == EntryState::Valid {
            earlier
        } else {
            earlier.push(rows.last().path@)
        }
    }
}

/// How many of the rows are in the given state.
pub open spec fn count_in_state(rows: Seq<CheckedRow>, state: EntryState) -> nat
    decreases rows.len(),
{
    if rows.len() == 0 {
        0
    } else {
        count_in_state(rows.drop_last(), state) + if row_state(rows.last()) == state {
            1nat
        } else {
            0nat
        }
    }
}

/// The report of a maintenance pass.
pub open spec fn cleanup_message_of(stats: CacheCleanupStats) -> Seq<char> {
    "Cache cleanup complete. Checked "@ + decimal_of(stats.total_entries as nat) + " entries: "@
        + decimal_of(stats.removed_missing as nat) + " removed (missing), "@ + decimal_of(
        stats.removed_changed as nat,
    ) + " removed (changed)."@
}

/// A size in bytes as hundredths of a mebibyte, rounded to the nearest,
/// halves to the even neighbour.
pub open spec fn hundredths_of_mib(bytes: nat) -> nat {
    let scaled = bytes * 100;
    let whole = scaled / 1048576;
    let rest = scaled % 1048576;
    if rest > 524288 || (rest == 524288 && whole % 2 == 1) {
        whole + 1
    } else {
        whole
    }
}

/// The report of the cache's size, in mebibytes with two decimals.
pub open spec fn stats_message_of(stats: CacheStats) -> Seq<char> {
    let h = hundredths_of_mib(stats.db_size_bytes as nat);
    "Cache contains "@ + decimal_of(stats.total_entries as nat) + " entries ("@ + decimal_of(
        h / 100,
    ) + "."@ + decimal_of((h % 100) / 10) + decimal_of(h % 10) + " MB)"@
}

/// The row written when metadata is cached for a file.
pub fn new_entry(path: String, stamp: FileStamp, metadata_json: String, now: i64) -> (r:
    CacheEntry)
    ensures
        r.path == path,
        r.mtime == stamp.mtime,
        r.size == stamp.size,
        r.metadata_json == metadata_json,
        r.cached_at == now,
{
    CacheEntry { path, mtime: stamp.mtime, size: stamp.size, metadata_json, cached_at: now }
}

/// Classifies a row against the file's current stamp; `None` stands for a
/// file that is gone.
pub fn classify_entry(mtime: i64, size: i64, current: Option<FileStamp>) -> (r: EntryState)
    ensures
        r == state_of(mtime, size, current),
{
    match current {
        None => EntryState::Missing,
        Some(now) => {
            if now.mtime == mtime && now.size == size {
                EntryState::Valid
            } else {
                EntryState::Changed
            }
        },
    }
}

/// Answers a lookup from the row stored under the file's canonical path and
/// the file's current stamp. A missing file, a missing row and a row for
/// another modification time or size are all misses.
pub fn get(current: Option<FileStamp>, row: Option<CacheEntry>) -> (r: Option<String>)
    ensures
        match r {
            Some(payload) => lookup_of(current, row) == Some(payload@),
            None => lookup_of(current, row) is None,
        },
{
    match row {
        Some(entry) => {
            match classify_entry(entry.mtime, entry.size, current) {
                EntryState::Valid => Some(entry.metadata_json),
                _ => None,
            }
        },
        None => None,
    }
}

/// Settles a lookup whose row matched: a payload that parses is a hit, one
/// that does not is a miss and costs the row.
pub fn settle_payload(parsed: bool) -> (r: PayloadVerdict)
    ensures
        r == if parsed {
            PayloadVerdict::Hit
        } else {
            PayloadVerdict::MissAndDelete
        },
{
    if parsed {
        PayloadVerdict::Hit
    } else {
        PayloadVerdict::MissAndDelete
    }
}

/// How warming the cache goes for one file: a file that the cache answers
/// for is left alone; any other counts as newly cached where its metadata
/// was extracted and stored, and as failed where either went wrong.
pub open spec fn warmup_outcome_of(cached: bool, extracted: bool, stored: bool) -> WarmupOutcome {
    if cached {
        WarmupOutcome::AlreadyCached
    } else if extracted && stored {
        WarmupOutcome::NewlyCached
    } else {
        WarmupOutcome::Failed
    }
}

/// Whether a warm-up has to extract the metadata of a file: only where the
/// cache does not answer for it.
pub fn warmup_extracts(cached: bool) -> (r: bool)
    ensures
        r == !cached,
{
    !cached
}

/// The outcome of warming the cache for one file.
pub fn warmup_outcome(cached: bool, extracted: bool, stored: bool) -> (r: WarmupOutcome)
    ensures
        r == warmup_outcome_of(cached, extracted, stored),
{
    if cached {
        WarmupOutcome::AlreadyCached
    } else if extracted && stored {
        WarmupOutcome::NewlyCached
    } else {
        WarmupOutcome::Failed
    }
}

impl WarmupStats {
    /// Counters at zero.
    pub fn new() -> (r: Self)
        ensures
            r.already_cached == 0,
            r.newly_cached == 0,
            r.errors == 0,
    {
        WarmupStats { already_cached: 0, newly_cached: 0, errors: 0 }
    }

    /// Counts one file.
    pub fn record(&mut self, outcome: WarmupOutcome)
        requires
            old(self).already_cached + old(self).newly_cached + old(self).errors < usize::MAX,
        ensures
            final(self).already_cached == old(self).already_cached + if outcome
                == WarmupOutcome::AlreadyCached {
                1int
            } else {
                0int
            },
            final(self).newly_cached == old(self).newly_cached + if outcome
                == WarmupOutcome::NewlyCached {
                1int
            } else {
                0int
            },
            final(self).errors == old(self).errors + if outcome == WarmupOutcome::Failed {
                1int
            } else {
                0int
            },
    {
        match outcome {
            WarmupOutcome::AlreadyCached => {
                self.already_cached += 1;
            },
            WarmupOutcome::NewlyCached => {
                self.newly_cached += 1;
            },
            WarmupOutcome::Failed => {
                self.errors += 1;
            },
        }
    }
}

/// Chooses the rows that a maintenance pass deletes: those whose file is
/// gone or has another modification time or size than the row.
pub fn plan_cleanup(rows: &Vec<CheckedRow>) -> (r: CleanupPlan)
    ensures
        r.to_delete@.len() == stale_paths_of(rows@).len(),
        forall|i: int|
            0 <= i < r.to_delete@.len() ==> #[trigger] r.to_delete@[i]@ == stale_paths_of(rows@)[i],
        r.stats.total_entries == rows.len(),
        r.stats.removed_missing == count_in_state(rows@, EntryState::Missing),
        r.stats.removed_changed == count_in_state(rows@, EntryState::Changed),
        r.stats.removed_missing + r.stats.removed_changed == r.to_delete@.len(),
{
    let mut to_delete: Vec<String> = Vec::new();
    let mut removed_missing: usize = 0;
    let mut removed_changed: usize = 0;
    let mut i: usize = 0;
    while i < rows.len()
        invariant
            i <= rows.len(),
            to_delete@.len() == stale_paths_of(rows@.take(i as int)).len(),
            forall|k: int|
                0 <= k < to_delete@.len() ==> #[trigger] to_delete@[k]@ == stale_paths_of(
                    rows@.take(i as int),
                )[k],
            removed_missing == count_in_state(rows@.take(i as int), EntryState::Missing),
            removed_changed == count_in_state(rows@.take(i as int), EntryState::Changed),
            removed_missing + removed_changed == to_delete@.len(),
            to_delete@.len() <= i,
        decreases rows.len() - i,
    {
        assert(rows@.take(i + 1).drop_last() =~= rows@.take(i as int));
        match classify_entry(rows[i].mtime, rows[i].size, rows[i].current) {
            EntryState::Valid => {},
            EntryState::Missing => {
                removed_missing += 1;
                to_delete.push(rows[i].path.clone());
            },
            EntryState::Changed => {
                removed_changed += 1;
                to_delete.push(rows[i].path.clone());
            },
        }
        i += 1;
    }
    assert(rows@.take(rows.len() as int) =~= rows@);
    CleanupPlan {
        to_delete,
        stats: CacheCleanupStats { total_entries: rows.len(), removed_missing, removed_changed },
    }
}

impl CacheCleanupStats {
    /// The line that reports a maintenance pass.
    pub fn print(&self) -> (r: String)
        ensures
            r@ == cleanup_message_of(*self),
    {
        let mut out: Vec<char> = Vec::new();
        push_all(&mut out, &chars_of("Cache cleanup complete. Checked "));
        push_decimal(&mut out, self.total_entries as u64);
        push_all(&mut out, &chars_of(" entries: "));
        push_decimal(&mut out, self.removed_missing as u64);
        push_all(&mut out, &chars_of(" removed (missing), "));
        push_decimal(&mut out, self.removed_changed as u64);
        push_all(&mut out, &chars_of(" removed (changed)."));
        assert(out@ =~= cleanup_message_of(*self));
        string_of(&out)
    }
}

impl CacheStats {
    /// The line that reports the cache's size.
    pub fn print(&self) -> (r: String)
        ensures
            r@ == stats_message_of(*self),
    {
        let scaled: u128 = (self.db_size_bytes as u128) * 100;
        let whole: u128 = scaled / 1048576;
        let rest: u128 = scaled % 1048576;
        let h: u128 = if rest > 524288 || (rest == 524288 && whole % 2 == 1) {
            whole + 1
        } else {
            whole
        };
        assert(h == hundredths_of_mib(self.db_size_bytes as nat));
        let mut out: Vec<char> = Vec::new();
        push_all(&mut out, &chars_of("Cache contains "));
        push_decimal(&mut out, self.total_entries as u64);
        push_all(&mut out, &chars_of(" entries ("));
        push_decimal(&mut out, (h / 100) as u64);
        push_all(&mut out, &chars_of("."));
        push_decimal(&mut out, ((h % 100) / 10) as u64);
        push_decimal(&mut out, (h % 10) as u64);
        push_all(&mut out, &chars_of(" MB)"));
        assert(out@ =~= stats_message_of(*self));
        string_of(&out)
    }
}

/// A lookup right after caching a file returns what was cached, as long as
/// the file keeps its modification time and size; once either differs, or
/// the file is gone, the lookup misses.
pub proof fn lemma_cached_then_found(
    entry: CacheEntry,
    stamp: FileStamp,
    current: Option<FileStamp>,
)
    requires
        entry.mtime == stamp.mtime,
        entry.size == stamp.size,
    ensures
        current == Some(stamp) ==> lookup_of(current, Some(entry)) == Some(entry.metadata_json@),
        current != Some(stamp) ==> lookup_of(current, Some(entry)) is None,
        lookup_of(current, None) is None,
{
}

/// A maintenance pass deletes every row whose file is gone or changed.
pub proof fn lemma_stale_rows_are_deleted(rows: Seq<CheckedRow>, i: int)
    requires
        0 <= i < rows.len(),
        row_state(rows[i]) != EntryState::Valid,
    ensures
        stale_paths_of(rows).contains(rows[i].path@),
    decreases rows.len(),
{
    let init = rows.drop_last();
    let earlier = stale_paths_of(init);
    let all = stale_paths_of(rows);
    if i == rows.len() - 1 {
        assert(all == earlier.push(rows[i].path@));
        assert(all[all.len() - 1] == rows[i].path@);
    } else {
        assert(init[i] == rows[i]);
        lemma_stale_rows_are_deleted(init, i);
        let k = choose|k: int| 0 <= k < earlier.len() && earlier[k] == rows[i].path@;
        assert(all[k] == rows[i].path@);
    }
}

/// A maintenance pass deletes no row that a lookup would still answer from:
/// every key that it deletes is the key of a row whose file is gone or
/// changed.
pub proof fn lemma_deleted_rows_are_stale(rows: Seq<CheckedRow>, k: int)
    requires
        0 <= k < stale_paths_of(rows).len(),
    ensures
        exists|j: int|
            0 <= j < rows.len() && #[trigger] rows[j].path@ == stale_paths_of(rows)[k]
                && row_state(rows[j]) != EntryState::Valid,
    decreases rows.len(),
{
    let init = rows.drop_last();
    let earlier = stale_paths_of(init);
    let all = stale_paths_of(rows);
    if k < earlier.len() {
        lemma_deleted_rows_are_stale(init, k);
        let j = choose|j: int|
            0 <= j < init.len() && #[trigger] init[j].path@ == earlier[k] && row_state(init[j])
                != EntryState::Valid;
        assert(rows[j] == init[j]);
        assert(rows[j].path@ == all[k]);
    } else {
        let j = rows.len() - 1;
        assert(rows[j].path@ == all[k]);
    }
}

/// Every row is either kept as valid or deleted, and the two counts of a
/// maintenance pass add up to the rows deleted.
pub proof fn lemma_cleanup_counts(rows: Seq<CheckedRow>)
    ensures
        stale_paths_of(rows).len() == count_in_state(rows, EntryState::Missing) + count_in_state(
            rows,
            EntryState::Changed,
        ),
        stale_paths_of(rows).len() + count_in_state(rows, EntryState::Valid) == rows.len(),
    decreases rows.len(),
{
    if rows.len() > 0 {
        lemma_cleanup_counts(rows.drop_last());
    }
}

} // verus!
