use ferric::cache::{
    classify_entry, get, new_entry, plan_cleanup, settle_payload, warmup_extracts,
    warmup_outcome, CacheCleanupStats, CheckedRow,
    CacheStats, EntryState, FileStamp, PayloadVerdict, WarmupOutcome, WarmupStats,
};

fn key(path: &str, mtime: i64, size: i64, current: Option<FileStamp>) -> CheckedRow {
    CheckedRow { path: path.to_string(), mtime, size, current }
}

#[test]
fn insert_then_get_returns_what_was_cached() {
    let stamp = FileStamp { mtime: 1_700_000_000, size: 4096 };
    let entry = new_entry("/m/a.flac".to_string(), stamp, "{\"codec\":\"flac\"}".to_string(), 5);
    assert_eq!(entry.path, "/m/a.flac");
    assert_eq!(entry.mtime, 1_700_000_000);
    assert_eq!(entry.size, 4096);
    assert_eq!(entry.cached_at, 5);
    assert_eq!(get(Some(stamp), Some(entry.clone())), Some("{\"codec\":\"flac\"}".to_string()));
    let touched = FileStamp { mtime: 1_700_000_001, size: 4096 };
    assert_eq!(get(Some(touched), Some(entry.clone())), None);
    let grown = FileStamp { mtime: 1_700_000_000, size: 4097 };
    assert_eq!(get(Some(grown), Some(entry.clone())), None);
    assert_eq!(get(None, Some(entry)), None);
    assert_eq!(get(Some(stamp), None), None);
    assert_eq!(get(None, None), None);
}

#[test]
fn entry_states() {
    assert_eq!(classify_entry(1, 2, Some(FileStamp { mtime: 1, size: 2 })), EntryState::Valid);
    assert_eq!(classify_entry(1, 2, Some(FileStamp { mtime: 0, size: 2 })), EntryState::Changed);
    assert_eq!(classify_entry(1, 2, Some(FileStamp { mtime: 1, size: 3 })), EntryState::Changed);
    assert_eq!(classify_entry(1, 2, None), EntryState::Missing);
}

#[test]
fn a_corrupt_payload_is_a_miss_and_costs_the_row() {
    assert_eq!(settle_payload(true), PayloadVerdict::Hit);
    assert_eq!(settle_payload(false), PayloadVerdict::MissAndDelete);
}

#[test]
fn cleanup_deletes_missing_and_changed_rows_only() {
    let rows = vec![
        key("/m/valid.mp3", 10, 100, Some(FileStamp { mtime: 10, size: 100 })),
        key("/m/gone.mp3", 10, 100, None),
        key("/m/touched.mp3", 10, 100, Some(FileStamp { mtime: 11, size: 100 })),
        key("/m/grown.mp3", 10, 100, Some(FileStamp { mtime: 10, size: 101 })),
        key("/m/valid2.mp3", 0, 0, Some(FileStamp { mtime: 0, size: 0 })),
    ];
    let plan = plan_cleanup(&rows);
    assert_eq!(plan.to_delete, vec!["/m/gone.mp3", "/m/touched.mp3", "/m/grown.mp3"]);
    assert_eq!(
        plan.stats,
        CacheCleanupStats { total_entries: 5, removed_missing: 1, removed_changed: 2 }
    );
    let empty = plan_cleanup(&Vec::new());
    assert!(empty.to_delete.is_empty());
    assert_eq!(
        empty.stats,
        CacheCleanupStats { total_entries: 0, removed_missing: 0, removed_changed: 0 }
    );
}

#[test]
fn cleanup_report() {
    let stats = CacheCleanupStats { total_entries: 120, removed_missing: 3, removed_changed: 0 };
    assert_eq!(
        stats.print(),
        "Cache cleanup complete. Checked 120 entries: 3 removed (missing), 0 removed (changed)."
    );
}

#[test]
fn size_report() {
    let mb = |bytes: u64| CacheStats { total_entries: 7, db_size_bytes: bytes }.print();
    assert_eq!(mb(0), "Cache contains 7 entries (0.00 MB)");
    assert_eq!(mb(1_048_576), "Cache contains 7 entries (1.00 MB)");
    assert_eq!(mb(1_572_864), "Cache contains 7 entries (1.50 MB)");
    assert_eq!(mb(5_242), "Cache contains 7 entries (0.00 MB)");
    assert_eq!(mb(5_243), "Cache contains 7 entries (0.01 MB)");
    assert_eq!(mb(131_072), "Cache contains 7 entries (0.12 MB)");
    assert_eq!(mb(393_216), "Cache contains 7 entries (0.38 MB)");
    assert_eq!(mb(123_456_789), "Cache contains 7 entries (117.74 MB)");
    for bytes in [0u64, 1, 5_242, 5_243, 131_072, 393_216, 1_048_576, 123_456_789, 1 << 40] {
        let expected = format!(
            "Cache contains 7 entries ({:.2} MB)",
            bytes as f64 / 1024.0 / 1024.0
        );
        assert_eq!(mb(bytes), expected);
    }
}

#[test]
fn warm_up_counters() {
    let mut stats = WarmupStats::new();
    stats.record(WarmupOutcome::AlreadyCached);
    stats.record(WarmupOutcome::NewlyCached);
    stats.record(WarmupOutcome::NewlyCached);
    stats.record(WarmupOutcome::Failed);
    assert_eq!(stats, WarmupStats { already_cached: 1, newly_cached: 2, errors: 1 });
}

#[test]
fn warm_up_outcomes() {
    assert_eq!(warmup_outcome(true, false, false), WarmupOutcome::AlreadyCached);
    assert_eq!(warmup_outcome(true, true, true), WarmupOutcome::AlreadyCached);
    assert_eq!(warmup_outcome(false, true, true), WarmupOutcome::NewlyCached);
    assert_eq!(warmup_outcome(false, true, false), WarmupOutcome::Failed);
    assert_eq!(warmup_outcome(false, false, false), WarmupOutcome::Failed);
    assert!(warmup_extracts(false));
    assert!(!warmup_extracts(true));
}
