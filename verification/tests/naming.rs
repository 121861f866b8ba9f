use ferric::cleanup::{
    cleanup_progress, cleanup_step, is_disposable, leftover_files, CleanupStep, DirEntry,
};
use ferric::config::NamingConfig;
use ferric::metadata::AudioMetadata;
use ferric::naming::{
    destination_for, folder_name, is_already_organized, same_ignoring_case, song_id, song_id_for,
    sorted_file_name, sorted_file_name_for,
};
use ferric::operations::{Decision, OperationStats};
use ferric::renaming::{
    decide_arrival, decide_lowercase, decide_rename, find_unique_filename, is_same_song,
    name_search_step, stamped_name, Arrival, ArrivalAction, NameSearch, RenameDecision,
};
use ferric::report::{file_text, is_shown, FingerprintAvailability, LogLevel, LogLine};
use ferric::sorting::{
    decide_sorted, in_place_reason, is_confirmation, needs_confirmation, organized_reason,
    removes_source, SortDecision,
};

fn meta(artist: &str, album: &str, title: &str) -> AudioMetadata {
    AudioMetadata {
        artist: Some(artist.to_string()),
        album: Some(album.to_string()),
        title: Some(title.to_string()),
        ..Default::default()
    }
}

fn entry(path: &str, is_dir: bool) -> DirEntry {
    DirEntry { path: path.to_string(), is_dir, is_file: !is_dir }
}

fn line(level: LogLevel, text: &str) -> LogLine {
    LogLine { level, text: text.to_string() }
}

#[test]
fn grouping_key() {
    assert_eq!(song_id("The Beatles", "Let It Be", "Get Back"), "the beatles__let it be__get back");
    assert_eq!(song_id("AC/DC", "", "Don't Stop!"), "ac dc____dont stop");
    assert_eq!(
        song_id_for(&meta("A & B", "X", "Y"), false),
        song_id_for(&meta("a and b", " x ", "y!"), true)
    );
    assert_eq!(
        song_id_for(&AudioMetadata::default(), false),
        "unknown artist__unknown album__unknown title"
    );
}

#[test]
fn destination_folders() {
    let naming = NamingConfig::default();
    let m = meta("AC/DC", "Back  In Black.", "Hells Bells");
    let plain = destination_for(&m, &naming, false);
    assert_eq!(plain.artist_dir, "AC\u{2013}DC");
    assert_eq!(plain.album_dir, "Back In Black");
    let fixed = destination_for(&m, &naming, true);
    assert_eq!(fixed.artist_dir, "ac\u{2013}dc");
    assert_eq!(fixed.album_dir, "back in black");
    let missing = destination_for(&AudioMetadata::default(), &naming, false);
    assert_eq!(missing.artist_dir, "_unknown artist");
    assert_eq!(missing.album_dir, "_unknown album");
    let short = NamingConfig { max_name_length: 4, ..naming };
    assert_eq!(folder_name("Abcdefg", &short, false), "Abcd");
    assert_eq!(folder_name("Abcdefg", &short, true), "abcd");
    let mut preferred = m.clone();
    preferred.album_artist = Some("Various".to_string());
    assert_eq!(destination_for(&preferred, &naming, false).artist_dir, "Various");
    let prefer_track = NamingConfig { prefer_artist: true, ..naming };
    assert_eq!(destination_for(&preferred, &prefer_track, false).artist_dir, "AC\u{2013}DC");
}

#[test]
fn already_organized_ignores_case() {
    let naming = NamingConfig::default();
    let m = meta("The Beatles", "Abbey Road", "Something");
    assert!(is_already_organized("the beatles", "ABBEY ROAD", &m, &naming, false));
    assert!(is_already_organized("The Beatles", "Abbey Road", &m, &naming, true));
    assert!(!is_already_organized("Beatles", "Abbey Road", &m, &naming, false));
    assert!(!is_already_organized("The Beatles", "Abbey", &m, &naming, false));
    assert!(same_ignoring_case("ABC", "abc"));
    assert!(!same_ignoring_case("ABC", "abd"));
}

#[test]
fn sorted_file_names() {
    assert_eq!(sorted_file_name("Something", Some(2), "flac"), "02 - Something.flac");
    assert_eq!(sorted_file_name("Something", Some(12), "mp3"), "12 - Something.mp3");
    assert_eq!(sorted_file_name("Something", Some(123), "mp3"), "123 - Something.mp3");
    assert_eq!(sorted_file_name("Something", Some(0), "mp3"), "00 - Something.mp3");
    assert_eq!(sorted_file_name("Something", None, "opus"), "Something.opus");
    let naming = NamingConfig::default();
    let mut m = meta("A", "B", "  What's  Up/Down. ");
    m.track_number = Some(7);
    assert_eq!(
        sorted_file_name_for(&m, &naming, Some("flac".to_string())),
        "07 - what's up\u{2013}down.flac"
    );
    let keep_case = NamingConfig { lowercase: false, ..naming };
    m.track_number = None;
    assert_eq!(sorted_file_name_for(&m, &keep_case, None), "What's Up\u{2013}Down.mp3");
}

#[test]
fn sort_decisions() {
    assert_eq!(decide_sorted(320, true, Some(1)), SortDecision::AlreadyInPlace);
    assert_eq!(decide_sorted(320, false, None), SortDecision::Ruled { decision: Decision::Add });
    assert_eq!(
        decide_sorted(320, false, Some(128)),
        SortDecision::Ruled { decision: Decision::Upgrade { existing: 128 } }
    );
    assert_eq!(
        decide_sorted(320, false, Some(320)),
        SortDecision::Ruled { decision: Decision::SkipSame }
    );
    let lower = decide_sorted(128, false, Some(320));
    assert_eq!(lower, SortDecision::Ruled { decision: Decision::SkipLower { existing: 320 } });
    assert!(removes_source(lower, true, false));
    assert!(!removes_source(lower, true, true));
    assert!(!removes_source(lower, false, false));
    assert!(!removes_source(SortDecision::AlreadyInPlace, true, false));
    assert!(!removes_source(SortDecision::Ruled { decision: Decision::SkipSame }, true, false));
    assert_eq!(in_place_reason(), "already in correct location");
    assert_eq!(organized_reason(), "already organized");
}

#[test]
fn confirmation() {
    assert!(needs_confirmation(3, false, false));
    assert!(!needs_confirmation(0, false, false));
    assert!(!needs_confirmation(3, true, false));
    assert!(!needs_confirmation(3, false, true));
    assert!(is_confirmation("y"));
    assert!(is_confirmation(" Y\n"));
    assert!(!is_confirmation("yes"));
    assert!(!is_confirmation(""));
    assert!(!is_confirmation("n"));
}

#[test]
fn rename_decisions() {
    assert_eq!(decide_rename("a.mp3", "a.mp3".to_string(), true), RenameDecision::Keep);
    assert_eq!(decide_rename("A.mp3", "a.mp3".to_string(), true), RenameDecision::Conflict);
    assert_eq!(
        decide_rename("A.mp3", "a.mp3".to_string(), false),
        RenameDecision::Rename { to: "a.mp3".to_string() }
    );
    assert_eq!(decide_lowercase("loud.mp3", false), RenameDecision::Keep);
    assert_eq!(
        decide_lowercase("LOUD.MP3", false),
        RenameDecision::Rename { to: "loud.mp3".to_string() }
    );
    assert_eq!(decide_lowercase("LOUD.MP3", true), RenameDecision::Conflict);
}

#[test]
fn arrivals() {
    assert_eq!(decide_arrival(Arrival::Free), ArrivalAction::Move);
    assert_eq!(decide_arrival(Arrival::Taken), ArrivalAction::MoveNumbered);
    assert_eq!(
        decide_arrival(Arrival::SameSong { incoming: 320, existing: 128 }),
        ArrivalAction::ReplaceExisting
    );
    assert_eq!(
        decide_arrival(Arrival::SameSong { incoming: 320, existing: 320 }),
        ArrivalAction::RemoveIncoming
    );
    assert_eq!(
        decide_arrival(Arrival::SameSong { incoming: 128, existing: 320 }),
        ArrivalAction::RemoveIncoming
    );
}

#[test]
fn same_song() {
    assert!(is_same_song(&meta("A & B", "X", "Y"), &meta("a and b", "x", "Y!")));
    assert!(!is_same_song(&meta("A", "X", "Y"), &meta("A", "X", "Z")));
    assert!(!is_same_song(&meta("A", "X", "Y"), &meta("A", "W", "Y")));
    assert!(!is_same_song(&meta("A", "X", "Y"), &meta("B", "X", "Y")));
    assert!(is_same_song(&AudioMetadata::default(), &AudioMetadata::default()));
}

#[test]
fn names_for_taken_names() {
    assert_eq!(find_unique_filename("Track", "mp3", 1), "Track (1).mp3");
    assert_eq!(find_unique_filename("Track", "", 27), "Track (27)");
    assert_eq!(find_unique_filename("a.b", "flac", 100), "a.b (100).flac");
    assert_eq!(stamped_name("Track.mp3", "20240102030405"), "Track_20240102030405.mp3");
    assert_eq!(stamped_name("Track", "20240102030405"), "Track_20240102030405");
}

#[test]
fn disposable_directories() {
    assert!(is_disposable(&Vec::new()));
    assert!(is_disposable(&vec![entry("d/cover.png", false), entry("d/sub", true)]));
    assert!(is_disposable(&vec![entry("d/sub.mp3", true)]));
    assert!(!is_disposable(&vec![entry("d/cover.png", false), entry("d/track.flac", false)]));
    assert!(!is_disposable(&vec![entry("d/TRACK.MP3", false)]));
    assert_eq!(
        leftover_files(&vec![
            entry("d/cover.png", false),
            entry("d/sub", true),
            entry("d/notes.txt", false),
        ]),
        vec![0, 2]
    );
    assert!(leftover_files(&vec![entry("d/sub", true)]).is_empty());
}

#[test]
fn run_summary() {
    let mut stats = OperationStats::new();
    assert_eq!(
        stats.print_summary("Sort"),
        vec![
            line(LogLevel::Plain, "\nSort Summary:"),
            line(LogLevel::Plain, "  Processed: 0"),
            line(LogLevel::Success, "  Succeeded: 0"),
        ]
    );
    stats.processed = 12;
    stats.succeeded = 9;
    stats.errors = 1;
    stats.add_skipped("/in/a.mp3".to_string(), "same quality (320)".to_string());
    stats.add_skipped("/in/b.mp3".to_string(), "lower quality (1 < 2)".to_string());
    assert_eq!(
        stats.print_summary("Library Merge"),
        vec![
            line(LogLevel::Plain, "\nLibrary Merge Summary:"),
            line(LogLevel::Plain, "  Processed: 12"),
            line(LogLevel::Success, "  Succeeded: 9"),
            line(LogLevel::Warning, "  Skipped: 2"),
            line(LogLevel::Plain, "  Skipped files:"),
            line(LogLevel::Plain, "    - /in/a.mp3: same quality (320)"),
            line(LogLevel::Plain, "    - /in/b.mp3: lower quality (1 < 2)"),
            line(LogLevel::Error, "  Errors: 1"),
        ]
    );
    stats.skipped_files.clear();
    stats.errors = 0;
    assert_eq!(
        stats.print_summary("X"),
        vec![
            line(LogLevel::Plain, "\nX Summary:"),
            line(LogLevel::Plain, "  Processed: 12"),
            line(LogLevel::Success, "  Succeeded: 9"),
            line(LogLevel::Warning, "  Skipped: 2"),
        ]
    );
}

#[test]
fn fingerprint_tools() {
    let both = FingerprintAvailability { fpcalc_available: true, ffmpeg_available: true };
    let none = FingerprintAvailability { fpcalc_available: false, ffmpeg_available: false };
    let one = FingerprintAvailability { fpcalc_available: false, ffmpeg_available: true };
    assert!(both.is_available());
    assert!(one.is_available());
    assert!(!none.is_available());
    assert_eq!(
        both.print_status(),
        vec![
            line(LogLevel::Success, "fpcalc (chromaprint) is available - fingerprinting enabled"),
            line(LogLevel::Success, "ffmpeg is available - can decode audio for fingerprinting"),
        ]
    );
    assert_eq!(
        none.print_status(),
        vec![
            line(LogLevel::Warning, "fpcalc not found - install chromaprint for better performance"),
            line(LogLevel::Error, "ffmpeg not found - fingerprinting will not work!"),
            line(
                LogLevel::Error,
                "Audio fingerprinting is disabled. Install fpcalc or ffmpeg + libchromaprint."
            ),
        ]
    );
    assert_eq!(one.print_status().len(), 2);
}

#[test]
fn log_file_lines() {
    assert_eq!(file_text(LogLevel::Plain, "  Processed: 3"), "  Processed: 3");
    assert_eq!(file_text(LogLevel::Success, "done"), "SUCCESS: done");
    assert_eq!(file_text(LogLevel::Info, "scanning"), "INFO: scanning");
    assert_eq!(file_text(LogLevel::Warning, "careful"), "WARNING: careful");
    assert_eq!(file_text(LogLevel::Error, "failed"), "ERROR: failed");
    assert_eq!(file_text(LogLevel::Stage, "Phase 1"), "STAGE: Phase 1");
    assert_eq!(file_text(LogLevel::Debug, ""), "DEBUG: ");
    assert!(is_shown(LogLevel::Error, false));
    assert!(is_shown(LogLevel::Plain, false));
    assert!(!is_shown(LogLevel::Debug, false));
    assert!(is_shown(LogLevel::Debug, true));
}

#[test]
fn counters_know_when_they_are_consistent() {
    let mut stats = OperationStats::new();
    assert!(stats.can_record());
    stats.add_skipped("a".to_string(), "why".to_string());
    assert!(!stats.can_record());
    stats.processed = 1;
    assert!(stats.can_record());
    stats.errors = 1;
    assert!(!stats.can_record());
    stats.processed = usize::MAX;
    assert!(!stats.can_record());
    stats.processed = 5;
    stats.skipped = 2;
    assert!(!stats.can_record());
}

#[test]
fn cleanup_walks_upwards_and_stops_at_the_root() {
    let cover = vec![entry("d/cover.png", false)];
    let audio = vec![entry("d/track.flac", false)];
    assert_eq!(cleanup_step(false, true, &cover), CleanupStep::Remove);
    assert_eq!(cleanup_step(false, true, &Vec::new()), CleanupStep::Remove);
    assert_eq!(cleanup_step(true, true, &Vec::new()), CleanupStep::Stop);
    assert_eq!(cleanup_step(false, false, &Vec::new()), CleanupStep::Stop);
    assert_eq!(cleanup_step(false, true, &audio), CleanupStep::Stop);
    assert_eq!(cleanup_progress(0, true, true), (1, true));
    assert_eq!(cleanup_progress(2, true, false), (3, false));
    assert_eq!(cleanup_progress(2, false, true), (2, false));
    assert_eq!(cleanup_progress(usize::MAX, true, true), (usize::MAX, true));
}

#[test]
fn search_for_a_free_name() {
    assert_eq!(name_search_step(1, false, 10000), NameSearch::Use { number: 1 });
    assert_eq!(name_search_step(1, true, 10000), NameSearch::Try { number: 2 });
    assert_eq!(name_search_step(9998, true, 10000), NameSearch::Try { number: 9999 });
    assert_eq!(name_search_step(9999, true, 10000), NameSearch::GiveUp);
    assert_eq!(name_search_step(9999, false, 10000), NameSearch::Use { number: 9999 });
    assert_eq!(name_search_step(u32::MAX, true, u32::MAX), NameSearch::GiveUp);
    assert_eq!(name_search_step(5, true, 0), NameSearch::GiveUp);
}
