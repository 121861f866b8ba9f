use ferric::utils::{
    clamp_component, get_extension, is_audio_file, normalize_for_comparison, normalize_name,
    numbered_name, sanitize,
};

#[test]
fn test_sanitize() {
    assert_eq!(sanitize("Artist / Album"), "Artist – Album");
    assert_eq!(sanitize("Test\\Path"), "Test-Path");
    assert_eq!(sanitize("  Multiple   Spaces  "), "Multiple Spaces");
    assert_eq!(sanitize(""), "_unknown");
    assert_eq!(sanitize("Cyclo."), "Cyclo");
    assert_eq!(sanitize("Name..."), "Name");
    assert_eq!(sanitize("Artist. "), "Artist");
}

#[test]
fn test_normalize_for_comparison() {
    assert_eq!(
        normalize_for_comparison("The Beatles - Let It Be"),
        "the beatles let it be"
    );
    assert_eq!(normalize_for_comparison("Can't Stop!!!"), "cant stop");
}

#[test]
fn test_is_audio_file() {
    assert!(is_audio_file("song.mp3"));
    assert!(is_audio_file("song.FLAC"));
    assert!(is_audio_file("song.opus"));
    assert!(!is_audio_file("document.txt"));
    assert!(!is_audio_file("image.jpg"));
}

#[test]
fn test_normalize_name() {
    assert_eq!(normalize_name("Can't Stop", true), "can't stop");
    assert_eq!(normalize_name("Can't Stop", true), "can't stop");
    assert_eq!(normalize_name("LOUD  NOISES", true), "loud noises");
    assert_eq!(normalize_name("Can't Stop", false), "Can't Stop");
    assert_eq!(normalize_name("LOUD  NOISES", false), "LOUD NOISES");
}

#[test]
fn sanitize_drops_control_characters_and_never_returns_empty() {
    assert_eq!(sanitize("a\u{0}b\tc\nd"), "abcd");
    assert_eq!(sanitize("   "), "_unknown");
    assert_eq!(sanitize("..."), "_unknown");
    assert_eq!(sanitize(" . "), "_unknown");
    assert_eq!(sanitize("\u{1}\u{2}"), "_unknown");
    assert_eq!(sanitize("a/b\\c"), "a\u{2013}b-c");
    assert_eq!(sanitize("R.E.M."), "R.E.M");
    assert_eq!(sanitize("a .. "), "a");
    assert_eq!(sanitize(". ."), "_unknown");
    assert_eq!(sanitize("a. ."), "a");
    assert_eq!(sanitize("a . . ."), "a");
    assert_eq!(sanitize(".a."), ".a");
    assert_eq!(sanitize("a\u{a0}"), "a");
    for s in ["", " ", ".", "x", "/", "\\", "\u{7}", "a. .", "  b  .  ", ". .", "x/y. ./ ."] {
        let safe = sanitize(s);
        assert!(!safe.is_empty());
        assert!(!safe.ends_with('.'));
        assert!(!safe.ends_with(char::is_whitespace));
        assert!(!safe.contains('/'));
        assert!(!safe.contains('\\'));
        assert_eq!(sanitize(&safe), safe);
    }
}

#[test]
fn clamp_cuts_at_byte_length_on_whole_characters() {
    assert_eq!(clamp_component("abcdef", 3), "abc");
    assert_eq!(clamp_component("abc", 3), "abc");
    assert_eq!(clamp_component("abc", 128), "abc");
    assert_eq!(clamp_component("abc", 0), "");
    assert_eq!(clamp_component("", 5), "");
    assert_eq!(clamp_component("h\u{e9}llo", 2), "h");
    assert_eq!(clamp_component("h\u{e9}llo", 3), "h\u{e9}");
    assert_eq!(clamp_component("\u{65e5}\u{672c}", 5), "\u{65e5}");
    assert_eq!(clamp_component("\u{1f3b5}x", 3), "");
    assert_eq!(clamp_component("\u{1f3b5}x", 4), "\u{1f3b5}");
    let long = "x".repeat(300);
    assert_eq!(clamp_component(&long, 128).len(), 128);
}

#[test]
fn comparison_form_handles_apostrophes_and_ampersands() {
    assert_eq!(normalize_for_comparison("Simon & Garfunkel"), "simon and garfunkel");
    assert_eq!(normalize_for_comparison("Don\u{2019}t Stop Me"), "dont stop me");
    assert_eq!(normalize_for_comparison("\u{2018}Heroes\u{2019}"), "heroes");
    assert_eq!(normalize_for_comparison("You're The One"), "youre the one");
    assert_eq!(normalize_for_comparison("I've I'll I'd I'm x"), "ive ill id im x");
    assert_eq!(normalize_for_comparison("Dog's Life"), "dog life");
    assert_eq!(normalize_for_comparison("  A\t\tB  "), "a b");
    assert_eq!(normalize_for_comparison(""), "");
    assert_eq!(normalize_for_comparison("!!!"), "");
    assert_eq!(normalize_for_comparison("AC/DC"), "ac dc");
}

#[test]
fn extension_is_lower_cased() {
    assert_eq!(get_extension("a/b/Song.FLAC"), Some("flac".to_string()));
    assert_eq!(get_extension("song.tar.gz"), Some("gz".to_string()));
    assert_eq!(get_extension("song"), None);
    assert_eq!(get_extension(".hidden"), None);
    assert_eq!(get_extension(""), None);
}

#[test]
fn audio_extensions() {
    for name in [
        "a.flac", "a.opus", "a.ogg", "a.mp3", "a.m4a", "a.aac", "a.wav", "a.aiff", "a.aif",
        "a.wma", "a.alac", "dir.d/A.Mp3",
    ] {
        assert!(is_audio_file(name));
    }
    for name in ["a.ape", "a.wv", "a.tta", "a", "mp3", ".mp3", "a.mp3.txt", "a.mp3x"] {
        assert!(!is_audio_file(name));
    }
}

#[test]
fn normalize_name_trims_and_collapses() {
    assert_eq!(normalize_name("  A   B  ", false), "A B");
    assert_eq!(normalize_name("  A   B  ", true), "a b");
    assert_eq!(normalize_name("", true), "");
    assert_eq!(normalize_name("\u{2019}\u{2019}", false), "''");
    assert_eq!(normalize_name("Can\u{2019}t Stop", true), "can't stop");
}

#[test]
fn numbered_names() {
    assert_eq!(numbered_name("Track.mp3", 1), "Track (1).mp3");
    assert_eq!(numbered_name("Track.mp3", 9999), "Track (9999).mp3");
    assert_eq!(numbered_name("Track", 12), "Track (12)");
    assert_eq!(numbered_name("a.b.flac", 3), "a.b (3).flac");
    assert_eq!(numbered_name(".hidden", 2), " (2).hidden");
    assert_eq!(numbered_name("x.", 0), "x (0).");
    assert_eq!(numbered_name("x", u32::MAX), "x (4294967295)");
}

#[test]
fn whitespace_is_what_the_standard_library_calls_whitespace() {
    let listed = |c: char| {
        let v = c as u32;
        (0x09..=0x0D).contains(&v)
            || v == 0x20
            || v == 0x85
            || v == 0xA0
            || v == 0x1680
            || (0x2000..=0x200A).contains(&v)
            || v == 0x2028
            || v == 0x2029
            || v == 0x202F
            || v == 0x205F
            || v == 0x3000
    };
    let mut buffer = String::new();
    for v in 0..=0x10FFFFu32 {
        if let Some(c) = char::from_u32(v) {
            buffer.clear();
            buffer.push(c);
            let trimmed_away = normalize_name(&buffer, false).is_empty();
            assert_eq!(trimmed_away, listed(c));
            assert_eq!(c.is_whitespace(), listed(c));
        }
    }
}
