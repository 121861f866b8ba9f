use ferric::metadata::AudioMetadata;

#[test]
fn test_get_organizing_artist() {
    let mut meta = AudioMetadata::default();
    meta.artist = Some("The Beatles".to_string());
    meta.album_artist = Some("Beatles, The".to_string());

    assert_eq!(meta.get_organizing_artist(false), "Beatles, The");

    assert_eq!(meta.get_organizing_artist(true), "The Beatles");
}

#[test]
fn test_looks_like_va() {
    let mut meta = AudioMetadata::default();
    meta.album_artist = Some("Various Artists".to_string());
    assert!(meta.looks_like_va());

    meta.album_artist = Some("Compilation".to_string());
    assert!(meta.looks_like_va());

    meta.album_artist = Some("The Beatles".to_string());
    assert!(!meta.looks_like_va());
}

#[test]
fn test_normalize_tag_key() {
    assert_eq!(AudioMetadata::normalize_tag_key("ARTIST"), "artist");
    assert_eq!(AudioMetadata::normalize_tag_key("Artist"), "artist");
    assert_eq!(AudioMetadata::normalize_tag_key("artist"), "artist");

    assert_eq!(AudioMetadata::normalize_tag_key("Album Artist"), "albumartist");
    assert_eq!(AudioMetadata::normalize_tag_key("album artist"), "albumartist");

    assert_eq!(AudioMetadata::normalize_tag_key("album_artist"), "albumartist");
    assert_eq!(AudioMetadata::normalize_tag_key("album-artist"), "albumartist");
    assert_eq!(AudioMetadata::normalize_tag_key("ALBUM_ARTIST"), "albumartist");

    assert_eq!(AudioMetadata::normalize_tag_key("Album-Artist"), "albumartist");
    assert_eq!(AudioMetadata::normalize_tag_key("ALBUM ARTIST"), "albumartist");
}

#[test]
fn placeholders_stand_in_for_missing_tags() {
    let mut meta = AudioMetadata::default();
    assert_eq!(meta.get_organizing_artist(false), "_unknown artist");
    assert_eq!(meta.get_organizing_artist(true), "_unknown artist");
    assert_eq!(meta.get_album(), "_unknown album");
    assert_eq!(meta.get_title(), "_unknown title");
    assert!(!meta.looks_like_va());

    meta.artist = Some("Solo".to_string());
    assert_eq!(meta.get_organizing_artist(false), "Solo");
    assert_eq!(meta.get_organizing_artist(true), "Solo");
    meta.artist = None;
    meta.album_artist = Some("Band".to_string());
    assert_eq!(meta.get_organizing_artist(true), "Band");

    meta.album = Some("Album".to_string());
    meta.title = Some("Title".to_string());
    assert_eq!(meta.get_album(), "Album");
    assert_eq!(meta.get_title(), "Title");
}

#[test]
fn empty_tags_count_as_absent() {
    let mut meta = AudioMetadata::default();
    meta.album_artist = Some(String::new());
    meta.artist = Some("Solo".to_string());
    meta.album = Some(String::new());
    assert_eq!(meta.get_organizing_artist(false), "Solo");
    assert_eq!(meta.get_album(), "_unknown album");
    meta.artist = Some(String::new());
    assert_eq!(meta.get_organizing_artist(false), "_unknown artist");
    assert_eq!(meta.get_organizing_artist(true), "_unknown artist");
}

#[test]
fn bitrate_in_kbps_rounds_down() {
    let mut meta = AudioMetadata::default();
    assert_eq!(meta.get_bitrate_kbps(), None);
    meta.bitrate = Some(320_000);
    assert_eq!(meta.get_bitrate_kbps(), Some(320));
    meta.bitrate = Some(999);
    assert_eq!(meta.get_bitrate_kbps(), Some(0));
    meta.bitrate = Some(u32::MAX);
    assert_eq!(meta.get_bitrate_kbps(), Some(4_294_967));
}

#[test]
fn fingerprint_is_added_and_nothing_else_changes() {
    let mut meta = AudioMetadata::default();
    meta.title = Some("T".to_string());
    meta.codec = "flac".to_string();
    meta.add_fingerprint("AQAA".to_string());
    assert_eq!(meta.fingerprint, Some("AQAA".to_string()));
    assert_eq!(meta.title, Some("T".to_string()));
    assert_eq!(meta.codec, "flac");
    assert_eq!(meta.artist, None);
}

#[test]
fn various_artists_in_any_case() {
    let mut meta = AudioMetadata::default();
    meta.album_artist = Some("VARIOUS".to_string());
    assert!(meta.looks_like_va());
    meta.album_artist = Some("A compilation of hits".to_string());
    assert!(meta.looks_like_va());
    meta.album_artist = Some("Var. Artists".to_string());
    assert!(!meta.looks_like_va());
}

fn tags(pairs: &[(&str, Option<&str>)]) -> Vec<(String, Option<String>)> {
    pairs.iter().map(|(k, v)| (k.to_string(), v.map(|s| s.to_string()))).collect()
}

#[test]
fn test_get_tag_fuzzy() {
    let tags_exact = tags(&[("album", Some("Abbey Road")), ("artist", Some("The Beatles"))]);

    assert_eq!(
        AudioMetadata::get_tag_fuzzy(&tags_exact, "artist"),
        Some("The Beatles".to_string())
    );

    let tags_upper = tags(&[
        ("ALBUM", Some("Nuisance")),
        ("ARTIST", Some("Babe Haven")),
        ("GENRE", Some("Hardcore")),
    ]);

    assert_eq!(
        AudioMetadata::get_tag_fuzzy(&tags_upper, "artist"),
        Some("Babe Haven".to_string())
    );
    assert_eq!(
        AudioMetadata::get_tag_fuzzy(&tags_upper, "album"),
        Some("Nuisance".to_string())
    );
    assert_eq!(
        AudioMetadata::get_tag_fuzzy(&tags_upper, "genre"),
        Some("Hardcore".to_string())
    );

    let tags_space = tags(&[("Album Artist", Some("Various Artists"))]);
    assert_eq!(
        AudioMetadata::get_tag_fuzzy(&tags_space, "albumartist"),
        Some("Various Artists".to_string())
    );

    let tags_underscore = tags(&[("album_artist", Some("Compilation"))]);
    assert_eq!(
        AudioMetadata::get_tag_fuzzy(&tags_underscore, "albumartist"),
        Some("Compilation".to_string())
    );

    let tags_hyphen = tags(&[("ALBUM-ARTIST", Some("VA"))]);
    assert_eq!(
        AudioMetadata::get_tag_fuzzy(&tags_hyphen, "albumartist"),
        Some("VA".to_string())
    );

    let tags_missing = tags(&[("artist", Some("Someone"))]);

    assert_eq!(AudioMetadata::get_tag_fuzzy(&tags_missing, "album"), None);
}

#[test]
fn exact_tag_with_text_comes_first() {
    let both = tags(&[("ARTIST", Some("Upper")), ("artist", Some("Lower"))]);
    assert_eq!(AudioMetadata::get_tag_fuzzy(&both, "artist"), Some("Lower".to_string()));
    assert_eq!(AudioMetadata::get_tag_fuzzy(&both, "Artist"), Some("Upper".to_string()));
    let not_text = tags(&[("ARTIST", Some("Upper")), ("artist", None)]);
    assert_eq!(AudioMetadata::get_tag_fuzzy(&not_text, "artist"), Some("Upper".to_string()));
    let first_is_no_text = tags(&[("ARTIST", None), ("Artist", Some("Mixed"))]);
    assert_eq!(AudioMetadata::get_tag_fuzzy(&first_is_no_text, "artist"), None);
    assert_eq!(AudioMetadata::get_tag_fuzzy(&Vec::new(), "artist"), None);
}
