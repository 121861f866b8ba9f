use ferric::metadata::AudioMetadata;
use ferric::probe::{
    first_audio_stream, metadata_from_probe, parse_track_number, parse_u32, Probe, ProbeFormat,
    ProbeStream,
};

fn tags(pairs: &[(&str, &str)]) -> Vec<(String, Option<String>)> {
    pairs.iter().map(|(k, v)| (k.to_string(), Some(v.to_string()))).collect()
}

fn tags_of(value: &serde_json::Value) -> Option<Vec<(String, Option<String>)>> {
    value.get("tags").and_then(|t| t.as_object()).map(|m| {
        m.iter().map(|(k, v)| (k.clone(), v.as_str().map(String::from))).collect()
    })
}

fn text(value: &serde_json::Value, name: &str) -> Option<String> {
    value.get(name).and_then(|v| v.as_str()).map(String::from)
}

fn stream(kind: &str, codec: Option<&str>) -> ProbeStream {
    ProbeStream {
        codec_type: Some(kind.to_string()),
        codec_name: codec.map(String::from),
        sample_rate: None,
        channels: None,
        tags: None,
    }
}

#[test]
fn test_uppercase_flac_tags() {
    let json_str = r#"{
            "streams": [{
                "codec_name": "flac",
                "codec_type": "audio",
                "sample_rate": "44100",
                "channels": 2
            }],
            "format": {
                "format_name": "flac",
                "bit_rate": "1056812",
                "duration": "108.840408",
                "tags": {
                    "TITLE": "Gas Pedal",
                    "ARTIST": "Babe Haven",
                    "ALBUM": "Nuisance",
                    "TRACK": "1",
                    "DATE": "2024",
                    "GENRE": "Hardcore"
                }
            }
        }"#;

    let json: serde_json::Value = serde_json::from_str(json_str).unwrap();

    let streams: Vec<ProbeStream> = json
        .get("streams")
        .unwrap()
        .as_array()
        .unwrap()
        .iter()
        .map(|s| ProbeStream {
            codec_type: text(s, "codec_type"),
            codec_name: text(s, "codec_name"),
            sample_rate: text(s, "sample_rate"),
            channels: s.get("channels").and_then(|v| v.as_u64()),
            tags: tags_of(s),
        })
        .collect();
    let format = json.get("format").unwrap();
    let probe = Probe {
        streams,
        format: Some(ProbeFormat {
            tags: tags_of(format),
            bit_rate: text(format, "bit_rate"),
            duration_millis: Some(108_840),
        }),
        file_stem: Some("01 gas pedal".to_string()),
    };
    let metadata = metadata_from_probe(&probe);

    let artist = metadata.artist.clone();
    let album = metadata.album.clone();
    let title = metadata.title.clone();

    assert_eq!(artist, Some("Babe Haven".to_string()));
    assert_eq!(album, Some("Nuisance".to_string()));
    assert_eq!(title, Some("Gas Pedal".to_string()));

    assert_eq!(metadata.codec, "flac");
    assert_eq!(metadata.sample_rate, Some(44100));
    assert_eq!(metadata.channels, Some(2));
    assert_eq!(metadata.bitrate, Some(1_056_812));
    assert_eq!(metadata.duration_millis, Some(108_840));
    assert_eq!(metadata.track_number, Some(1));
    assert_eq!(metadata.date, Some("2024".to_string()));
    assert_eq!(metadata.genre, Some("Hardcore".to_string()));
    assert_eq!(metadata.album_artist, None);
    assert_eq!(metadata.fingerprint, None);
    assert_eq!(AudioMetadata::get_tag_fuzzy(&tags_of(format).unwrap(), "artist"), artist);
}

#[test]
fn numbers_are_read_as_the_standard_library_reads_them() {
    for text in [
        "0", "7", "007", "+7", "44100", "4294967295", "4294967296", "99999999999999999999", "",
        "+", "-1", "-0", " 1", "1 ", "1.5", "0x10", "\u{663}", "++1", "1+", "12a",
    ] {
        assert_eq!(parse_u32(text), text.parse::<u32>().ok());
    }
    assert_eq!(parse_u32("320000"), Some(320_000));
    assert_eq!(parse_u32("4294967295"), Some(u32::MAX));
    assert_eq!(parse_u32("4294967296"), None);
}

#[test]
fn track_numbers() {
    assert_eq!(parse_track_number("3"), Some(3));
    assert_eq!(parse_track_number("3/12"), Some(3));
    assert_eq!(parse_track_number("03/12/99"), Some(3));
    assert_eq!(parse_track_number("/12"), None);
    assert_eq!(parse_track_number(""), None);
    assert_eq!(parse_track_number("A1"), None);
    assert_eq!(parse_track_number("3 /12"), None);
}

#[test]
fn the_first_audio_stream_counts() {
    let streams = vec![
        stream("video", Some("mjpeg")),
        stream("audio", None),
        stream("audio", Some("mp3")),
    ];
    assert_eq!(first_audio_stream(&streams), Some(1));
    assert_eq!(first_audio_stream(&vec![stream("video", None)]), None);
    assert_eq!(first_audio_stream(&Vec::new()), None);
    let probe = Probe { streams, format: None, file_stem: None };
    let metadata = metadata_from_probe(&probe);
    assert_eq!(metadata.codec, "unknown");
    assert_eq!(metadata.title, None);
    assert_eq!(metadata.bitrate, None);
}

#[test]
fn stream_tags_come_before_container_tags() {
    let mut audio = stream("audio", Some("opus"));
    audio.sample_rate = Some("48000".to_string());
    audio.channels = Some(258);
    audio.tags = Some(tags(&[("ARTIST", "Stream Artist"), ("track", "x"), ("year", "1999")]));
    let probe = Probe {
        streams: vec![audio],
        format: Some(ProbeFormat {
            tags: Some(tags(&[
                ("artist", "Container Artist"),
                ("Album", "Container Album"),
                ("track", "5/9"),
                ("date", "2001"),
                ("album_artist", "Various"),
            ])),
            bit_rate: Some("n/a".to_string()),
            duration_millis: None,
        }),
        file_stem: Some("song".to_string()),
    };
    let metadata = metadata_from_probe(&probe);
    assert_eq!(metadata.artist, Some("Stream Artist".to_string()));
    assert_eq!(metadata.album, Some("Container Album".to_string()));
    assert_eq!(metadata.album_artist, Some("Various".to_string()));
    assert_eq!(metadata.track_number, Some(5));
    assert_eq!(metadata.date, Some("1999".to_string()));
    assert_eq!(metadata.title, Some("song".to_string()));
    assert_eq!(metadata.sample_rate, Some(48000));
    assert_eq!(metadata.channels, Some(2));
    assert_eq!(metadata.bitrate, None);
    assert_eq!(metadata.codec, "opus");
    assert_eq!(metadata.genre, None);
}

#[test]
fn a_probe_without_streams() {
    let probe = Probe { streams: Vec::new(), format: None, file_stem: Some("x".to_string()) };
    let metadata = metadata_from_probe(&probe);
    assert_eq!(metadata.codec, "");
    assert_eq!(metadata.title, Some("x".to_string()));
    assert_eq!(metadata.get_title(), "x");
    assert_eq!(metadata.artist, None);
    assert_eq!(metadata.sample_rate, None);
    assert_eq!(metadata.channels, None);
}
