use ferric::config::{Config, QualityConfig};
use ferric::metadata::AudioMetadata;
use ferric::quality::{
    calculate_quality_score, calculate_quality_score_from_path, classify_codec,
    classify_extension, codec_multiplier, compare_quality, extension_multiplier, score_codec,
    score_extension, typical_bitrate,
    estimate_bitrate_from_ext, get_audio_format, get_audio_format_from_ext, get_codec_multiplier,
    get_codec_multiplier_from_ext, AudioFormat, QualityComparison,
};

fn file(codec: &str, bitrate: Option<u32>) -> AudioMetadata {
    AudioMetadata { codec: codec.to_string(), bitrate, ..Default::default() }
}

#[test]
fn test_audio_format_detection() {
    assert_eq!(get_audio_format("flac"), AudioFormat::Lossless);
    assert_eq!(get_audio_format("FLAC"), AudioFormat::Lossless);
    assert_eq!(get_audio_format("opus"), AudioFormat::Lossy);
    assert_eq!(get_audio_format("mp3"), AudioFormat::Lossy);
    assert_eq!(get_audio_format("unknown_codec"), AudioFormat::Unknown);
}

#[test]
fn test_format_from_extension() {
    assert_eq!(get_audio_format_from_ext("flac"), AudioFormat::Lossless);
    assert_eq!(get_audio_format_from_ext("mp3"), AudioFormat::Lossy);
    assert_eq!(get_audio_format_from_ext("xyz"), AudioFormat::Unknown);
}

#[test]
fn test_quality_score() {
    let config = Config::default();

    let lossless = AudioMetadata {
        codec: "flac".to_string(),
        bitrate: Some(1411000),
        ..Default::default()
    };
    let lossless_score = calculate_quality_score(&lossless, &config);
    assert!(lossless_score > 10000);

    let lossy = AudioMetadata {
        codec: "opus".to_string(),
        bitrate: Some(320000),
        ..Default::default()
    };
    let lossy_score = calculate_quality_score(&lossy, &config);

    assert_eq!(lossy_score, 576);

    assert!(lossless_score > lossy_score);
}

#[test]
fn test_opus_vs_mp3() {
    let config = Config::default();

    let opus = AudioMetadata {
        codec: "opus".to_string(),
        bitrate: Some(192000),
        ..Default::default()
    };

    let mp3 = AudioMetadata {
        codec: "mp3".to_string(),
        bitrate: Some(320000),
        ..Default::default()
    };

    let opus_score = calculate_quality_score(&opus, &config);
    let mp3_score = calculate_quality_score(&mp3, &config);

    assert!(opus_score > mp3_score);
}

#[test]
fn lossless_score_is_bonus_plus_kbps() {
    let config = Config::default();
    assert_eq!(calculate_quality_score(&file("flac", Some(1411000)), &config), 11411);
    assert_eq!(calculate_quality_score(&file("flac", Some(1411999)), &config), 11411);
    assert_eq!(calculate_quality_score(&file("ALAC", None), &config), 10000);
    assert_eq!(calculate_quality_score(&file("pcm_s16le", Some(1536000)), &config), 11536);
}

#[test]
fn lossy_score_is_kbps_times_multiplier() {
    let config = Config::default();
    assert_eq!(calculate_quality_score(&file("mp3", Some(320000)), &config), 320);
    assert_eq!(calculate_quality_score(&file("opus", Some(160000)), &config), 288);
    assert_eq!(calculate_quality_score(&file("aac", Some(256000)), &config), 333);
    assert_eq!(calculate_quality_score(&file("vorbis", Some(192000)), &config), 230);
    assert_eq!(calculate_quality_score(&file("wmav2", Some(192000)), &config), 173);
    assert_eq!(calculate_quality_score(&file("opus", Some(192000)), &config), 346);
    assert_eq!(calculate_quality_score(&file("opus", None), &config), 0);
}

#[test]
fn lossy_score_rounds_halves_up() {
    let mut config = Config::default();
    config.quality.codec_multipliers.mp3 = 1500;
    assert_eq!(calculate_quality_score(&file("mp3", Some(1000)), &config), 2);
    assert_eq!(calculate_quality_score(&file("mp3", Some(3000)), &config), 5);
    config.quality.codec_multipliers.mp3 = 1499;
    assert_eq!(calculate_quality_score(&file("mp3", Some(1000)), &config), 1);
}

#[test]
fn unknown_codec_scores_its_bitrate() {
    let config = Config::default();
    assert_eq!(calculate_quality_score(&file("speex", Some(64000)), &config), 64);
    assert_eq!(calculate_quality_score(&file("", Some(128999)), &config), 128);
    assert_eq!(calculate_quality_score(&file("", None), &config), 0);
}

#[test]
fn scores_saturate() {
    let mut config = Config::default();
    config.quality.lossless_bonus = u32::MAX;
    assert_eq!(calculate_quality_score(&file("flac", Some(5000)), &config), u32::MAX);
    config.quality.codec_multipliers.mp3 = u32::MAX;
    assert_eq!(calculate_quality_score(&file("mp3", Some(u32::MAX)), &config), u32::MAX);
}

#[test]
fn lossless_names_take_precedence() {
    assert_eq!(get_audio_format("wavpack"), AudioFormat::Lossless);
    assert_eq!(get_audio_format("wv"), AudioFormat::Unknown);
    assert_eq!(get_audio_format("WavPack"), AudioFormat::Lossless);
    assert_eq!(get_audio_format("Monkey's Audio (APE)"), AudioFormat::Lossless);
    assert_eq!(get_audio_format("mp3 in wav"), AudioFormat::Lossless);
    assert_eq!(get_audio_format("tta"), AudioFormat::Lossless);
    assert_eq!(get_audio_format("aiff"), AudioFormat::Lossless);
    assert_eq!(get_audio_format("Vorbis"), AudioFormat::Lossy);
    assert_eq!(get_audio_format("ogg"), AudioFormat::Lossy);
    assert_eq!(get_audio_format("WMA"), AudioFormat::Lossy);
    assert_eq!(get_audio_format("aac"), AudioFormat::Lossy);
    assert_eq!(get_audio_format(""), AudioFormat::Unknown);
}

#[test]
fn extension_classes() {
    for ext in ["flac", "wav", "aiff", "aif", "alac", "ape", "wv", "tta", "FLAC"] {
        assert_eq!(get_audio_format_from_ext(ext), AudioFormat::Lossless);
    }
    for ext in ["opus", "mp3", "m4a", "aac", "ogg", "wma", "Mp3"] {
        assert_eq!(get_audio_format_from_ext(ext), AudioFormat::Lossy);
    }
    assert_eq!(get_audio_format_from_ext("flacx"), AudioFormat::Unknown);
    assert_eq!(get_audio_format_from_ext(""), AudioFormat::Unknown);
}

#[test]
fn multipliers_by_codec_and_extension() {
    let config = Config::default();
    assert_eq!(get_codec_multiplier("libopus", &config), 1800);
    assert_eq!(get_codec_multiplier("AAC", &config), 1300);
    assert_eq!(get_codec_multiplier("m4a", &config), 1300);
    assert_eq!(get_codec_multiplier("vorbis", &config), 1200);
    assert_eq!(get_codec_multiplier("ogg", &config), 1200);
    assert_eq!(get_codec_multiplier("mp3", &config), 1000);
    assert_eq!(get_codec_multiplier("wma", &config), 900);
    assert_eq!(get_codec_multiplier("speex", &config), 1000);
    assert_eq!(get_codec_multiplier_from_ext("OPUS", &config), 1800);
    assert_eq!(get_codec_multiplier_from_ext("m4a", &config), 1300);
    assert_eq!(get_codec_multiplier_from_ext("ogg", &config), 1200);
    assert_eq!(get_codec_multiplier_from_ext("mp3", &config), 1000);
    assert_eq!(get_codec_multiplier_from_ext("wma", &config), 900);
    assert_eq!(get_codec_multiplier_from_ext("vorbis", &config), 1000);
}

#[test]
fn typical_bitrates() {
    assert_eq!(estimate_bitrate_from_ext("opus"), 160);
    assert_eq!(estimate_bitrate_from_ext("aac"), 256);
    assert_eq!(estimate_bitrate_from_ext("M4A"), 256);
    assert_eq!(estimate_bitrate_from_ext("ogg"), 192);
    assert_eq!(estimate_bitrate_from_ext("mp3"), 320);
    assert_eq!(estimate_bitrate_from_ext("wma"), 192);
    assert_eq!(estimate_bitrate_from_ext("xyz"), 128);
}

#[test]
fn score_from_path() {
    let config = Config::default();
    assert_eq!(calculate_quality_score_from_path("a/b/song.flac", &config), 11411);
    assert_eq!(calculate_quality_score_from_path("a/b/song.MP3", &config), 320);
    assert_eq!(calculate_quality_score_from_path("song.opus", &config), 288);
    assert_eq!(calculate_quality_score_from_path("song.m4a", &config), 333);
    assert_eq!(calculate_quality_score_from_path("song.ogg", &config), 230);
    assert_eq!(calculate_quality_score_from_path("song.wma", &config), 173);
    assert_eq!(calculate_quality_score_from_path("song.txt", &config), 100);
    assert_eq!(calculate_quality_score_from_path("song", &config), 100);
    assert_eq!(calculate_quality_score_from_path(".flac", &config), 100);
}

#[test]
fn comparison_of_two_files() {
    let config = Config::default();
    let mp3 = file("mp3", Some(320000));
    let opus = file("opus", Some(160000));
    let wma = file("wma", Some(320000));
    assert_eq!(compare_quality(&mp3, &opus, &config), QualityComparison::FirstBetter);
    assert_eq!(compare_quality(&opus, &mp3, &config), QualityComparison::SecondBetter);
    assert_eq!(compare_quality(&opus, &wma, &config), QualityComparison::Equal);
}

#[test]
fn lossy_score_is_monotonic_in_bitrate() {
    let config = Config::default();
    for codec in ["opus", "aac", "vorbis", "mp3", "wma"] {
        let mut last = 0;
        for kbps in [0u32, 1, 7, 64, 96, 128, 192, 256, 320, 5555] {
            let score = calculate_quality_score(&file(codec, Some(kbps * 1000)), &config);
            assert!(score >= last);
            last = score;
        }
        assert!(last < calculate_quality_score(&file("flac", None), &config));
    }
}

#[test]
fn default_quality_parameters() {
    let q = QualityConfig::default();
    assert_eq!(q.lossless_bonus, 10000);
    assert_eq!(q.codec_multipliers.opus, 1800);
    assert_eq!(q.codec_multipliers.aac, 1300);
    assert_eq!(q.codec_multipliers.vorbis, 1200);
    assert_eq!(q.codec_multipliers.mp3, 1000);
    assert_eq!(q.codec_multipliers.wma, 900);
    let c = Config::default();
    assert_eq!(c.naming.max_name_length, 128);
    assert!(c.naming.lowercase);
    assert_eq!(c.convert.output_format, "opus");
    assert_eq!(c.convert.opus_bitrate, 192);
    assert_eq!(c.general.threads, 0);
}

#[test]
fn lower_case_forms() {
    let q = QualityConfig::default();
    assert_eq!(classify_codec("flac"), AudioFormat::Lossless);
    assert_eq!(classify_codec("wavpack"), AudioFormat::Lossless);
    assert_eq!(classify_codec("wv"), AudioFormat::Unknown);
    assert_eq!(classify_codec("FLAC"), AudioFormat::Unknown);
    assert_eq!(classify_codec("mp3"), AudioFormat::Lossy);
    assert_eq!(classify_extension("wv"), AudioFormat::Lossless);
    assert_eq!(classify_extension("WV"), AudioFormat::Unknown);
    assert_eq!(classify_extension("m4a"), AudioFormat::Lossy);
    assert_eq!(codec_multiplier("opus", &q.codec_multipliers), 1800);
    assert_eq!(codec_multiplier("OPUS", &q.codec_multipliers), 1000);
    assert_eq!(extension_multiplier("ogg", &q.codec_multipliers), 1200);
    assert_eq!(typical_bitrate("mp3"), 320);
    assert_eq!(typical_bitrate("MP3"), 128);
    assert_eq!(score_codec("opus", Some(160_000), &q), 288);
    assert_eq!(score_codec("mp3", Some(320_000), &q), 320);
    assert_eq!(score_codec("flac", None, &q), 10000);
    assert_eq!(score_codec("speex", Some(64_999), &q), 64);
    assert_eq!(score_extension(Some("flac".to_string()), &q), 11411);
    assert_eq!(score_extension(Some("opus".to_string()), &q), 288);
    assert_eq!(score_extension(Some("txt".to_string()), &q), 100);
    assert_eq!(score_extension(None, &q), 100);
}

#[test]
fn three_bitrates_of_one_codec_rank_by_bitrate() {
    let config = Config::default();
    for codec in ["mp3", "opus", "aac", "vorbis", "wma", "flac", "speex", ""] {
        let low = calculate_quality_score(&file(codec, Some(128_000)), &config);
        let mid = calculate_quality_score(&file(codec, Some(192_000)), &config);
        let high = calculate_quality_score(&file(codec, Some(320_000)), &config);
        assert!(low < mid);
        assert!(mid < high);
    }
}
