//! The quality score: one integer per file, comparable across codecs.
//!
//! A lossless file scores the configured bonus plus its bitrate in kbps. A
//! lossy file scores its bitrate in kbps times the multiplier of its codec,
//! rounded to the nearest integer. Anything else scores its bitrate alone.
//! Scores saturate at `u32::MAX`.

use crate::config::{CodecMultipliers, Config, QualityConfig};
use crate::metadata::{kbps_of, AudioMetadata};
use crate::text::{chars_of, contains, is_substring, lowercase, lowercase_of};
use crate::utils::{get_extension, is_text, lower_extension_of};
use vstd::prelude::*;

verus! {

/// The class of a codec.
#[derive(Debug, Clone, Copy, PartialEq, Eq, Structural)]
pub enum AudioFormat {
    Lossless,
    Lossy,
    Unknown,
}

/// The outcome of comparing two files.
#[derive(Debug, Clone, Copy, PartialEq, Eq, Structural)]
pub enum QualityComparison {
    FirstBetter,
    SecondBetter,
    Equal,
}

/// Whether a lower-case codec name contains the name of a lossless codec.
pub open spec fn names_lossless(lower: Seq<char>) -> bool {
    is_substring(lower, "flac"@) || is_substring(lower, "alac"@) || is_substring(lower, "ape"@)
        || is_substring(lower, "wav"@) || is_substring(lower, "aiff"@) || is_substring(
        lower,
        "pcm"@,
    ) || is_substring(lower, "tta"@)
}

/// Whether a lower-case codec name contains the name of a lossy codec.
pub open spec fn names_lossy(lower: Seq<char>) -> bool {
    is_substring(lower, "opus"@) || is_substring(lower, "mp3"@) || is_substring(lower, "aac"@)
        || is_substring(lower, "vorbis"@) || is_substring(lower, "ogg"@) || is_substring(
        lower,
        "wma"@,
    )
}

/// The class of a lower-case codec name; lossless names take precedence.
pub open spec fn format_of_lower(lower: Seq<char>) -> AudioFormat {
    if names_lossless(lower) {
        AudioFormat::Lossless
    } else if names_lossy(lower) {
        AudioFormat::Lossy
    } else {
        AudioFormat::Unknown
    }
}

/// The class of a codec name in any case.
pub open spec fn format_of(codec: Seq<char>) -> AudioFormat {
    format_of_lower(lowercase_of(codec))
}

/// The class of a lower-case file extension.
pub open spec fn format_of_extension(lower: Seq<char>) -> AudioFormat {
    if lower == "flac"@ || lower == "wav"@ || lower == "aiff"@ || lower == "aif"@ || lower
        == "alac"@ || lower == "ape"@ || lower == "wv"@ || lower == "tta"@ {
        AudioFormat::Lossless
    } else if lower == "opus"@ || lower == "mp3"@ || lower == "m4a"@ || lower == "aac"@ || lower
        == "ogg"@ || lower == "wma"@ {
        AudioFormat::Lossy
    } else {
        AudioFormat::Unknown
    }
}

/// The multiplier, in thousandths, of a codec name in any case.
pub open spec fn multiplier_of(codec: Seq<char>, m: CodecMultipliers) -> u32 {
    multiplier_of_lower(lowercase_of(codec), m)
}

/// The multiplier, in thousandths, of a lower-case codec name.
pub open spec fn multiplier_of_lower(lower: Seq<char>, m: CodecMultipliers) -> u32 {
    if is_substring(lower, "opus"@) {
        m.opus
    } else if is_substring(lower, "aac"@) || is_substring(lower, "m4a"@) {
        m.aac
    } else if is_substring(lower, "vorbis"@) || is_substring(lower, "ogg"@) {
        m.vorbis
    } else if is_substring(lower, "mp3"@) {
        m.mp3
    } else if is_substring(lower, "wma"@) {
        m.wma
    } else {
        1000
    }
}

/// The multiplier, in thousandths, of a lower-case file extension.
pub open spec fn multiplier_of_extension(lower: Seq<char>, m: CodecMultipliers) -> u32 {
    if lower == "opus"@ {
        m.opus
    } else if lower == "aac"@ || lower == "m4a"@ {
        m.aac
    } else if lower == "ogg"@ {
        m.vorbis
    } else if lower == "mp3"@ {
        m.mp3
    } else if lower == "wma"@ {
        m.wma
    } else {
        1000
    }
}

/// The bitrate in kbps that a file with this lower-case extension typically
/// has.
pub open spec fn typical_kbps_of(lower: Seq<char>) -> nat {
    if lower == "opus"@ {
        160
    } else if lower == "aac"@ || lower == "m4a"@ {
        256
    } else if lower == "ogg"@ {
        192
    } else if lower == "mp3"@ {
        320
    } else if lower == "wma"@ {
        192
    } else {
        128
    }
}

/// A score cut off at the largest value that fits.
pub open spec fn saturated(n: nat) -> nat {
    if n > u32::MAX {
        u32::MAX as nat
    } else {
        n
    }
}

/// The score of a lossy file: kbps times the multiplier, rounded to the
/// nearest integer, halves up.
pub open spec fn lossy_score(kbps: nat, milli: nat) -> nat {
    saturated((kbps * milli + 500) / 1000)
}

/// The score of a lossless file.
pub open spec fn lossless_score(bonus: nat, kbps: nat) -> nat {
    saturated(bonus + kbps)
}

/// The score of a file with this lower-case codec name and bitrate.
pub open spec fn score_of_lower(lower: Seq<char>, bitrate: Option<u32>, q: QualityConfig) -> nat {
    match format_of_lower(lower) {
        AudioFormat::Lossless => lossless_score(q.lossless_bonus as nat, kbps_of(bitrate)),
        AudioFormat::Lossy => lossy_score(
            kbps_of(bitrate),
            multiplier_of_lower(lower, q.codec_multipliers) as nat,
        ),
        AudioFormat::Unknown => kbps_of(bitrate),
    }
}

/// The score of a file with this codec, in any case, and bitrate.
pub open spec fn score_of(codec: Seq<char>, bitrate: Option<u32>, q: QualityConfig) -> nat {
    score_of_lower(lowercase_of(codec), bitrate, q)
}

/// The score estimated from a lower-case extension alone.
pub open spec fn score_of_extension(ext: Option<Seq<char>>, q: QualityConfig) -> nat {
    match ext {
        Some(lower) => match format_of_extension(lower) {
            AudioFormat::Lossless => lossless_score(q.lossless_bonus as nat, 1411),
            AudioFormat::Lossy => lossy_score(
                typical_kbps_of(lower),
                multiplier_of_extension(lower, q.codec_multipliers) as nat,
            ),
            AudioFormat::Unknown => 100,
        },
        None => 100,
    }
}

/// How two scores compare.
pub open spec fn comparison_of(first: nat, second: nat) -> QualityComparison {
    if first > second {
        QualityComparison::FirstBetter
    } else if second > first {
        QualityComparison::SecondBetter
    } else {
        QualityComparison::Equal
    }
}

fn lossless_points(bonus: u32, kbps: u32) -> (r: u32)
    ensures
        r == lossless_score(bonus as nat, kbps as nat),
{
    bonus.saturating_add(kbps)
}

fn lossy_points(kbps: u32, milli: u32) -> (r: u32)
    ensures
        r == lossy_score(kbps as nat, milli as nat),
{
    assert(kbps * milli <= 0xFFFF_FFFF * 0xFFFF_FFFF) by (nonlinear_arith)
        requires
            kbps <= 0xFFFF_FFFF,
            milli <= 0xFFFF_FFFF,
    ;
    let product: u64 = (kbps as u64) * (milli as u64);
    let rounded: u64 = (product + 500) / 1000;
    if rounded > 0xFFFF_FFFF {
        0xFFFF_FFFF
    } else {
        rounded as u32
    }
}

/// Classifies a lower-case codec name by the codec names that it contains.
pub fn classify_codec(lower: &str) -> (r: AudioFormat)
    ensures
        r == format_of_lower(lower@),
{
    let l = chars_of(lower);
    if contains(&l, &chars_of("flac")) || contains(&l, &chars_of("alac")) || contains(
        &l,
        &chars_of("ape"),
    ) || contains(&l, &chars_of("wav")) || contains(&l, &chars_of("aiff")) || contains(
        &l,
        &chars_of("pcm"),
    ) || contains(&l, &chars_of("tta")) {
        return AudioFormat::Lossless;
    }
    if contains(&l, &chars_of("opus")) || contains(&l, &chars_of("mp3")) || contains(
        &l,
        &chars_of("aac"),
    ) || contains(&l, &chars_of("vorbis")) || contains(&l, &chars_of("ogg")) || contains(
        &l,
        &chars_of("wma"),
    ) {
        return AudioFormat::Lossy;
    }
    AudioFormat::Unknown
}

/// Classifies a codec name as lossless, lossy or unknown, by the codec names
/// that it contains, in any case.
pub fn get_audio_format(codec: &str) -> (r: AudioFormat)
    ensures
        r == format_of(codec@),
{
    classify_codec(lowercase(codec).as_str())
}

/// Classifies a lower-case file extension.
pub fn classify_extension(lower: &str) -> (r: AudioFormat)
    ensures
        r == format_of_extension(lower@),
{
    let e = chars_of(lower);
    if is_text(&e, "flac") || is_text(&e, "wav") || is_text(&e, "aiff") || is_text(&e, "aif")
        || is_text(&e, "alac") || is_text(&e, "ape") || is_text(&e, "wv") || is_text(&e, "tta") {
        AudioFormat::Lossless
    } else if is_text(&e, "opus") || is_text(&e, "mp3") || is_text(&e, "m4a") || is_text(
        &e,
        "aac",
    ) || is_text(&e, "ogg") || is_text(&e, "wma") {
        AudioFormat::Lossy
    } else {
        AudioFormat::Unknown
    }
}

/// Classifies a file extension, in any case.
pub fn get_audio_format_from_ext(ext: &str) -> (r: AudioFormat)
    ensures
        r == format_of_extension(lowercase_of(ext@)),
{
    classify_extension(lowercase(ext).as_str())
}

/// The multiplier that applies to a lower-case codec name, in thousandths.
pub fn codec_multiplier(lower: &str, multipliers: &CodecMultipliers) -> (r: u32)
    ensures
        r == multiplier_of_lower(lower@, *multipliers),
{
    let l = chars_of(lower);
    let m = multipliers;
    if contains(&l, &chars_of("opus")) {
        m.opus
    } else if contains(&l, &chars_of("aac")) || contains(&l, &chars_of("m4a")) {
        m.aac
    } else if contains(&l, &chars_of("vorbis")) || contains(&l, &chars_of("ogg")) {
        m.vorbis
    } else if contains(&l, &chars_of("mp3")) {
        m.mp3
    } else if contains(&l, &chars_of("wma")) {
        m.wma
    } else {
        1000
    }
}

/// The multiplier that applies to a codec name, in thousandths.
pub fn get_codec_multiplier(codec: &str, config: &Config) -> (r: u32)
    ensures
        r == multiplier_of(codec@, config.quality.codec_multipliers),
{
    codec_multiplier(lowercase(codec).as_str(), &config.quality.codec_multipliers)
}

/// The multiplier that applies to a lower-case file extension, in
/// thousandths.
pub fn extension_multiplier(lower: &str, multipliers: &CodecMultipliers) -> (r: u32)
    ensures
        r == multiplier_of_extension(lower@, *multipliers),
{
    let e = chars_of(lower);
    let m = multipliers;
    if is_text(&e, "opus") {
        m.opus
    } else if is_text(&e, "aac") || is_text(&e, "m4a") {
        m.aac
    } else if is_text(&e, "ogg") {
        m.vorbis
    } else if is_text(&e, "mp3") {
        m.mp3
    } else if is_text(&e, "wma") {
        m.wma
    } else {
        1000
    }
}

/// The bitrate in kbps that a file with this lower-case extension typically
/// has.
pub fn typical_bitrate(lower: &str) -> (r: u32)
    ensures
        r == typical_kbps_of(lower@),
{
    let e = chars_of(lower);
    if is_text(&e, "opus") {
        160
    } else if is_text(&e, "aac") || is_text(&e, "m4a") {
        256
    } else if is_text(&e, "ogg") {
        192
    } else if is_text(&e, "mp3") {
        320
    } else if is_text(&e, "wma") {
        192
    } else {
        128
    }
}

/// The multiplier that applies to a file extension, in thousandths.
pub fn get_codec_multiplier_from_ext(ext: &str, config: &Config) -> (r: u32)
    ensures
        r == multiplier_of_extension(lowercase_of(ext@), config.quality.codec_multipliers),
{
    extension_multiplier(lowercase(ext).as_str(), &config.quality.codec_multipliers)
}

/// The bitrate in kbps assumed for a file extension when no metadata could
/// be read.
pub fn estimate_bitrate_from_ext(ext: &str) -> (r: u32)
    ensures
        r == typical_kbps_of(lowercase_of(ext@)),
{
    typical_bitrate(lowercase(ext).as_str())
}

/// The quality score for a lower-case codec name and a bitrate in bits per
/// second.
pub fn score_codec(lower: &str, bitrate: Option<u32>, quality: &QualityConfig) -> (r: u32)
    ensures
        r == score_of_lower(lower@, bitrate, *quality),
{
    let kbps: u32 = match bitrate {
        Some(b) => b / 1000,
        None => 0,
    };
    match classify_codec(lower) {
        AudioFormat::Lossless => lossless_points(quality.lossless_bonus, kbps),
        AudioFormat::Lossy => lossy_points(kbps, codec_multiplier(lower, &quality.codec_multipliers)),
        AudioFormat::Unknown => kbps,
    }
}

/// The quality score estimated from a lower-case extension, or from the
/// lack of one.
pub fn score_extension(lower: Option<String>, quality: &QualityConfig) -> (r: u32)
    ensures
        r == score_of_extension(
            match lower {
                Some(e) => Some(e@),
                None => None,
            },
            *quality,
        ),
{
    match lower {
        Some(ext) => {
            match classify_extension(ext.as_str()) {
                AudioFormat::Lossless => lossless_points(quality.lossless_bonus, 1411),
                AudioFormat::Lossy => lossy_points(
                    typical_bitrate(ext.as_str()),
                    extension_multiplier(ext.as_str(), &quality.codec_multipliers),
                ),
                AudioFormat::Unknown => 100,
            }
        },
        None => 100,
    }
}

/// The quality score of a file; a higher score is a better file. A missing
/// bitrate counts as zero.
pub fn calculate_quality_score(metadata: &AudioMetadata, config: &Config) -> (r: u32)
    ensures
        r == score_of(metadata.codec@, metadata.bitrate, config.quality),
{
    score_codec(lowercase(metadata.codec.as_str()).as_str(), metadata.bitrate, &config.quality)
}

/// The quality score estimated from a path alone, for a file whose metadata
/// could not be read.
pub fn calculate_quality_score_from_path(path: &str, config: &Config) -> (r: u32)
    ensures
        r == score_of_extension(lower_extension_of(path@), config.quality),
{
    score_extension(get_extension(path), &config.quality)
}

/// Says which of two files has the higher score.
pub fn compare_quality(meta1: &AudioMetadata, meta2: &AudioMetadata, config: &Config) -> (r:
    QualityComparison)
    ensures
        r == comparison_of(
            score_of(meta1.codec@, meta1.bitrate, config.quality),
            score_of(meta2.codec@, meta2.bitrate, config.quality),
        ),
{
    let score1: u32 = calculate_quality_score(meta1, config);
    let score2: u32 = calculate_quality_score(meta2, config);
    if score1 > score2 {
        QualityComparison::FirstBetter
    } else if score2 > score1 {
        QualityComparison::SecondBetter
    } else {
        QualityComparison::Equal
    }
}

/// A bitrate in bits per second, a missing one counting as zero.
pub open spec fn bits_of(bitrate: Option<u32>) -> nat {
    match bitrate {
        Some(b) => b as nat,
        None => 0,
    }
}

/// Of two lossy files with the same codec, the one with the higher bitrate
/// never scores lower.
pub proof fn lemma_lossy_score_monotonic(
    codec: Seq<char>,
    bitrate1: Option<u32>,
    bitrate2: Option<u32>,
    q: QualityConfig,
)
    requires
        format_of(codec) == AudioFormat::Lossy,
        bits_of(bitrate1) <= bits_of(bitrate2),
    ensures
        score_of(codec, bitrate1, q) <= score_of(codec, bitrate2, q),
{
    let m = multiplier_of(codec, q.codec_multipliers) as nat;
    let k1 = kbps_of(bitrate1);
    let k2 = kbps_of(bitrate2);
    assert(k1 <= k2);
    assert(k1 * m <= k2 * m) by (nonlinear_arith)
        requires
            k1 <= k2,
    ;
}

/// Of two files with the same codec, the one with more kbps scores strictly
/// higher, as long as the scores stay below the largest value and, for a
/// lossy codec, the multiplier lifts the difference to a whole point.
pub proof fn lemma_score_strictly_monotonic(
    codec: Seq<char>,
    bitrate1: Option<u32>,
    bitrate2: Option<u32>,
    q: QualityConfig,
)
    requires
        kbps_of(bitrate1) < kbps_of(bitrate2),
        score_of(codec, bitrate2, q) < u32::MAX,
        format_of(codec) == AudioFormat::Lossy ==> (kbps_of(bitrate2) - kbps_of(bitrate1))
            * multiplier_of(codec, q.codec_multipliers) >= 1000,
    ensures
        score_of(codec, bitrate1, q) < score_of(codec, bitrate2, q),
{
    let m = multiplier_of(codec, q.codec_multipliers) as int;
    let k1 = kbps_of(bitrate1) as int;
    let k2 = kbps_of(bitrate2) as int;
    if format_of(codec) == AudioFormat::Lossy {
        assert(k2 * m == k1 * m + (k2 - k1) * m) by (nonlinear_arith);
    }
}

/// With the default configuration, three copies of one track in the same
/// codec at 128, 192 and 320 kbps score in that order, whatever the codec.
pub proof fn lemma_three_bitrates_rank(codec: Seq<char>)
    ensures
        score_of(codec, Some(128_000u32), crate::config::default_quality()) < score_of(
            codec,
            Some(192_000u32),
            crate::config::default_quality(),
        ),
        score_of(codec, Some(192_000u32), crate::config::default_quality()) < score_of(
            codec,
            Some(320_000u32),
            crate::config::default_quality(),
        ),
{
    let q = crate::config::default_quality();
    let m = multiplier_of(codec, q.codec_multipliers) as int;
    assert(900 <= m <= 1800);
    assert(kbps_of(Some(128_000u32)) == 128);
    assert(kbps_of(Some(192_000u32)) == 192);
    assert(kbps_of(Some(320_000u32)) == 320);
    assert(320 * m <= 320 * 1800) by (nonlinear_arith)
        requires
            m <= 1800,
    ;
    assert(192 * m <= 192 * 1800) by (nonlinear_arith)
        requires
            m <= 1800,
    ;
    assert((192 - 128) * m >= 1000) by (nonlinear_arith)
        requires
            m >= 900,
    ;
    assert((320 - 192) * m >= 1000) by (nonlinear_arith)
        requires
            m >= 900,
    ;
    lemma_score_strictly_monotonic(codec, Some(128_000u32), Some(192_000u32), q);
    lemma_score_strictly_monotonic(codec, Some(192_000u32), Some(320_000u32), q);
}

/// A lossless file outranks a lossy file whenever the lossy file's bitrate
/// times its multiplier stays below the lossless bonus.
pub proof fn lemma_lossless_outranks_lossy(
    lossless_codec: Seq<char>,
    lossless_bitrate: Option<u32>,
    lossy_codec: Seq<char>,
    lossy_bitrate: Option<u32>,
    q: QualityConfig,
)
    requires
        format_of(lossless_codec) == AudioFormat::Lossless,
        format_of(lossy_codec) == AudioFormat::Lossy,
        kbps_of(lossy_bitrate) * multiplier_of(lossy_codec, q.codec_multipliers) + 500 < 1000
            * q.lossless_bonus,
    ensures
        score_of(lossless_codec, lossless_bitrate, q) > score_of(lossy_codec, lossy_bitrate, q),
{
}

/// With the default configuration every lossless file outranks every lossy
/// file of up to 5555 kbps.
pub proof fn lemma_default_lossless_outranks_lossy(
    lossless_codec: Seq<char>,
    lossless_bitrate: Option<u32>,
    lossy_codec: Seq<char>,
    lossy_bitrate: Option<u32>,
)
    requires
        format_of(lossless_codec) == AudioFormat::Lossless,
        format_of(lossy_codec) == AudioFormat::Lossy,
        kbps_of(lossy_bitrate) <= 5555,
    ensures
        score_of(lossless_codec, lossless_bitrate, crate::config::default_quality()) > score_of(
            lossy_codec,
            lossy_bitrate,
            crate::config::default_quality(),
        ),
{
    let q = crate::config::default_quality();
    let m = multiplier_of(lossy_codec, q.codec_multipliers) as nat;
    let k = kbps_of(lossy_bitrate);
    assert(m <= 1800);
    assert(k * m <= 5555 * 1800) by (nonlinear_arith)
        requires
            k <= 5555,
            m <= 1800,
    ;
    lemma_lossless_outranks_lossy(lossless_codec, lossless_bitrate, lossy_codec, lossy_bitrate, q);
}

} // verus!
