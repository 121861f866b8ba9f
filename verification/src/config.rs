//! Configuration values read by the scoring and naming rules.
//!
//! Codec multipliers are fixed-point numbers in thousandths, so that scores
//! are exact integer arithmetic: `1800` stands for a factor of 1.8.

use vstd::prelude::*;

verus! {

/// Quality factor per lossy codec, in thousandths.
#[derive(Debug, Clone, Copy, PartialEq, Eq)]
pub struct CodecMultipliers {
    pub opus: u32,
    pub aac: u32,
    pub vorbis: u32,
    pub mp3: u32,
    pub wma: u32,
}

/// Parameters of the quality score.
#[derive(Debug, Clone, Copy, PartialEq, Eq)]
pub struct QualityConfig {
    pub codec_multipliers: CodecMultipliers,
    /// Offset that every lossless file starts from.
    pub lossless_bonus: u32,
}

/// Rules for file and folder names.
#[derive(Debug, Clone, Copy, PartialEq, Eq)]
pub struct NamingConfig {
    /// Maximum length of one path component, in bytes.
    pub max_name_length: usize,
    pub lowercase: bool,
    /// Prefer the track artist over the album artist for folders.
    pub prefer_artist: bool,
    pub include_va: bool,
}

/// Conversion targets.
#[derive(Debug, Clone)]
pub struct ConvertConfig {
    pub output_format: String,
    pub opus_bitrate: u32,
    pub opus_compression: u8,
    pub aac_bitrate: u32,
    pub mp3_bitrate: u32,
    pub vorbis_quality: i8,
    pub delete_original: bool,
    pub always_convert: bool,
    pub convert_down: bool,
}

/// Process-wide settings.
#[derive(Debug, Clone)]
pub struct GeneralConfig {
    /// Number of worker threads; 0 lets the runtime choose.
    pub threads: usize,
    pub verbose: bool,
    pub log_dir: Option<String>,
    /// Where the metadata cache is stored.
    pub cache_path: String,
}

/// The whole configuration.
#[derive(Debug, Clone)]
pub struct Config {
    pub general: GeneralConfig,
    pub convert: ConvertConfig,
    pub quality: QualityConfig,
    pub naming: NamingConfig,
}

/// The multipliers used when none are configured.
pub open spec fn default_multipliers() -> CodecMultipliers {
    CodecMultipliers { opus: 1800, aac: 1300, vorbis: 1200, mp3: 1000, wma: 900 }
}

/// The quality parameters used when none are configured.
pub open spec fn default_quality() -> QualityConfig {
    QualityConfig { codec_multipliers: default_multipliers(), lossless_bonus: 10000 }
}

/// The naming rules used when none are configured.
pub open spec fn default_naming() -> NamingConfig {
    NamingConfig { max_name_length: 128, lowercase: true, prefer_artist: false, include_va: false }
}

pub fn default_threads() -> (r: usize)
    ensures
        r == 0,
{
    0
}

pub fn default_output_format() -> (r: String)
    ensures
        r@ == "opus"@,
{
    "opus".to_owned()
}

pub fn default_opus_bitrate() -> (r: u32)
    ensures
        r == 192,
{
    192
}

pub fn default_opus_compression() -> (r: u8)
    ensures
        r == 10,
{
    10
}

pub fn default_aac_bitrate() -> (r: u32)
    ensures
        r == 256,
{
    256
}

pub fn default_mp3_bitrate() -> (r: u32)
    ensures
        r == 320,
{
    320
}

pub fn default_vorbis_quality() -> (r: i8)
    ensures
        r == 6,
{
    6
}

pub fn default_lossless_bonus() -> (r: u32)
    ensures
        r == 10000,
{
    10000
}

pub fn default_max_name_len() -> (r: usize)
    ensures
        r == 128,
{
    128
}

pub fn default_lowercase() -> (r: bool)
    ensures
        r,
{
    true
}

pub fn default_codec_multipliers() -> (r: CodecMultipliers)
    ensures
        r == default_multipliers(),
{
    CodecMultipliers { opus: 1800, aac: 1300, vorbis: 1200, mp3: 1000, wma: 900 }
}

impl Default for QualityConfig {
    fn default() -> (r: Self)
        ensures
            r == default_quality(),
    {
        QualityConfig {
            codec_multipliers: default_codec_multipliers(),
            lossless_bonus: default_lossless_bonus(),
        }
    }
}

impl Default for NamingConfig {
    fn default() -> (r: Self)
        ensures
            r == default_naming(),
    {
        NamingConfig {
            max_name_length: default_max_name_len(),
            lowercase: default_lowercase(),
            prefer_artist: false,
            include_va: false,
        }
    }
}

impl Default for ConvertConfig {
    fn default() -> (r: Self)
        ensures
            r.output_format@ == "opus"@,
            r.opus_bitrate == 192,
            r.opus_compression == 10,
            r.aac_bitrate == 256,
            r.mp3_bitrate == 320,
            r.vorbis_quality == 6,
            !r.delete_original,
            !r.always_convert,
            !r.convert_down,
    {
        ConvertConfig {
            output_format: default_output_format(),
            opus_bitrate: default_opus_bitrate(),
            opus_compression: default_opus_compression(),
            aac_bitrate: default_aac_bitrate(),
            mp3_bitrate: default_mp3_bitrate(),
            vorbis_quality: default_vorbis_quality(),
            delete_original: false,
            always_convert: false,
            convert_down: false,
        }
    }
}

impl Default for GeneralConfig {
    /// The cache path is the one relative to the working directory; a caller
    /// that knows the user's home directory replaces it.
    fn default() -> (r: Self)
        ensures
            r.threads == 0,
            !r.verbose,
            r.log_dir is None,
            r.cache_path@ == "./.ferric/metadata_cache.db"@,
    {
        GeneralConfig {
            threads: default_threads(),
            verbose: false,
            log_dir: None,
            cache_path: "./.ferric/metadata_cache.db".to_owned(),
        }
    }
}

impl Default for Config {
    fn default() -> (r: Self)
        ensures
            r.quality == default_quality(),
            r.naming == default_naming(),
            r.general.threads == 0,
            !r.general.verbose,
            r.general.log_dir is None,
            r.general.cache_path@ == "./.ferric/metadata_cache.db"@,
            r.convert.output_format@ == "opus"@,
            r.convert.opus_bitrate == 192,
            r.convert.opus_compression == 10,
            r.convert.aac_bitrate == 256,
            r.convert.mp3_bitrate == 320,
            r.convert.vorbis_quality == 6,
            !r.convert.delete_original,
            !r.convert.always_convert,
            !r.convert.convert_down,
    {
        Config {
            general: GeneralConfig::default(),
            convert: ConvertConfig::default(),
            quality: QualityConfig::default(),
            naming: NamingConfig::default(),
        }
    }
}

} // verus!
