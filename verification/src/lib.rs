//! Consolidation of audio collections: many copies of many tracks, spread
//! over several directory trees, become one library that keeps the best
//! copy of each track.
//!
//! The library decides and never touches a file. A caller scans the trees,
//! hands over what it found, and carries out what comes back.
//!
//! - `quality`: the score that ranks a file by codec and bitrate.
//! - `metadata`, `probe`, `config`: the record of a file, how it is built
//!   from a probe of the file, and the settings.
//! - `utils`, `naming`, `text`: names that are safe on disk, grouping keys.
//! - `engine`, `index`, `operations`: winners per track, the conflict index
//!   and the add / upgrade / skip rule, with the counters of a run.
//! - `links`, `sorting`, `renaming`, `cleanup`, `paths`: what is particular
//!   to each mode.
//! - `cache`: when a cached record is valid and which rows a clean-up
//!   removes.
//! - `report`: the lines of a report.

pub mod cache;
pub mod cleanup;
pub mod config;
pub mod engine;
pub mod index;
pub mod links;
pub mod metadata;
pub mod naming;
pub mod operations;
pub mod paths;
pub mod probe;
pub mod quality;
pub mod renaming;
pub mod report;
pub mod sorting;
pub mod text;
pub mod utils;
