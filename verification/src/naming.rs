//! Grouping keys and destination names derived from a metadata record.

use crate::config::NamingConfig;
use crate::metadata::AudioMetadata;
use crate::text::{chars_of, decimal_of, lowercase, lowercase_of, push_all, push_decimal,
    same_chars, string_of};
use crate::utils::{clamp_component, clamped_of, comparison_form_of, normalize_for_comparison,
    normalize_name, normalized_name_of, sanitize, sanitized_of};
use vstd::prelude::*;

verus! {

/// The folders that a file is sorted into.
#[derive(Debug, Clone)]
pub struct Destination {
    pub artist_dir: String,
    pub album_dir: String,
}

/// The key under which files count as the same track: the comparison forms
/// of artist, album and title.
pub open spec fn song_id_of(artist: Seq<char>, album: Seq<char>, title: Seq<char>) -> Seq<char> {
    comparison_form_of(artist) + "__"@ + comparison_form_of(album) + "__"@ + comparison_form_of(
        title,
    )
}

/// The folder name for a tag: normalised where asked, made safe, and cut
/// to the configured length.
pub open spec fn folder_name_of(tag: Seq<char>, naming: NamingConfig, fix_naming: bool) -> Seq<
    char,
> {
    let safe = if fix_naming {
        sanitized_of(normalized_name_of(tag, naming.lowercase))
    } else {
        sanitized_of(tag)
    };
    clamped_of(safe, naming.max_name_length as nat)
}

/// The file name that a sorted file gets when names are normalised: the
/// track number in at least two digits where it is known, the title, and
/// the extension.
pub open spec fn sorted_name_of(title: Seq<char>, track: Option<u32>, ext: Seq<char>) -> Seq<
    char,
> {
    match track {
        Some(n) => (if n < 10 {
            "0"@
        } else {
            Seq::<char>::empty()
        }) + decimal_of(n as nat) + " - "@ + title + "."@ + ext,
        None => title + "."@ + ext,
    }
}

/// The file name of a sorted file for its metadata: the title normalised
/// and made safe, and `mp3` where the file has no extension.
pub open spec fn sorted_name_for_of(
    metadata: AudioMetadata,
    naming: NamingConfig,
    extension: Option<String>,
) -> Seq<char> {
    sorted_name_of(
        sanitized_of(normalized_name_of(metadata.title_name(), naming.lowercase)),
        metadata.track_number,
        match extension {
            Some(e) => e@,
            None => "mp3"@,
        },
    )
}

/// Builds the grouping key of a track from its artist, album and title.
pub fn song_id(artist: &str, album: &str, title: &str) -> (r: String)
    ensures
        r@ == song_id_of(artist@, album@, title@),
{
    let mut out: Vec<char> = Vec::new();
    push_all(&mut out, &chars_of(normalize_for_comparison(artist).as_str()));
    push_all(&mut out, &chars_of("__"));
    push_all(&mut out, &chars_of(normalize_for_comparison(album).as_str()));
    push_all(&mut out, &chars_of("__"));
    push_all(&mut out, &chars_of(normalize_for_comparison(title).as_str()));
    assert(out@ =~= song_id_of(artist@, album@, title@));
    string_of(&out)
}

/// The grouping key of a file's track.
pub fn song_id_for(metadata: &AudioMetadata, prefer_track_artist: bool) -> (r: String)
    ensures
        r@ == song_id_of(
            metadata.organizing_artist(prefer_track_artist),
            metadata.album_name(),
            metadata.title_name(),
        ),
{
    let artist = metadata.get_organizing_artist(prefer_track_artist);
    let album = metadata.get_album();
    let title = metadata.get_title();
    song_id(artist.as_str(), album.as_str(), title.as_str())
}

/// One folder name: the tag, normalised where asked, made safe, and cut to
/// the configured length.
pub fn folder_name(tag: &str, naming: &NamingConfig, fix_naming: bool) -> (r: String)
    ensures
        r@ == folder_name_of(tag@, *naming, fix_naming),
{
    let safe = if fix_naming {
        sanitize(normalize_name(tag, naming.lowercase).as_str())
    } else {
        sanitize(tag)
    };
    clamp_component(safe.as_str(), naming.max_name_length)
}

/// The artist and album folders that a file belongs in.
pub fn destination_for(metadata: &AudioMetadata, naming: &NamingConfig, fix_naming: bool) -> (r:
    Destination)
    ensures
        r.artist_dir@ == folder_name_of(
            metadata.organizing_artist(naming.prefer_artist),
            *naming,
            fix_naming,
        ),
        r.album_dir@ == folder_name_of(metadata.album_name(), *naming, fix_naming),
{
    let artist = metadata.get_organizing_artist(naming.prefer_artist);
    let album = metadata.get_album();
    Destination {
        artist_dir: folder_name(artist.as_str(), naming, fix_naming),
        album_dir: folder_name(album.as_str(), naming, fix_naming),
    }
}

/// The file name that a file gets when it is sorted with normalised names.
pub fn sorted_file_name_for(
    metadata: &AudioMetadata,
    naming: &NamingConfig,
    extension: Option<String>,
) -> (r: String)
    ensures
        r@ == sorted_name_for_of(*metadata, *naming, extension),
{
    let title = sanitize(normalize_name(metadata.get_title().as_str(), naming.lowercase).as_str());
    let ext: String = match extension {
        Some(e) => e,
        None => "mp3".to_owned(),
    };
    sorted_file_name(title.as_str(), metadata.track_number, ext.as_str())
}

/// Whether two names are equal when case is ignored.
pub fn same_ignoring_case(a: &str, b: &str) -> (r: bool)
    ensures
        r == (lowercase_of(a@) == lowercase_of(b@)),
{
    same_chars(&chars_of(lowercase(a).as_str()), &chars_of(lowercase(b).as_str()))
}

/// Whether a file already lies in the artist and album folders that its
/// metadata asks for, case ignored.
pub fn is_already_organized(
    current_artist_dir: &str,
    current_album_dir: &str,
    metadata: &AudioMetadata,
    naming: &NamingConfig,
    fix_naming: bool,
) -> (r: bool)
    ensures
        r == (lowercase_of(current_artist_dir@) == lowercase_of(
            folder_name_of(metadata.organizing_artist(naming.prefer_artist), *naming, fix_naming),
        ) && lowercase_of(current_album_dir@) == lowercase_of(
            folder_name_of(metadata.album_name(), *naming, fix_naming),
        )),
{
    let expected = destination_for(metadata, naming, fix_naming);
    same_ignoring_case(current_artist_dir, expected.artist_dir.as_str()) && same_ignoring_case(
        current_album_dir,
        expected.album_dir.as_str(),
    )
}

/// The file name of a sorted file when names are normalised.
pub fn sorted_file_name(title: &str, track_number: Option<u32>, ext: &str) -> (r: String)
    ensures
        r@ == sorted_name_of(title@, track_number, ext@),
{
    let mut out: Vec<char> = Vec::new();
    match track_number {
        Some(n) => {
            if n < 10 {
                push_all(&mut out, &chars_of("0"));
            }
            push_decimal(&mut out, n as u64);
            push_all(&mut out, &chars_of(" - "));
        },
        None => {},
    }
    push_all(&mut out, &chars_of(title));
    push_all(&mut out, &chars_of("."));
    push_all(&mut out, &chars_of(ext));
    assert(out@ =~= sorted_name_of(title@, track_number, ext@));
    string_of(&out)
}

} // verus!
