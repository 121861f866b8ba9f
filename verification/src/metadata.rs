//! The metadata record of one audio file, and the names derived from it.

use crate::text::{chars_of, contains, is_substring, lowercase, lowercase_of, only_alphanumeric,
    only_alphanumeric_of, same_chars, string_of};
use vstd::prelude::*;

verus! {

/// What is known about one audio file.
#[derive(Debug, Clone, Default)]
pub struct AudioMetadata {
    pub artist: Option<String>,
    pub album: Option<String>,
    pub album_artist: Option<String>,
    pub title: Option<String>,
    pub track_number: Option<u32>,
    pub date: Option<String>,
    pub genre: Option<String>,
    pub codec: String,
    /// Bits per second.
    pub bitrate: Option<u32>,
    pub sample_rate: Option<u32>,
    pub channels: Option<u8>,
    /// Length of the audio in milliseconds.
    pub duration_millis: Option<u64>,
    pub fingerprint: Option<String>,
    pub musicbrainz_recording_id: Option<String>,
    pub musicbrainz_release_id: Option<String>,
}

/// The text of an optional tag, if it is present and not empty.
pub open spec fn present(tag: Option<String>) -> Option<Seq<char>> {
    match tag {
        Some(s) => if s@.len() > 0 {
            Some(s@)
        } else {
            None
        },
        None => None,
    }
}

/// The first of two optional texts that is present, else the fallback.
pub open spec fn first_present(a: Option<Seq<char>>, b: Option<Seq<char>>, fallback: Seq<char>)
    -> Seq<char> {
    match a {
        Some(s) => s,
        None => match b {
            Some(s) => s,
            None => fallback,
        },
    }
}

/// Kilobits per second for a bitrate in bits per second.
pub open spec fn kbps_of(bitrate: Option<u32>) -> nat {
    match bitrate {
        Some(b) => (b / 1000) as nat,
        None => 0,
    }
}

/// The key under which two spellings of a tag name count as the same tag.
pub open spec fn tag_key_of(key: Seq<char>) -> Seq<char> {
    only_alphanumeric_of(lowercase_of(key))
}

/// Whether the tag name `name` answers a search for `key`: exactly, or
/// under the tag key of both.
pub open spec fn tag_answers(name: Seq<char>, key: Seq<char>, fuzzy: bool) -> bool {
    if fuzzy {
        tag_key_of(name) == tag_key_of(key)
    } else {
        name == key
    }
}

/// The position of the first tag that answers a search for `key`.
pub open spec fn first_tag_at(tags: Seq<(String, Option<String>)>, key: Seq<char>, fuzzy: bool)
    -> Option<int>
    decreases tags.len(),
{
    if tags.len() == 0 {
        None
    } else {
        match first_tag_at(tags.drop_last(), key, fuzzy) {
            Some(i) => Some(i),
            None => if tag_answers(tags.last().0@, key, fuzzy) {
                Some(tags.len() - 1)
            } else {
                None
            },
        }
    }
}

/// The value found for `key`: the text of the tag with exactly this name,
/// else the value of the first tag with the same tag key, which is nothing
/// where that value is no text.
pub open spec fn tag_value_of(tags: Seq<(String, Option<String>)>, key: Seq<char>) -> Option<
    Seq<char>,
> {
    let exact = first_tag_at(tags, key, false);
    if exact is Some && tags[exact->0].1 is Some {
        Some(tags[exact->0].1->0@)
    } else {
        match first_tag_at(tags, key, true) {
            Some(j) => match tags[j].1 {
                Some(v) => Some(v@),
                None => None,
            },
            None => None,
        }
    }
}

fn find_tag(tags: &Vec<(String, Option<String>)>, key: &str, fuzzy: bool) -> (r: Option<usize>)
    ensures
        match r {
            Some(i) => i < tags.len() && first_tag_at(tags@, key@, fuzzy) == Some(i as int),
            None => first_tag_at(tags@, key@, fuzzy) is None,
        },
{
    let wanted: Vec<char> = if fuzzy {
        chars_of(AudioMetadata::normalize_tag_key(key).as_str())
    } else {
        chars_of(key)
    };
    let mut found: Option<usize> = None;
    let mut i: usize = 0;
    while i < tags.len()
        invariant
            i <= tags.len(),
            wanted@ == if fuzzy {
                tag_key_of(key@)
            } else {
                key@
            },
            match found {
                Some(f) => f < i && first_tag_at(tags@.take(i as int), key@, fuzzy) == Some(
                    f as int,
                ),
                None => first_tag_at(tags@.take(i as int), key@, fuzzy) is None,
            },
        decreases tags.len() - i,
    {
        assert(tags@.take(i + 1).drop_last() =~= tags@.take(i as int));
        if found.is_none() {
            let name: Vec<char> = if fuzzy {
                chars_of(AudioMetadata::normalize_tag_key(tags[i].0.as_str()).as_str())
            } else {
                chars_of(tags[i].0.as_str())
            };
            if same_chars(&name, &wanted) {
                found = Some(i);
            }
        }
        i += 1;
    }
    assert(tags@.take(tags.len() as int) =~= tags@);
    found
}

fn present_text(tag: &Option<String>) -> (r: Option<String>)
    ensures
        match r {
            Some(s) => present(*tag) == Some(s@),
            None => present(*tag) is None,
        },
{
    match tag {
        Some(s) => {
            if s.as_str().unicode_len() > 0 {
                Some(s.clone())
            } else {
                None
            }
        },
        None => None,
    }
}

impl AudioMetadata {
    /// The artist that folders are organised by.
    pub open spec fn organizing_artist(&self, prefer_track_artist: bool) -> Seq<char> {
        if prefer_track_artist {
            first_present(present(self.artist), present(self.album_artist), "_unknown artist"@)
        } else {
            first_present(present(self.album_artist), present(self.artist), "_unknown artist"@)
        }
    }

    /// The album name that folders are organised by.
    pub open spec fn album_name(&self) -> Seq<char> {
        first_present(present(self.album), None, "_unknown album"@)
    }

    /// The title, or its placeholder.
    pub open spec fn title_name(&self) -> Seq<char> {
        match self.title {
            Some(t) => t@,
            None => "_unknown title"@,
        }
    }

    /// Whether the album artist names a compilation.
    pub open spec fn is_compilation(&self) -> bool {
        match self.album_artist {
            Some(aa) => is_substring(lowercase_of(aa@), "various"@) || is_substring(
                lowercase_of(aa@),
                "compilation"@,
            ),
            None => false,
        }
    }

    /// The album artist if there is one, else the track artist, else a
    /// placeholder; the other way round with `prefer_track_artist`. An empty
    /// tag counts as absent, so the result is never empty.
    pub fn get_organizing_artist(&self, prefer_track_artist: bool) -> (r: String)
        ensures
            r@ == self.organizing_artist(prefer_track_artist),
            r@.len() > 0,
    {
        proof {
            reveal_strlit("_unknown artist");
        }
        let (first, second) = if prefer_track_artist {
            (present_text(&self.artist), present_text(&self.album_artist))
        } else {
            (present_text(&self.album_artist), present_text(&self.artist))
        };
        match first {
            Some(s) => s,
            None => match second {
                Some(s) => s,
                None => "_unknown artist".to_owned(),
            },
        }
    }

    /// The album, or a placeholder where it is absent or empty.
    pub fn get_album(&self) -> (r: String)
        ensures
            r@ == self.album_name(),
            r@.len() > 0,
    {
        proof {
            reveal_strlit("_unknown album");
        }
        match present_text(&self.album) {
            Some(s) => s,
            None => "_unknown album".to_owned(),
        }
    }

    /// The title, or a placeholder where it is absent.
    pub fn get_title(&self) -> (r: String)
        ensures
            r@ == self.title_name(),
    {
        match &self.title {
            Some(s) => s.clone(),
            None => "_unknown title".to_owned(),
        }
    }

    /// Whether this looks like a "Various Artists" album.
    pub fn looks_like_va(&self) -> (r: bool)
        ensures
            r == self.is_compilation(),
    {
        match &self.album_artist {
            Some(aa) => {
                let lower = chars_of(lowercase(aa.as_str()).as_str());
                contains(&lower, &chars_of("various")) || contains(&lower, &chars_of("compilation"))
            },
            None => false,
        }
    }

    /// The bitrate in kilobits per second, rounded down.
    pub fn get_bitrate_kbps(&self) -> (r: Option<u32>)
        ensures
            r is Some == self.bitrate is Some,
            r is Some ==> r->0 == kbps_of(self.bitrate),
    {
        match self.bitrate {
            Some(b) => Some(b / 1000),
            None => None,
        }
    }

    /// Stores a fingerprint in the record and leaves everything else as it
    /// was.
    pub fn add_fingerprint(&mut self, fingerprint: String)
        ensures
            final(self).fingerprint == Some(fingerprint),
            final(self).artist == old(self).artist,
            final(self).album == old(self).album,
            final(self).album_artist == old(self).album_artist,
            final(self).title == old(self).title,
            final(self).track_number == old(self).track_number,
            final(self).date == old(self).date,
            final(self).genre == old(self).genre,
            final(self).codec == old(self).codec,
            final(self).bitrate == old(self).bitrate,
            final(self).sample_rate == old(self).sample_rate,
            final(self).channels == old(self).channels,
            final(self).duration_millis == old(self).duration_millis,
            final(self).musicbrainz_recording_id == old(self).musicbrainz_recording_id,
            final(self).musicbrainz_release_id == old(self).musicbrainz_release_id,
    {
        self.fingerprint = Some(fingerprint);
    }

    /// Looks a tag up by name. A tag with exactly this name and a text value
    /// is taken first; failing that, the first tag whose name agrees in any
    /// case and without separators. Each tag is a name and its value, which
    /// is `None` where the value is no text.
    pub fn get_tag_fuzzy(tags: &Vec<(String, Option<String>)>, key: &str) -> (r: Option<String>)
        ensures
            match r {
                Some(v) => tag_value_of(tags@, key@) == Some(v@),
                None => tag_value_of(tags@, key@) is None,
            },
    {
        match find_tag(tags, key, false) {
            Some(i) => {
                match &tags[i].1 {
                    Some(v) => {
                        return Some(v.clone());
                    },
                    None => {},
                }
            },
            None => {},
        }
        match find_tag(tags, key, true) {
            Some(j) => match &tags[j].1 {
                Some(v) => Some(v.clone()),
                None => None,
            },
            None => None,
        }
    }

    /// Lower-cases a tag name and drops everything that is not
    /// alphanumeric, so that "Album Artist" and "ALBUM_ARTIST" agree.
    pub fn normalize_tag_key(key: &str) -> (r: String)
        ensures
            r@ == tag_key_of(key@),
    {
        let lower = chars_of(lowercase(key).as_str());
        string_of(&only_alphanumeric(&lower))
    }
}

} // verus!
