//! Assembling a metadata record from what a probe of the file reported:
//! its streams, its container format and the tags of both.

use crate::metadata::{tag_value_of, AudioMetadata};
use crate::text::chars_of;
use crate::utils::is_text;
use vstd::prelude::*;

verus! {

/// Tags as names and values; a value is `None` where it is no text.
pub type Tags = Vec<(String, Option<String>)>;

/// One stream of the file.
#[derive(Debug, Clone)]
pub struct ProbeStream {
    pub codec_type: Option<String>,
    pub codec_name: Option<String>,
    pub sample_rate: Option<String>,
    pub channels: Option<u64>,
    pub tags: Option<Tags>,
}

/// The container of the file.
#[derive(Debug, Clone)]
pub struct ProbeFormat {
    pub tags: Option<Tags>,
    pub bit_rate: Option<String>,
    pub duration_millis: Option<u64>,
}

/// What a probe reported, with the file's base name.
#[derive(Debug, Clone)]
pub struct Probe {
    pub streams: Vec<ProbeStream>,
    pub format: Option<ProbeFormat>,
    pub file_stem: Option<String>,
}

/// The value of a decimal digit, if the character is one.
pub open spec fn digit_value(c: char) -> Option<nat> {
    if '0' <= c && c <= '9' {
        Some((c as u32 - '0' as u32) as nat)
    } else {
        None
    }
}

/// Whether every character is a decimal digit.
pub open spec fn all_digits(s: Seq<char>) -> bool {
    forall|i: int| 0 <= i < s.len() ==> digit_value(#[trigger] s[i]) is Some
}

/// The number that a text of decimal digits denotes.
pub open spec fn value_of(s: Seq<char>) -> nat
    decreases s.len(),
{
    if s.len() == 0 {
        0
    } else {
        value_of(s.drop_last()) * 10 + match digit_value(s.last()) {
            Some(d) => d,
            None => 0,
        }
    }
}

/// A text without the plus sign that may lead it.
pub open spec fn unsigned_part(s: Seq<char>) -> Seq<char> {
    if s.len() > 0 && s[0] == '+' {
        s.drop_first()
    } else {
        s
    }
}

/// The number that a text denotes: decimal digits, at least one, after an
/// optional plus sign, and a value that fits 32 bits. Anything else denotes
/// no number.
pub open spec fn u32_of(s: Seq<char>) -> Option<u32> {
    let digits = unsigned_part(s);
    if digits.len() > 0 && all_digits(digits) && value_of(digits) <= u32::MAX {
        Some(value_of(digits) as u32)
    } else {
        None
    }
}

/// The position of the first slash, or the length where there is none.
pub open spec fn slash_at(s: Seq<char>) -> int
    decreases s.len(),
{
    if s.len() == 0 || s[0] == '/' {
        0
    } else {
        1 + slash_at(s.drop_first())
    }
}

/// The track number in a tag such as `3` or `3/12`: the number before the
/// first slash.
pub open spec fn track_of(s: Seq<char>) -> Option<u32> {
    u32_of(s.take(slash_at(s)))
}

/// The text of an optional string.
pub open spec fn text_of(s: Option<String>) -> Option<Seq<char>> {
    match s {
        Some(t) => Some(t@),
        None => None,
    }
}

/// The value of a tag among optional tags.
pub open spec fn tag_of(tags: Option<Tags>, key: Seq<char>) -> Option<Seq<char>> {
    match tags {
        Some(t) => tag_value_of(t@, key),
        None => None,
    }
}

/// The first of two optional values that is there.
pub open spec fn or_else<T>(a: Option<T>, b: Option<T>) -> Option<T> {
    match a {
        Some(_) => a,
        None => b,
    }
}

/// The date among optional tags: the tag `date`, else the tag `year`.
pub open spec fn date_of(tags: Option<Tags>) -> Option<Seq<char>> {
    or_else(tag_of(tags, "date"@), tag_of(tags, "year"@))
}

/// The track number among optional tags.
pub open spec fn track_in(tags: Option<Tags>) -> Option<u32> {
    match tag_of(tags, "track"@) {
        Some(t) => track_of(t),
        None => None,
    }
}

/// Whether a stream is an audio stream.
pub open spec fn is_audio(s: ProbeStream) -> bool {
    text_of(s.codec_type) == Some("audio"@)
}

/// The position of the first audio stream.
pub open spec fn audio_at(streams: Seq<ProbeStream>) -> Option<int>
    decreases streams.len(),
{
    if streams.len() == 0 {
        None
    } else {
        match audio_at(streams.drop_last()) {
            Some(i) => Some(i),
            None => if is_audio(streams.last()) {
                Some(streams.len() - 1)
            } else {
                None
            },
        }
    }
}

/// The tags of the first audio stream.
pub open spec fn stream_tags(p: Probe) -> Option<Tags> {
    match audio_at(p.streams@) {
        Some(i) => p.streams@[i].tags,
        None => None,
    }
}

/// The tags of the container.
pub open spec fn format_tags(p: Probe) -> Option<Tags> {
    match p.format {
        Some(f) => f.tags,
        None => None,
    }
}

/// A tag of the file: from the first audio stream, else from the container.
pub open spec fn file_tag(p: Probe, key: Seq<char>) -> Option<Seq<char>> {
    or_else(tag_of(stream_tags(p), key), tag_of(format_tags(p), key))
}

/// Parses a number as `u32_of` reads it.
pub fn parse_u32(text: &str) -> (r: Option<u32>)
    ensures
        r == u32_of(text@),
{
    let s = chars_of(text);
    let start: usize = if s.len() > 0 && s[0] == '+' {
        1
    } else {
        0
    };
    let ghost digits = unsigned_part(s@);
    assert(digits =~= s@.subrange(start as int, s.len() as int));
    if start == s.len() {
        return None;
    }
    let mut acc: u64 = 0;
    let mut over: bool = false;
    let mut i: usize = start;
    while i < s.len()
        invariant
            start <= i <= s.len(),
            digits == unsigned_part(text@),
            digits == s@.subrange(start as int, s.len() as int),
            digits.len() > 0,
            all_digits(digits.take(i - start)),
            !over ==> acc == value_of(digits.take(i - start)) && acc <= u32::MAX,
            over ==> value_of(digits.take(i - start)) > u32::MAX,
        decreases s.len() - i,
    {
        let c: char = s[i];
        let ghost before = digits.take(i - start);
        let ghost after = digits.take(i - start + 1);
        assert(after.drop_last() =~= before);
        assert(after.last() == c);
        if !('0' <= c && c <= '9') {
            assert(digits[i - start] == c);
            assert(digit_value(digits[i - start]) is None);
            assert(!all_digits(digits));
            return None;
        }
        assert forall|k: int| 0 <= k < after.len() implies digit_value(#[trigger] after[k])
            is Some by {
            if k < before.len() {
                assert(before[k] == after[k]);
            }
        }
        let d: u64 = (c as u32 - '0' as u32) as u64;
        if !over {
            acc = acc * 10 + d;
            if acc > 0xFFFF_FFFF {
                over = true;
            }
        }
        i += 1;
    }
    assert(digits.take(s.len() - start) =~= digits);
    if over {
        None
    } else {
        Some(acc as u32)
    }
}

/// Reads the track number of a tag such as `3` or `3/12`.
pub fn parse_track_number(text: &str) -> (r: Option<u32>)
    ensures
        r == track_of(text@),
{
    let s = chars_of(text);
    let mut i: usize = 0;
    let mut found: bool = false;
    assert(s@.subrange(0, s.len() as int) =~= s@);
    while i < s.len() && !found
        invariant
            i <= s.len(),
            slash_at(s@) == i + slash_at(s@.subrange(i as int, s.len() as int)),
            found ==> i < s.len() && s@[i as int] == '/',
        decreases s.len() - i + (if found { 0int } else { 1int }),
    {
        let ghost rest = s@.subrange(i as int, s.len() as int);
        if s[i] == '/' {
            found = true;
        } else {
            assert(rest.drop_first() =~= s@.subrange(i + 1, s.len() as int));
            i += 1;
        }
    }
    let mut head: Vec<char> = Vec::new();
    crate::text::push_range(&mut head, &s, 0, i);
    assert(head@ =~= s@.take(i as int));
    parse_u32(crate::text::string_of(&head).as_str())
}

fn tag(tags: &Option<Tags>, key: &str) -> (r: Option<String>)
    ensures
        text_of(r) == tag_of(*tags, key@),
{
    match tags {
        Some(t) => AudioMetadata::get_tag_fuzzy(t, key),
        None => None,
    }
}

fn first_of(a: Option<String>, b: Option<String>) -> (r: Option<String>)
    ensures
        text_of(r) == or_else(text_of(a), text_of(b)),
{
    match a {
        Some(_) => a,
        None => b,
    }
}

fn track_among(tags: &Option<Tags>) -> (r: Option<u32>)
    ensures
        r == track_in(*tags),
{
    match tag(tags, "track") {
        Some(t) => parse_track_number(t.as_str()),
        None => None,
    }
}

fn number_in(text: &Option<String>) -> (r: Option<u32>)
    ensures
        r == match text_of(*text) {
            Some(t) => u32_of(t),
            None => None,
        },
{
    match text {
        Some(t) => parse_u32(t.as_str()),
        None => None,
    }
}

/// The position of the first audio stream.
pub fn first_audio_stream(streams: &Vec<ProbeStream>) -> (r: Option<usize>)
    ensures
        match r {
            Some(i) => i < streams.len() && audio_at(streams@) == Some(i as int),
            None => audio_at(streams@) is None,
        },
{
    let mut found: Option<usize> = None;
    let mut i: usize = 0;
    while i < streams.len()
        invariant
            i <= streams.len(),
            match found {
                Some(f) => f < i && audio_at(streams@.take(i as int)) == Some(f as int),
                None => audio_at(streams@.take(i as int)) is None,
            },
        decreases streams.len() - i,
    {
        assert(streams@.take(i + 1).drop_last() =~= streams@.take(i as int));
        if found.is_none() {
            let audio: bool = match &streams[i].codec_type {
                Some(t) => is_text(&chars_of(t.as_str()), "audio"),
                None => false,
            };
            if audio {
                found = Some(i);
            }
        }
        i += 1;
    }
    assert(streams@.take(streams.len() as int) =~= streams@);
    found
}

/// Builds the metadata record of a probed file. Codec, sample rate and
/// channels come from the first audio stream; every tag from that stream,
/// else from the container; bitrate and duration from the container. A
/// file without a title tag is titled by its base name.
pub fn metadata_from_probe(probe: &Probe) -> (r: AudioMetadata)
    ensures
        r.codec@ == match audio_at(probe.streams@) {
            Some(i) => match probe.streams@[i].codec_name {
                Some(name) => name@,
                None => "unknown"@,
            },
            None => Seq::<char>::empty(),
        },
        r.sample_rate == match audio_at(probe.streams@) {
            Some(i) => match text_of(probe.streams@[i].sample_rate) {
                Some(t) => u32_of(t),
                None => None,
            },
            None => None,
        },
        r.channels == match audio_at(probe.streams@) {
            Some(i) => match probe.streams@[i].channels {
                Some(n) => Some((n % 256) as u8),
                None => None,
            },
            None => None,
        },
        text_of(r.artist) == file_tag(*probe, "artist"@),
        text_of(r.album) == file_tag(*probe, "album"@),
        text_of(r.album_artist) == file_tag(*probe, "albumartist"@),
        text_of(r.genre) == file_tag(*probe, "genre"@),
        text_of(r.title) == or_else(file_tag(*probe, "title"@), text_of(probe.file_stem)),
        text_of(r.date) == or_else(date_of(stream_tags(*probe)), date_of(format_tags(*probe))),
        r.track_number == or_else(track_in(stream_tags(*probe)), track_in(format_tags(*probe))),
        r.bitrate == match probe.format {
            Some(f) => match text_of(f.bit_rate) {
                Some(t) => u32_of(t),
                None => None,
            },
            None => None,
        },
        r.duration_millis == match probe.format {
            Some(f) => f.duration_millis,
            None => None,
        },
        r.fingerprint is None,
        r.musicbrainz_recording_id is None,
        r.musicbrainz_release_id is None,
        probe.file_stem is Some ==> r.title is Some,
{
    let none_tags: Option<Tags> = None;
    let (codec, sample_rate, channels, from_stream): (
        String,
        Option<u32>,
        Option<u8>,
        &Option<Tags>,
    ) = match first_audio_stream(&probe.streams) {
        Some(i) => {
            let s = &probe.streams[i];
            let codec: String = match &s.codec_name {
                Some(name) => name.clone(),
                None => "unknown".to_owned(),
            };
            let channels: Option<u8> = match s.channels {
                Some(n) => Some((n % 256) as u8),
                None => None,
            };
            (codec, number_in(&s.sample_rate), channels, &s.tags)
        },
        None => (String::new(), None, None, &none_tags),
    };
    let (from_format, bitrate, duration_millis): (&Option<Tags>, Option<u32>, Option<u64>) =
        match &probe.format {
        Some(f) => (&f.tags, number_in(&f.bit_rate), f.duration_millis),
        None => (&none_tags, None, None),
    };
    let title = first_of(
        first_of(tag(from_stream, "title"), tag(from_format, "title")),
        probe.file_stem.clone(),
    );
    let track_number: Option<u32> = match track_among(from_stream) {
        Some(n) => Some(n),
        None => track_among(from_format),
    };
    AudioMetadata {
        artist: first_of(tag(from_stream, "artist"), tag(from_format, "artist")),
        album: first_of(tag(from_stream, "album"), tag(from_format, "album")),
        album_artist: first_of(tag(from_stream, "albumartist"), tag(from_format, "albumartist")),
        title,
        track_number,
        date: first_of(
            first_of(tag(from_stream, "date"), tag(from_stream, "year")),
            first_of(tag(from_format, "date"), tag(from_format, "year")),
        ),
        genre: first_of(tag(from_stream, "genre"), tag(from_format, "genre")),
        codec,
        bitrate,
        sample_rate,
        channels,
        duration_millis,
        fingerprint: None,
        musicbrainz_recording_id: None,
        musicbrainz_release_id: None,
    }
}

} // verus!
