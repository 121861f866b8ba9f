//! Names that are safe on disk, names that compare equal, and the file
//! extension rules that tell audio files from everything else.

use crate::text::{blank_punctuation, blank_punctuation_of, chars_of, collapse_spaces,
    collapse_spaces_of, decimal_of, is_whitespace_char, join_words, join_words_of, lowercase,
    lowercase_of, occurs_at, push_all, push_decimal, push_range, replace, replace_all, same_chars,
    string_of, trim, trim_end, trim_end_of, trim_of, trim_start_of, without_control,
    without_control_of};
use vstd::prelude::*;

verus! {

/// What `Path::extension` returns for a path with these characters, as text.
pub uninterp spec fn extension_of(path: Seq<char>) -> Option<Seq<char>>;

/// Trusted: `std::path::Path::extension` on the path `path`. The result is
/// named, not described: how a path splits into components is the standard
/// library's.
#[verifier::external_body]
fn path_extension(path: &str) -> (r: Option<String>)
    ensures
        match r {
            Some(e) => extension_of(path@) == Some(e@),
            None => extension_of(path@) is None,
        },
{
    std::path::Path::new(path).extension().and_then(|e| e.to_str()).map(|e| e.to_owned())
}

/// A name made safe for use as one path component.
pub open spec fn sanitized_of(s: Seq<char>) -> Seq<char> {
    let replaced = replace_all(replace_all(s, "/"@, "\u{2013}"@), "\\"@, "-"@);
    let collapsed = collapse_spaces_of(trim_of(without_control_of(replaced)));
    let stripped = trim_end_of(collapsed, true);
    if stripped.len() == 0 {
        "_unknown"@
    } else {
        stripped
    }
}

/// Every character of `out` occurs in `a` or in `b`.
pub open spec fn drawn_from(out: Seq<char>, a: Seq<char>, b: Seq<char>) -> bool {
    forall|i: int| 0 <= i < out.len() ==> a.contains(#[trigger] out[i]) || b.contains(out[i])
}

/// A replacement yields only characters of the text and of what is put in.
pub proof fn lemma_replace_draws(s: Seq<char>, pat: Seq<char>, to: Seq<char>)
    ensures
        drawn_from(replace_all(s, pat, to), s, to),
    decreases s.len(),
{
    let out = replace_all(s, pat, to);
    if pat.len() == 0 || s.len() < pat.len() {
        assert forall|i: int| 0 <= i < out.len() implies s.contains(#[trigger] out[i]) by {
            assert(s[i] == out[i]);
        }
    } else if occurs_at(s, 0, pat) {
        let rest = s.subrange(pat.len() as int, s.len() as int);
        lemma_replace_draws(rest, pat, to);
        let tail = replace_all(rest, pat, to);
        assert forall|i: int| 0 <= i < out.len() implies s.contains(#[trigger] out[i])
            || to.contains(out[i]) by {
            if i < to.len() {
                assert(to[i] == out[i]);
            } else {
                let k = i - to.len();
                assert(tail[k] == out[i]);
                if rest.contains(tail[k]) {
                    let j = choose|j: int| 0 <= j < rest.len() && rest[j] == tail[k];
                    assert(s[j + pat.len()] == tail[k]);
                }
            }
        }
    } else {
        let rest = s.subrange(1, s.len() as int);
        lemma_replace_draws(rest, pat, to);
        let tail = replace_all(rest, pat, to);
        assert forall|i: int| 0 <= i < out.len() implies s.contains(#[trigger] out[i])
            || to.contains(out[i]) by {
            if i == 0 {
                assert(s[0] == out[i]);
            } else {
                let k = i - 1;
                assert(tail[k] == out[i]);
                if rest.contains(tail[k]) {
                    let j = choose|j: int| 0 <= j < rest.len() && rest[j] == tail[k];
                    assert(s[j + 1] == tail[k]);
                }
            }
        }
    }
}

/// Replacing a single character leaves none of it, unless it is put back.
pub proof fn lemma_replace_removes(s: Seq<char>, c: char, to: Seq<char>)
    requires
        !to.contains(c),
    ensures
        !replace_all(s, seq![c], to).contains(c),
    decreases s.len(),
{
    let pat = seq![c];
    let out = replace_all(s, pat, to);
    if s.len() >= 1 {
        let rest = s.subrange(1, s.len() as int);
        lemma_replace_removes(rest, c, to);
        let tail = replace_all(rest, pat, to);
        if occurs_at(s, 0, pat) {
            assert(out == to + tail);
            if out.contains(c) {
                let i = choose|i: int| 0 <= i < out.len() && out[i] == c;
                if i < to.len() {
                    assert(to[i] == c);
                } else {
                    assert(tail[i - to.len()] == c);
                }
            }
        } else {
            assert(s.subrange(0, 1) =~= seq![s[0]]);
            assert(s[0] != c);
            if out.contains(c) {
                let i = choose|i: int| 0 <= i < out.len() && out[i] == c;
                if i > 0 {
                    assert(tail[i - 1] == c);
                }
            }
        }
    } else {
        assert(out == s);
    }
}

/// Dropping control characters, trimming, and collapsing spaces yield only
/// characters of the text, and no control character is left.
pub proof fn lemma_tidy_draws(s: Seq<char>)
    ensures
        drawn_from(without_control_of(s), s, s),
        forall|i: int|
            0 <= i < without_control_of(s).len() ==> (#[trigger] without_control_of(s)[i]) as u32
                >= 0x20,
        drawn_from(collapse_spaces_of(s), s, s),
        drawn_from(trim_start_of(s), s, s),
        drawn_from(trim_end_of(s, true), s, s),
        drawn_from(trim_end_of(s, false), s, s),
        trim_end_of(s, false).len() > 0 ==> !is_whitespace_char(trim_end_of(s, false).last()),
        trim_end_of(s, true).len() > 0 ==> !is_whitespace_char(trim_end_of(s, true).last())
            && trim_end_of(s, true).last() != '.',
    decreases s.len(),
{
    if s.len() > 0 {
        let init = s.drop_last();
        lemma_tidy_draws(init);
        lemma_tidy_draws(s.drop_first());
        assert forall|c: char| init.contains(c) implies s.contains(c) by {
            let j = choose|j: int| 0 <= j < init.len() && init[j] == c;
            assert(s[j] == c);
        }
        assert forall|c: char| s.drop_first().contains(c) implies s.contains(c) by {
            let j = choose|j: int| 0 <= j < s.drop_first().len() && s.drop_first()[j] == c;
            assert(s[j + 1] == c);
        }
        assert(s.contains(s.last())) by {
            assert(s[s.len() - 1] == s.last());
        }
        assert forall|i: int| 0 <= i < s.len() implies s.contains(#[trigger] s[i]) by {}
    }
}

/// A sanitised name holds no path separator and no control character, is
/// not empty, and ends in neither whitespace nor a period: as one path
/// component it names an entry of its directory and nothing outside.
pub proof fn lemma_sanitized_is_safe(s: Seq<char>)
    ensures
        sanitized_of(s).len() > 0,
        !sanitized_of(s).contains('/'),
        !sanitized_of(s).contains('\\'),
        forall|i: int| 0 <= i < sanitized_of(s).len() ==> (#[trigger] sanitized_of(s)[i]) as u32
            >= 0x20,
        !is_whitespace_char(sanitized_of(s).last()),
        sanitized_of(s).last() != '.',
{
    reveal_strlit("_unknown");
    reveal_strlit("/");
    reveal_strlit("\\");
    reveal_strlit("-");
    reveal_strlit("\u{2013}");
    let dash = "\u{2013}"@;
    let hyphen = "-"@;
    assert("/"@ =~= seq!['/']);
    assert("\\"@ =~= seq!['\\']);
    assert(dash =~= seq!['\u{2013}']);
    assert(hyphen =~= seq!['-']);
    let a = replace_all(s, "/"@, dash);
    let b = replace_all(a, "\\"@, hyphen);
    let c = without_control_of(b);
    let d = trim_start_of(c);
    let e = trim_end_of(d, false);
    let f = collapse_spaces_of(e);
    let h = trim_end_of(f, true);
    assert(!dash.contains('/')) by {
        if dash.contains('/') {
            let i = choose|i: int| 0 <= i < dash.len() && dash[i] == '/';
        }
    }
    assert(!hyphen.contains('/') && !hyphen.contains('\\')) by {
        if hyphen.contains('/') {
            let i = choose|i: int| 0 <= i < hyphen.len() && hyphen[i] == '/';
        }
        if hyphen.contains('\\') {
            let i = choose|i: int| 0 <= i < hyphen.len() && hyphen[i] == '\\';
        }
    }
    lemma_replace_removes(s, '/', dash);
    lemma_replace_removes(a, '\\', hyphen);
    lemma_replace_draws(a, "\\"@, hyphen);
    assert(!b.contains('/')) by {
        if b.contains('/') {
            let i = choose|i: int| 0 <= i < b.len() && b[i] == '/';
            assert(a.contains(b[i]) || hyphen.contains(b[i]));
        }
    }
    lemma_tidy_draws(b);
    lemma_tidy_draws(c);
    lemma_tidy_draws(d);
    lemma_tidy_draws(e);
    lemma_tidy_draws(f);
    assert forall|i: int| 0 <= i < h.len() implies b.contains(#[trigger] h[i]) && h[i] as u32
        >= 0x20 by {
        assert(f.contains(h[i]));
        let i2 = choose|j: int| 0 <= j < f.len() && f[j] == h[i];
        assert(e.contains(f[i2]));
        let i3 = choose|j: int| 0 <= j < e.len() && e[j] == h[i];
        assert(d.contains(e[i3]));
        let i4 = choose|j: int| 0 <= j < d.len() && d[j] == h[i];
        assert(c.contains(d[i4]));
        let i5 = choose|j: int| 0 <= j < c.len() && c[j] == h[i];
        assert(c[i5] as u32 >= 0x20);
        assert(b.contains(c[i5]));
    }
    if h.len() > 0 {
        assert(sanitized_of(s) == h);
        if h.contains('/') {
            let i = choose|i: int| 0 <= i < h.len() && h[i] == '/';
            assert(b.contains(h[i]));
        }
        if h.contains('\\') {
            let i = choose|i: int| 0 <= i < h.len() && h[i] == '\\';
            assert(b.contains(h[i]));
        }
    } else {
        let u = "_unknown"@;
        assert(sanitized_of(s) == u);
        assert(u.len() == 8);
        assert(u[0] == '_' && u[1] == 'u' && u[2] == 'n' && u[3] == 'k' && u[4] == 'n' && u[5]
            == 'o' && u[6] == 'w' && u[7] == 'n');
        if u.contains('/') {
            let i = choose|i: int| 0 <= i < u.len() && u[i] == '/';
        }
        if u.contains('\\') {
            let i = choose|i: int| 0 <= i < u.len() && u[i] == '\\';
        }
    }
}

/// No two neighbours in `s` are both spaces.
pub open spec fn single_spaced(s: Seq<char>) -> bool {
    forall|i: int| 0 <= i < s.len() - 1 ==> !(#[trigger] s[i] == ' ' && s[i + 1] == ' ')
}

/// A text that is already tidy: not empty, without separators and control
/// characters, without whitespace at its start, without runs of spaces, and
/// ending in neither whitespace nor a period.
pub open spec fn is_tidy(r: Seq<char>) -> bool {
    &&& r.len() > 0
    &&& !r.contains('/')
    &&& !r.contains('\\')
    &&& forall|i: int| 0 <= i < r.len() ==> (#[trigger] r[i]) as u32 >= 0x20
    &&& !is_whitespace_char(r[0])
    &&& single_spaced(r)
    &&& !is_whitespace_char(r.last())
    &&& r.last() != '.'
}

/// Replacing a character that does not occur changes nothing.
pub proof fn lemma_replace_absent(s: Seq<char>, c: char, to: Seq<char>)
    requires
        !s.contains(c),
    ensures
        replace_all(s, seq![c], to) == s,
    decreases s.len(),
{
    if s.len() >= 1 {
        let rest = s.subrange(1, s.len() as int);
        assert(s[0] != c) by {
            if s[0] == c {
                assert(s.contains(c));
            }
        }
        assert(s.subrange(0, 1)[0] == s[0]);
        assert(!occurs_at(s, 0, seq![c]));
        assert(!rest.contains(c)) by {
            if rest.contains(c) {
                let j = choose|j: int| 0 <= j < rest.len() && rest[j] == c;
                assert(s[j + 1] == c);
            }
        }
        lemma_replace_absent(rest, c, to);
        assert(seq![s[0]] + rest =~= s);
    }
}

/// Dropping control characters from a text that has none changes nothing.
pub proof fn lemma_without_control_keeps(s: Seq<char>)
    requires
        forall|i: int| 0 <= i < s.len() ==> (#[trigger] s[i]) as u32 >= 0x20,
    ensures
        without_control_of(s) == s,
    decreases s.len(),
{
    if s.len() > 0 {
        let init = s.drop_last();
        assert forall|i: int| 0 <= i < init.len() implies (#[trigger] init[i]) as u32 >= 0x20 by {
            assert(init[i] == s[i]);
        }
        lemma_without_control_keeps(init);
        assert(s.last() == s[s.len() - 1]);
        assert(init.push(s.last()) =~= s);
    }
}

/// Collapsing spaces keeps the first and the last character, leaves no two
/// spaces side by side, and changes nothing in a text that has none.
pub proof fn lemma_collapse(s: Seq<char>)
    ensures
        single_spaced(collapse_spaces_of(s)),
        s.len() > 0 ==> collapse_spaces_of(s).len() > 0 && collapse_spaces_of(s)[0] == s[0]
            && collapse_spaces_of(s).last() == s.last(),
        s.len() == 0 ==> collapse_spaces_of(s).len() == 0,
        single_spaced(s) ==> collapse_spaces_of(s) == s,
    decreases s.len(),
{
    if s.len() > 0 {
        let init = s.drop_last();
        lemma_collapse(init);
        let ci = collapse_spaces_of(init);
        let out = collapse_spaces_of(s);
        if init.len() > 0 {
            assert(init[0] == s[0]);
            assert(init.last() == s[s.len() - 2]);
        }
        if single_spaced(s) {
            assert forall|i: int| 0 <= i < init.len() - 1 implies !(#[trigger] init[i] == ' '
                && init[i + 1] == ' ') by {
                assert(init[i] == s[i] && init[i + 1] == s[i + 1]);
            }
            if s.len() >= 2 {
                assert(!(s[s.len() - 2] == ' ' && s[s.len() - 2 + 1] == ' '));
            }
            assert(init.push(s.last()) =~= s);
        }
        if !(s.last() == ' ' && s.len() >= 2 && s[s.len() - 2] == ' ') {
            assert(out == ci.push(s.last()));
            assert forall|i: int| 0 <= i < out.len() - 1 implies !(#[trigger] out[i] == ' '
                && out[i + 1] == ' ') by {
                if i < ci.len() - 1 {
                    assert(out[i] == ci[i] && out[i + 1] == ci[i + 1]);
                } else {
                    assert(out[i] == ci.last());
                    assert(out[i + 1] == s.last());
                }
            }
        }
    }
}

/// Trimming at the end leaves a prefix, and trimming at the start leaves a
/// text that does not begin with whitespace.
pub proof fn lemma_trims(s: Seq<char>, periods: bool)
    ensures
        trim_end_of(s, periods).len() <= s.len(),
        trim_end_of(s, periods) == s.take(trim_end_of(s, periods).len() as int),
        trim_start_of(s).len() == 0 || !is_whitespace_char(trim_start_of(s)[0]),
    decreases s.len(),
{
    if s.len() > 0 {
        let init = s.drop_last();
        lemma_trims(init, periods);
        lemma_trims(s.drop_first(), periods);
        let n = trim_end_of(init, periods).len() as int;
        assert(init.take(n) =~= s.take(n));
        assert(s.take(s.len() as int) =~= s);
    } else {
        assert(s.take(0) =~= s);
    }
}

/// Making a tidy text safe changes nothing.
pub proof fn lemma_tidy_is_fixed(r: Seq<char>)
    requires
        is_tidy(r),
    ensures
        sanitized_of(r) == r,
{
    reveal_strlit("/");
    reveal_strlit("\\");
    assert("/"@ =~= seq!['/']);
    assert("\\"@ =~= seq!['\\']);
    lemma_replace_absent(r, '/', "\u{2013}"@);
    lemma_replace_absent(r, '\\', "-"@);
    lemma_without_control_keeps(r);
    assert(trim_start_of(r) == r);
    assert(trim_end_of(r, false) == r);
    lemma_collapse(r);
    assert(trim_end_of(r, true) == r);
}

/// A sanitised name is tidy, so sanitising it again gives the same name.
pub proof fn lemma_sanitize_idempotent(s: Seq<char>)
    ensures
        is_tidy(sanitized_of(s)),
        sanitized_of(sanitized_of(s)) == sanitized_of(s),
{
    lemma_sanitized_is_safe(s);
    let a = replace_all(s, "/"@, "\u{2013}"@);
    let b = replace_all(a, "\\"@, "-"@);
    let c = without_control_of(b);
    let d = trim_start_of(c);
    let e = trim_end_of(d, false);
    let f = collapse_spaces_of(e);
    let h = trim_end_of(f, true);
    let r = sanitized_of(s);
    if h.len() > 0 {
        assert(r == h);
        lemma_trims(c, false);
        lemma_trims(d, false);
        lemma_trims(f, true);
        lemma_collapse(e);
        assert(f.len() > 0);
        assert(e.len() > 0);
        assert(h[0] == f[0]);
        assert(e[0] == d[0]);
        assert forall|i: int| 0 <= i < h.len() - 1 implies !(#[trigger] h[i] == ' ' && h[i + 1]
            == ' ') by {
            assert(h[i] == f[i] && h[i + 1] == f[i + 1]);
        }
    } else {
        reveal_strlit("_unknown");
        let u = "_unknown"@;
        assert(r == u);
        assert(u.len() == 8);
        assert(u[0] == '_' && u[1] == 'u' && u[2] == 'n' && u[3] == 'k' && u[4] == 'n' && u[5]
            == 'o' && u[6] == 'w' && u[7] == 'n');
    }
    lemma_tidy_is_fixed(r);
}

/// Number of bytes of the UTF-8 encoding of one character.
pub open spec fn char_width_of(c: char) -> nat {
    if (c as u32) < 0x80 {
        1
    } else if (c as u32) < 0x800 {
        2
    } else if (c as u32) < 0x10000 {
        3
    } else {
        4
    }
}

/// Number of bytes of the UTF-8 encoding of a text.
pub open spec fn utf8_len_of(s: Seq<char>) -> nat
    decreases s.len(),
{
    if s.len() == 0 {
        0
    } else {
        utf8_len_of(s.drop_last()) + char_width_of(s.last())
    }
}

/// `r` is the longest prefix of `s` made of whole characters that takes at
/// most `max` bytes.
pub open spec fn is_clamp_of(r: Seq<char>, s: Seq<char>, max: nat) -> bool {
    &&& r.len() <= s.len()
    &&& r == s.take(r.len() as int)
    &&& utf8_len_of(r) <= max
    &&& r.len() < s.len() ==> utf8_len_of(s.take(r.len() + 1 as int)) > max
}

/// The longest prefix of `s` made of whole characters that takes at most
/// `max` bytes.
pub open spec fn clamped_of(s: Seq<char>, max: nat) -> Seq<char>
    decreases s.len(),
{
    if s.len() == 0 || utf8_len_of(s) <= max {
        s
    } else {
        clamped_of(s.drop_last(), max)
    }
}

/// A prefix never takes more bytes than the whole text.
pub proof fn lemma_prefix_is_shorter(s: Seq<char>, i: int)
    requires
        0 <= i <= s.len(),
    ensures
        utf8_len_of(s.take(i)) <= utf8_len_of(s),
    decreases s.len(),
{
    if i == s.len() {
        assert(s.take(i) =~= s);
    } else {
        lemma_prefix_is_shorter(s.drop_last(), i);
        assert(s.drop_last().take(i) =~= s.take(i));
    }
}

/// The prefix that fits while one more character would not is the clamped
/// text.
pub proof fn lemma_clamped_is_longest_fit(s: Seq<char>, i: int, max: nat)
    requires
        0 <= i <= s.len(),
        utf8_len_of(s.take(i)) <= max,
        i < s.len() ==> utf8_len_of(s.take(i + 1)) > max,
    ensures
        clamped_of(s, max) == s.take(i),
        is_clamp_of(s.take(i), s, max),
    decreases s.len(),
{
    assert(s.take(i).take(i) =~= s.take(i));
    if i == s.len() {
        assert(s.take(i) =~= s);
    } else {
        lemma_prefix_is_shorter(s, i + 1);
        let init = s.drop_last();
        assert(init.take(i) =~= s.take(i));
        if i < init.len() {
            assert(init.take(i + 1) =~= s.take(i + 1));
        }
        lemma_clamped_is_longest_fit(init, i, max);
    }
}

/// The text by which two names are compared.
pub open spec fn comparison_form_of(s: Seq<char>) -> Seq<char> {
    let a = replace_all(replace_all(lowercase_of(s), "\u{2019}"@, "'"@), "\u{2018}"@, "'"@);
    let b = replace_all(a, "&"@, "and"@);
    let c = replace_all(b, "'s "@, " "@);
    let d = replace_all(c, "'t "@, "t "@);
    let e = replace_all(d, "'re "@, "re "@);
    let f = replace_all(e, "'ve "@, "ve "@);
    let g = replace_all(f, "'ll "@, "ll "@);
    let h = replace_all(g, "'d "@, "d "@);
    let i = replace_all(h, "'m "@, "m "@);
    join_words_of(blank_punctuation_of(i))
}

/// A file or folder name with tidy apostrophes, case and spacing.
pub open spec fn normalized_name_of(name: Seq<char>, lower: bool) -> Seq<char> {
    let a = replace_all(name, "\u{2019}"@, "'"@);
    let b = if lower {
        lowercase_of(a)
    } else {
        a
    };
    trim_of(collapse_spaces_of(b))
}

/// The lower-cased extension of a path.
pub open spec fn lower_extension_of(path: Seq<char>) -> Option<Seq<char>> {
    match extension_of(path) {
        Some(e) => Some(lowercase_of(e)),
        None => None,
    }
}

/// The lower-case extensions that count as audio.
pub open spec fn is_audio_extension(ext: Seq<char>) -> bool {
    ext == "flac"@ || ext == "opus"@ || ext == "ogg"@ || ext == "mp3"@ || ext == "m4a"@ || ext
        == "aac"@ || ext == "wav"@ || ext == "aiff"@ || ext == "aif"@ || ext == "wma"@ || ext
        == "alac"@
}

/// A file name split before its last period: `(base, extension with the
/// period)`, or the whole name and nothing where it has no period.
pub open spec fn split_name_of(name: Seq<char>) -> (Seq<char>, Seq<char>)
    decreases name.len(),
{
    if name.len() == 0 {
        (name, name)
    } else if name.last() == '.' {
        (name.drop_last(), seq!['.'])
    } else {
        let (base, ext) = split_name_of(name.drop_last());
        if ext.len() == 0 {
            (name, ext)
        } else {
            (base, ext.push(name.last()))
        }
    }
}

/// The `n`-th alternative for a file name that is taken: `base (n).ext`.
pub open spec fn numbered_name_of(name: Seq<char>, n: nat) -> Seq<char> {
    let (base, ext) = split_name_of(name);
    base + " ("@ + decimal_of(n) + ")"@ + ext
}

/// Whether the text `s` equals the literal `lit`.
pub fn is_text(s: &Vec<char>, lit: &str) -> (r: bool)
    ensures
        r == (s@ == lit@),
{
    same_chars(s, &chars_of(lit))
}

/// Makes a string safe for use as a file or folder name: path separators are
/// replaced, control characters dropped, whitespace trimmed and runs of
/// spaces collapsed, trailing periods and whitespace stripped. The result
/// is never empty, holds no separator and ends in neither a period nor
/// whitespace; sanitising it again changes nothing.
pub fn sanitize(s: &str) -> (r: String)
    ensures
        r@ == sanitized_of(s@),
        r@.len() > 0,
        r@.last() != '.',
        !is_whitespace_char(r@.last()),
        !r@.contains('/'),
        !r@.contains('\\'),
        sanitized_of(r@) == r@,
{
    proof {
        reveal_strlit("_unknown");
        lemma_sanitized_is_safe(s@);
        lemma_sanitize_idempotent(s@);
    }
    let chars = chars_of(s);
    let a = replace(&chars, &chars_of("/"), &chars_of("\u{2013}"));
    let b = replace(&a, &chars_of("\\"), &chars_of("-"));
    let c = without_control(&b);
    let d = trim(&c);
    let e = collapse_spaces(&d);
    let g = trim_end(&e, true);
    if g.len() == 0 {
        "_unknown".to_owned()
    } else {
        string_of(&g)
    }
}

/// Number of bytes that the UTF-8 encoding of `c` takes.
pub fn char_width(c: char) -> (r: usize)
    ensures
        r == char_width_of(c),
        1 <= r <= 4,
{
    let v: u32 = c as u32;
    if v < 0x80 {
        1
    } else if v < 0x800 {
        2
    } else if v < 0x10000 {
        3
    } else {
        4
    }
}

/// Cuts a name to at most `max_len` bytes without splitting a character.
pub fn clamp_component(s: &str, max_len: usize) -> (r: String)
    ensures
        r@ == clamped_of(s@, max_len as nat),
        is_clamp_of(r@, s@, max_len as nat),
{
    let chars = chars_of(s);
    let mut bytes: usize = 0;
    let mut i: usize = 0;
    let mut full: bool = false;
    while i < chars.len() && !full
        invariant
            i <= chars.len(),
            bytes == utf8_len_of(chars@.take(i as int)),
            bytes <= max_len,
            full ==> i < chars.len() && utf8_len_of(chars@.take(i + 1)) > max_len,
        decreases chars.len() - i + (if full { 0int } else { 1int }),
    {
        let w: usize = char_width(chars[i]);
        assert(chars@.take(i + 1).drop_last() =~= chars@.take(i as int));
        if w > max_len - bytes {
            full = true;
        } else {
            bytes += w;
            i += 1;
        }
    }
    let mut out: Vec<char> = Vec::new();
    push_range(&mut out, &chars, 0, i);
    assert(out@ =~= chars@.take(i as int));
    proof {
        lemma_clamped_is_longest_fit(chars@, i as int, max_len as nat);
    }
    string_of(&out)
}

/// Reduces a name to what counts when two names are compared: lower case,
/// apostrophes and punctuation removed, words separated by single spaces.
pub fn normalize_for_comparison(s: &str) -> (r: String)
    ensures
        r@ == comparison_form_of(s@),
{
    let lower = chars_of(lowercase(s).as_str());
    let a1 = replace(&lower, &chars_of("\u{2019}"), &chars_of("'"));
    let a = replace(&a1, &chars_of("\u{2018}"), &chars_of("'"));
    let b = replace(&a, &chars_of("&"), &chars_of("and"));
    let c = replace(&b, &chars_of("'s "), &chars_of(" "));
    let d = replace(&c, &chars_of("'t "), &chars_of("t "));
    let e = replace(&d, &chars_of("'re "), &chars_of("re "));
    let f = replace(&e, &chars_of("'ve "), &chars_of("ve "));
    let g = replace(&f, &chars_of("'ll "), &chars_of("ll "));
    let h = replace(&g, &chars_of("'d "), &chars_of("d "));
    let i = replace(&h, &chars_of("'m "), &chars_of("m "));
    string_of(&join_words(&blank_punctuation(&i)))
}

/// Whether the path's extension, in any case, is one of the audio
/// extensions.
pub fn is_audio_file(path: &str) -> (r: bool)
    ensures
        r == match lower_extension_of(path@) {
            Some(e) => is_audio_extension(e),
            None => false,
        },
{
    match get_extension(path) {
        Some(ext) => {
            let e = chars_of(ext.as_str());
            is_text(&e, "flac") || is_text(&e, "opus") || is_text(&e, "ogg") || is_text(&e, "mp3")
                || is_text(&e, "m4a") || is_text(&e, "aac") || is_text(&e, "wav") || is_text(
                &e,
                "aiff",
            ) || is_text(&e, "aif") || is_text(&e, "wma") || is_text(&e, "alac")
        },
        None => false,
    }
}

/// The path's extension in lower case, if it has one.
pub fn get_extension(path: &str) -> (r: Option<String>)
    ensures
        match r {
            Some(e) => lower_extension_of(path@) == Some(e@),
            None => lower_extension_of(path@) is None,
        },
{
    match path_extension(path) {
        Some(e) => Some(lowercase(e.as_str())),
        None => None,
    }
}

/// Straightens curly apostrophes, optionally lower-cases, collapses runs of
/// spaces and trims.
pub fn normalize_name(name: &str, lowercase_all: bool) -> (r: String)
    ensures
        r@ == normalized_name_of(name@, lowercase_all),
{
    let a = replace(&chars_of(name), &chars_of("\u{2019}"), &chars_of("'"));
    let b = if lowercase_all {
        chars_of(lowercase(string_of(&a).as_str()).as_str())
    } else {
        a
    };
    string_of(&trim(&collapse_spaces(&b)))
}

/// Splits a file name before its last period.
pub fn split_name(name: &Vec<char>) -> (r: (Vec<char>, Vec<char>))
    ensures
        (r.0@, r.1@) == split_name_of(name@),
{
    let mut dot: usize = 0;
    let mut found: bool = false;
    let mut i: usize = 0;
    while i < name.len()
        invariant
            i <= name.len(),
            found ==> dot < i,
            found ==> split_name_of(name@.take(i as int)) == (
                name@.take(dot as int),
                name@.subrange(dot as int, i as int),
            ),
            !found ==> split_name_of(name@.take(i as int)) == (
                name@.take(i as int),
                Seq::<char>::empty(),
            ),
        decreases name.len() - i,
    {
        assert(name@.take(i + 1).drop_last() =~= name@.take(i as int));
        if name[i] == '.' {
            dot = i;
            found = true;
            assert(name@.subrange(i as int, i + 1) =~= seq!['.']);
        } else if found {
            assert(name@.subrange(dot as int, i + 1) =~= name@.subrange(dot as int, i as int).push(
                name@[i as int],
            ));
        } else {
            assert(name@.take(i as int).len() == 0 ==> i == 0);
        }
        i += 1;
    }
    assert(name@.take(name.len() as int) =~= name@);
    let mut base: Vec<char> = Vec::new();
    let mut ext: Vec<char> = Vec::new();
    if found {
        push_range(&mut base, name, 0, dot);
        push_range(&mut ext, name, dot, name.len());
        assert(base@ =~= name@.take(dot as int));
        assert(ext@ =~= name@.subrange(dot as int, name.len() as int));
    } else {
        push_range(&mut base, name, 0, name.len());
        assert(base@ =~= name@);
        assert(ext@ =~= Seq::<char>::empty());
    }
    (base, ext)
}

/// The `n`-th alternative for a file name that is already taken: the number
/// goes in parentheses before the extension.
pub fn numbered_name(name: &str, n: u32) -> (r: String)
    ensures
        r@ == numbered_name_of(name@, n as nat),
{
    let (base, ext) = split_name(&chars_of(name));
    let mut out: Vec<char> = Vec::new();
    push_all(&mut out, &base);
    push_all(&mut out, &chars_of(" ("));
    push_decimal(&mut out, n as u64);
    push_all(&mut out, &chars_of(")"));
    push_all(&mut out, &ext);
    assert(out@ =~= base@ + " ("@ + decimal_of(n as nat) + ")"@ + ext@);
    string_of(&out)
}

} // verus!
