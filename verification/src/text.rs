//! Character-level text operations shared by the naming and scoring rules.
//!
//! Strings are viewed as sequences of `char`. The Unicode tables of the
//! standard library stay behind small trusted functions; everything else is
//! proved against a recursive statement of what it returns.

use vstd::prelude::*;

verus! {

/// What `str::to_lowercase` returns for a string with these characters.
pub uninterp spec fn lowercase_of(s: Seq<char>) -> Seq<char>;

/// What `char::is_alphanumeric` returns for this character.
pub uninterp spec fn is_alphanumeric_char(c: char) -> bool;

/// Whether a character is whitespace: one of the characters with the
/// Unicode property `White_Space`.
pub open spec fn is_whitespace_char(c: char) -> bool {
    let v = c as u32;
    (0x09 <= v && v <= 0x0D) || v == 0x20 || v == 0x85 || v == 0xA0 || v == 0x1680 || (0x2000 <= v
        && v <= 0x200A) || v == 0x2028 || v == 0x2029 || v == 0x202F || v == 0x205F || v == 0x3000
}

/// The characters of `s`, in order.
pub fn chars_of(s: &str) -> (r: Vec<char>)
    ensures
        r@ == s@,
{
    broadcast use vstd::string::axiom_spec_iter;

    let mut out: Vec<char> = Vec::new();
    for c in it: s.chars()
        invariant
            out@ == it.history(),
            it.seq() == s@,
    {
        out.push(c);
    }
    out
}

/// Trusted: `String::from_iter` over the characters of `v`. The string holds
/// exactly those characters in order.
#[verifier::external_body]
pub(crate) fn string_of(v: &Vec<char>) -> (r: String)
    ensures
        r@ == v@,
{
    v.iter().collect()
}

/// Trusted: `str::to_lowercase`. The result is named, not described: the
/// Unicode case mapping is the standard library's.
#[verifier::external_body]
pub(crate) fn lowercase(s: &str) -> (r: String)
    ensures
        r@ == lowercase_of(s@),
{
    s.to_lowercase()
}

/// Trusted: `char::is_alphanumeric`.
#[verifier::external_body]
pub(crate) fn is_alphanumeric(c: char) -> (r: bool)
    ensures
        r == is_alphanumeric_char(c),
{
    c.is_alphanumeric()
}

/// Trusted: `char::is_whitespace`, which tells whether a character has the
/// Unicode property `White_Space`; the contract lists those characters.
#[verifier::external_body]
pub(crate) fn is_whitespace(c: char) -> (r: bool)
    ensures
        r == is_whitespace_char(c),
{
    c.is_whitespace()
}

/// `pat` occurs in `s` starting at index `i`.
pub open spec fn occurs_at(s: Seq<char>, i: int, pat: Seq<char>) -> bool {
    0 <= i && i + pat.len() <= s.len() && s.subrange(i, i + pat.len()) == pat
}

/// `pat` occurs somewhere in `s`.
pub open spec fn is_substring(s: Seq<char>, pat: Seq<char>) -> bool {
    exists|i: int| occurs_at(s, i, pat)
}

/// `s` with every occurrence of the non-empty `pat` replaced by `to`,
/// occurrences taken left to right without overlap.
pub open spec fn replace_all(s: Seq<char>, pat: Seq<char>, to: Seq<char>) -> Seq<char>
    decreases s.len(),
{
    if pat.len() == 0 || s.len() < pat.len() {
        s
    } else if occurs_at(s, 0, pat) {
        to + replace_all(s.subrange(pat.len() as int, s.len() as int), pat, to)
    } else {
        seq![s[0]] + replace_all(s.subrange(1, s.len() as int), pat, to)
    }
}

/// Which characters a trim removes: whitespace, and periods too where
/// asked.
pub open spec fn is_trimmed(periods: bool, c: char) -> bool {
    is_whitespace_char(c) || (periods && c == '.')
}

/// `s` without its longest suffix of trimmed characters.
pub open spec fn trim_end_of(s: Seq<char>, periods: bool) -> Seq<char>
    decreases s.len(),
{
    if s.len() > 0 && is_trimmed(periods, s.last()) {
        trim_end_of(s.drop_last(), periods)
    } else {
        s
    }
}

/// `s` without its longest prefix of whitespace.
pub open spec fn trim_start_of(s: Seq<char>) -> Seq<char>
    decreases s.len(),
{
    if s.len() > 0 && is_whitespace_char(s[0]) {
        trim_start_of(s.drop_first())
    } else {
        s
    }
}

/// `s` without leading and trailing whitespace.
pub open spec fn trim_of(s: Seq<char>) -> Seq<char> {
    trim_end_of(trim_start_of(s), false)
}

/// `s` with each run of ASCII spaces shortened to its first space.
pub open spec fn collapse_spaces_of(s: Seq<char>) -> Seq<char>
    decreases s.len(),
{
    if s.len() == 0 {
        s
    } else if s.last() == ' ' && s.len() >= 2 && s[s.len() - 2] == ' ' {
        collapse_spaces_of(s.drop_last())
    } else {
        collapse_spaces_of(s.drop_last()).push(s.last())
    }
}

/// The whitespace-separated words of `s`, joined by single spaces.
pub open spec fn join_words_of(s: Seq<char>) -> Seq<char>
    decreases s.len(),
{
    if s.len() == 0 {
        s
    } else if is_whitespace_char(s.last()) {
        join_words_of(s.drop_last())
    } else {
        let init = join_words_of(s.drop_last());
        if init.len() > 0 && s.len() >= 2 && is_whitespace_char(s[s.len() - 2]) {
            init.push(' ').push(s.last())
        } else {
            init.push(s.last())
        }
    }
}

/// The decimal digit for `d < 10`.
pub open spec fn digit_of(d: nat) -> char {
    if d == 0 {
        '0'
    } else if d == 1 {
        '1'
    } else if d == 2 {
        '2'
    } else if d == 3 {
        '3'
    } else if d == 4 {
        '4'
    } else if d == 5 {
        '5'
    } else if d == 6 {
        '6'
    } else if d == 7 {
        '7'
    } else if d == 8 {
        '8'
    } else {
        '9'
    }
}

/// The decimal numeral of `n`, without leading zeros.
pub open spec fn decimal_of(n: nat) -> Seq<char>
    decreases n,
{
    if n < 10 {
        seq![digit_of(n)]
    } else {
        decimal_of(n / 10).push(digit_of(n % 10))
    }
}

/// Whether two character vectors hold the same text.
pub fn same_chars(a: &Vec<char>, b: &Vec<char>) -> (r: bool)
    ensures
        r == (a@ == b@),
{
    if a.len() != b.len() {
        return false;
    }
    let mut i: usize = 0;
    while i < a.len()
        invariant
            i <= a.len(),
            a.len() == b.len(),
            forall|j: int| 0 <= j < i ==> a@[j] == b@[j],
        decreases a.len() - i,
    {
        if a[i] != b[i] {
            return false;
        }
        i += 1;
    }
    assert(a@ =~= b@);
    true
}

/// Whether `pat` occurs in `s` at index `i`.
pub fn matches_at(s: &Vec<char>, i: usize, pat: &Vec<char>) -> (r: bool)
    ensures
        r == occurs_at(s@, i as int, pat@),
{
    if pat.len() > s.len() || i > s.len() - pat.len() {
        return false;
    }
    let mut k: usize = 0;
    while k < pat.len()
        invariant
            k <= pat.len(),
            i + pat.len() <= s.len(),
            forall|j: int| 0 <= j < k ==> s@[i + j] == pat@[j],
        decreases pat.len() - k,
    {
        if s[i + k] != pat[k] {
            assert(s@.subrange(i as int, i + pat.len())[k as int] == s@[i + k]);
            return false;
        }
        k += 1;
    }
    assert(s@.subrange(i as int, i + pat.len()) =~= pat@);
    true
}

/// Whether `pat` occurs anywhere in `s`.
pub fn contains(s: &Vec<char>, pat: &Vec<char>) -> (r: bool)
    ensures
        r == is_substring(s@, pat@),
{
    if pat.len() > s.len() {
        return false;
    }
    let last: usize = s.len() - pat.len();
    let mut i: usize = 0;
    while i < last
        invariant
            i <= last,
            last == s.len() - pat.len(),
            forall|j: int| 0 <= j < i ==> !occurs_at(s@, j, pat@),
        decreases last - i,
    {
        if matches_at(s, i, pat) {
            return true;
        }
        i += 1;
    }
    matches_at(s, last, pat)
}

/// Appends the characters of `src` from `from` up to `to`.
pub fn push_range(out: &mut Vec<char>, src: &Vec<char>, from: usize, to: usize)
    requires
        from <= to <= src.len(),
    ensures
        final(out)@ == old(out)@ + src@.subrange(from as int, to as int),
{
    let mut k: usize = from;
    while k < to
        invariant
            from <= k <= to,
            to <= src.len(),
            out@ == old(out)@ + src@.subrange(from as int, k as int),
        decreases to - k,
    {
        out.push(src[k]);
        k += 1;
        assert(out@ =~= old(out)@ + src@.subrange(from as int, k as int));
    }
    assert(out@ =~= old(out)@ + src@.subrange(from as int, to as int));
}

/// Replaces every occurrence of `pat` in `s` by `to`.
pub fn replace(s: &Vec<char>, pat: &Vec<char>, to: &Vec<char>) -> (r: Vec<char>)
    ensures
        r@ == replace_all(s@, pat@, to@),
{
    let mut out: Vec<char> = Vec::new();
    if pat.len() == 0 {
        push_range(&mut out, s, 0, s.len());
        assert(s@.subrange(0, s.len() as int) =~= s@);
        return out;
    }
    let mut i: usize = 0;
    proof {
        assert(s@.subrange(0, s.len() as int) =~= s@);
        assert(out@ + replace_all(s@, pat@, to@) =~= replace_all(s@, pat@, to@));
    }
    while i < s.len()
        invariant
            i <= s.len(),
            pat.len() > 0,
            out@ + replace_all(s@.subrange(i as int, s.len() as int), pat@, to@) == replace_all(
                s@,
                pat@,
                to@,
            ),
        decreases s.len() - i,
    {
        let ghost rest = s@.subrange(i as int, s.len() as int);
        if matches_at(s, i, pat) {
            proof {
                assert(rest.subrange(0, pat.len() as int) =~= s@.subrange(
                    i as int,
                    i + pat.len(),
                ));
                assert(rest.subrange(pat.len() as int, rest.len() as int) =~= s@.subrange(
                    i + pat.len(),
                    s.len() as int,
                ));
            }
            push_range(&mut out, to, 0, to.len());
            assert(to@.subrange(0, to.len() as int) =~= to@);
            i += pat.len();
        } else {
            proof {
                if rest.len() >= pat.len() {
                    assert(rest.subrange(0, pat.len() as int) =~= s@.subrange(
                        i as int,
                        i + pat.len(),
                    ));
                }
            }
            if s.len() - i < pat.len() {
                push_range(&mut out, s, i, s.len());
                i = s.len();
            } else {
                proof {
                    assert(rest.subrange(1, rest.len() as int) =~= s@.subrange(
                        i + 1,
                        s.len() as int,
                    ));
                }
                out.push(s[i]);
                i += 1;
            }
        }
        proof {
            let ghost tail = s@.subrange(i as int, s.len() as int);
            assert(out@ + replace_all(tail, pat@, to@) =~= replace_all(s@, pat@, to@));
        }
    }
    assert(s@.subrange(s.len() as int, s.len() as int) =~= Seq::<char>::empty());
    assert(out@ =~= out@ + Seq::<char>::empty());
    out
}

/// `s` without the control characters below U+0020.
pub open spec fn without_control_of(s: Seq<char>) -> Seq<char>
    decreases s.len(),
{
    if s.len() == 0 {
        s
    } else if (s.last() as u32) < 0x20 {
        without_control_of(s.drop_last())
    } else {
        without_control_of(s.drop_last()).push(s.last())
    }
}

/// The alphanumeric characters of `s`, in order.
pub open spec fn only_alphanumeric_of(s: Seq<char>) -> Seq<char>
    decreases s.len(),
{
    if s.len() == 0 {
        s
    } else if is_alphanumeric_char(s.last()) {
        only_alphanumeric_of(s.drop_last()).push(s.last())
    } else {
        only_alphanumeric_of(s.drop_last())
    }
}

/// `s` with every character that is neither alphanumeric nor whitespace
/// replaced by a space.
pub open spec fn blank_punctuation_of(s: Seq<char>) -> Seq<char> {
    Seq::new(
        s.len(),
        |i: int|
            if is_alphanumeric_char(s[i]) || is_whitespace_char(s[i]) {
                s[i]
            } else {
                ' '
            },
    )
}

/// Drops the control characters below U+0020.
pub fn without_control(s: &Vec<char>) -> (r: Vec<char>)
    ensures
        r@ == without_control_of(s@),
{
    let mut out: Vec<char> = Vec::new();
    let mut i: usize = 0;
    while i < s.len()
        invariant
            i <= s.len(),
            out@ == without_control_of(s@.take(i as int)),
        decreases s.len() - i,
    {
        let c: char = s[i];
        assert(s@.take(i + 1).drop_last() =~= s@.take(i as int));
        if (c as u32) >= 0x20 {
            out.push(c);
        }
        i += 1;
    }
    assert(s@.take(s.len() as int) =~= s@);
    out
}

/// Keeps the alphanumeric characters.
pub fn only_alphanumeric(s: &Vec<char>) -> (r: Vec<char>)
    ensures
        r@ == only_alphanumeric_of(s@),
{
    let mut out: Vec<char> = Vec::new();
    let mut i: usize = 0;
    while i < s.len()
        invariant
            i <= s.len(),
            out@ == only_alphanumeric_of(s@.take(i as int)),
        decreases s.len() - i,
    {
        let c: char = s[i];
        assert(s@.take(i + 1).drop_last() =~= s@.take(i as int));
        if is_alphanumeric(c) {
            out.push(c);
        }
        i += 1;
    }
    assert(s@.take(s.len() as int) =~= s@);
    out
}

/// Replaces what is neither alphanumeric nor whitespace by a space.
pub fn blank_punctuation(s: &Vec<char>) -> (r: Vec<char>)
    ensures
        r@ == blank_punctuation_of(s@),
{
    let mut out: Vec<char> = Vec::new();
    let mut i: usize = 0;
    while i < s.len()
        invariant
            i <= s.len(),
            out@ == blank_punctuation_of(s@.take(i as int)),
        decreases s.len() - i,
    {
        let c: char = s[i];
        if is_alphanumeric(c) || is_whitespace(c) {
            out.push(c);
        } else {
            out.push(' ');
        }
        i += 1;
        assert(out@ =~= blank_punctuation_of(s@.take(i as int)));
    }
    assert(s@.take(s.len() as int) =~= s@);
    out
}

/// Shortens each run of ASCII spaces to one space.
pub fn collapse_spaces(s: &Vec<char>) -> (r: Vec<char>)
    ensures
        r@ == collapse_spaces_of(s@),
{
    let mut out: Vec<char> = Vec::new();
    let mut prev_was_space: bool = false;
    let mut i: usize = 0;
    while i < s.len()
        invariant
            i <= s.len(),
            out@ == collapse_spaces_of(s@.take(i as int)),
            prev_was_space == (i > 0 && s@[i - 1] == ' '),
        decreases s.len() - i,
    {
        let c: char = s[i];
        assert(s@.take(i + 1).drop_last() =~= s@.take(i as int));
        let is_space: bool = c == ' ';
        if !(is_space && prev_was_space) {
            out.push(c);
        }
        prev_was_space = is_space;
        i += 1;
    }
    assert(s@.take(s.len() as int) =~= s@);
    out
}

/// Joins the whitespace-separated words by single spaces.
pub fn join_words(s: &Vec<char>) -> (r: Vec<char>)
    ensures
        r@ == join_words_of(s@),
{
    let mut out: Vec<char> = Vec::new();
    let mut prev_was_white: bool = false;
    let mut i: usize = 0;
    while i < s.len()
        invariant
            i <= s.len(),
            out@ == join_words_of(s@.take(i as int)),
            prev_was_white == (i > 0 && is_whitespace_char(s@[i - 1])),
        decreases s.len() - i,
    {
        let c: char = s[i];
        assert(s@.take(i + 1).drop_last() =~= s@.take(i as int));
        let white: bool = is_whitespace(c);
        if !white {
            if out.len() > 0 && prev_was_white {
                out.push(' ');
            }
            out.push(c);
        }
        prev_was_white = white;
        i += 1;
    }
    assert(s@.take(s.len() as int) =~= s@);
    out
}

/// The length of the prefix of the first `len` characters that is left when
/// trailing trimmed characters are removed.
pub fn trim_end_len(s: &Vec<char>, len: usize, periods: bool) -> (r: usize)
    requires
        len <= s.len(),
    ensures
        r <= len,
        s@.take(r as int) == trim_end_of(s@.take(len as int), periods),
{
    let mut n: usize = len;
    let mut done: bool = false;
    while n > 0 && !done
        invariant
            n <= len,
            len <= s.len(),
            trim_end_of(s@.take(n as int), periods) == trim_end_of(s@.take(len as int), periods),
            done ==> n > 0 && !is_trimmed(periods, s@[n - 1]),
        decreases n + (if done { 0int } else { 1int }),
    {
        let c: char = s[n - 1];
        let gone: bool = is_whitespace(c) || (periods && c == '.');
        if gone {
            assert(s@.take(n as int).drop_last() =~= s@.take(n - 1));
            n -= 1;
        } else {
            done = true;
        }
    }
    n
}

/// The index at which the text starts once leading whitespace is removed.
pub fn trim_start_index(s: &Vec<char>) -> (r: usize)
    ensures
        r <= s.len(),
        s@.subrange(r as int, s.len() as int) == trim_start_of(s@),
{
    let mut n: usize = 0;
    assert(s@.subrange(0, s.len() as int) =~= s@);
    let mut done: bool = false;
    while n < s.len() && !done
        invariant
            n <= s.len(),
            trim_start_of(s@.subrange(n as int, s.len() as int)) == trim_start_of(s@),
            done ==> n < s.len() && !is_whitespace_char(s@[n as int]),
        decreases s.len() - n + (if done { 0int } else { 1int }),
    {
        if is_whitespace(s[n]) {
            assert(s@.subrange(n as int, s.len() as int).drop_first() =~= s@.subrange(
                n + 1,
                s.len() as int,
            ));
            n += 1;
        } else {
            done = true;
        }
    }
    n
}

/// Removes leading and trailing whitespace.
pub fn trim(s: &Vec<char>) -> (r: Vec<char>)
    ensures
        r@ == trim_of(s@),
{
    let start: usize = trim_start_index(s);
    let mut rest: Vec<char> = Vec::new();
    push_range(&mut rest, s, start, s.len());
    assert(rest@ =~= trim_start_of(s@));
    trim_end(&rest, false)
}

/// Removes trailing whitespace, and trailing periods too where asked.
pub fn trim_end(s: &Vec<char>, periods: bool) -> (r: Vec<char>)
    ensures
        r@ == trim_end_of(s@, periods),
{
    let n: usize = trim_end_len(s, s.len(), periods);
    let mut out: Vec<char> = Vec::new();
    push_range(&mut out, s, 0, n);
    assert(s@.take(s.len() as int) =~= s@);
    assert(out@ =~= s@.take(n as int));
    out
}

/// The character of a decimal digit.
pub fn digit(d: u64) -> (r: char)
    requires
        d < 10,
    ensures
        r == digit_of(d as nat),
{
    if d == 0 {
        '0'
    } else if d == 1 {
        '1'
    } else if d == 2 {
        '2'
    } else if d == 3 {
        '3'
    } else if d == 4 {
        '4'
    } else if d == 5 {
        '5'
    } else if d == 6 {
        '6'
    } else if d == 7 {
        '7'
    } else if d == 8 {
        '8'
    } else {
        '9'
    }
}

/// Appends the decimal numeral of `n`.
pub fn push_decimal(out: &mut Vec<char>, n: u64)
    ensures
        final(out)@ == old(out)@ + decimal_of(n as nat),
    decreases n,
{
    if n < 10 {
        out.push(digit(n));
        assert(out@ =~= old(out)@ + decimal_of(n as nat));
    } else {
        push_decimal(out, n / 10);
        out.push(digit(n % 10));
        assert(out@ =~= old(out)@ + decimal_of(n as nat));
    }
}

/// Appends all characters of `src`.
pub fn push_all(out: &mut Vec<char>, src: &Vec<char>)
    ensures
        final(out)@ == old(out)@ + src@,
{
    push_range(out, src, 0, src.len());
    assert(src@.subrange(0, src.len() as int) =~= src@);
}

} // verus!
