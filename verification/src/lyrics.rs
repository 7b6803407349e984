//! LRC lyrics: time tags such as `[01:23.45]` in front of a line of text.
use vstd::prelude::*;
use crate::text::{chars_of, digit_value, string_from_range, trim, trim_bounds};
use crate::track::LyricLine;

verus! {

broadcast use vstd::string::group_string_axioms;

// ───────────────────────── numbers ─────────────────────────

/// Whether every character of `s` is a decimal digit.
pub open spec fn all_digits(s: Seq<char>) -> bool {
    forall|i: int| 0 <= i < s.len() ==> (#[trigger] digit_value(s[i])) is Some
}

/// The value of a string of decimal digits.
pub open spec fn digits_value(s: Seq<char>) -> nat
    decreases s.len(),
{
    if s.len() == 0 {
        0
    } else {
        digits_value(s.drop_last()) * 10 + digit_value(s.last()).unwrap()
    }
}

/// `u64::from_str`: an optional '+', then one or more decimal digits whose value fits in a u64.
pub open spec fn parse_u64(s: Seq<char>) -> Option<nat> {
    let d = if s.len() > 0 && s[0] == '+' { s.drop_first() } else { s };
    if d.len() > 0 && all_digits(d) && digits_value(d) <= u64::MAX {
        Some(digits_value(d))
    } else {
        None
    }
}

proof fn lemma_digits_value_grows(s: Seq<char>, k: int)
    requires
        all_digits(s),
        0 <= k <= s.len(),
    ensures
        digits_value(s.take(k)) <= digits_value(s),
    decreases s.len(),
{
    if k < s.len() {
        let p = s.drop_last();
        assert(all_digits(p)) by {
            assert forall|i: int| 0 <= i < p.len() implies (#[trigger] digit_value(p[i])) is Some by {
                assert(p[i] == s[i]);
            }
        }
        lemma_digits_value_grows(p, k);
        assert(p.take(k) == s.take(k));
    } else {
        assert(s.take(k) == s);
    }
}

/// `u64::from_str` on `cs[from..to]`.
pub fn parse_u64_range(cs: &Vec<char>, from: usize, to: usize) -> (res: Option<u64>)
    requires
        from <= to <= cs@.len(),
    ensures
        res matches Some(v) ==> parse_u64(cs@.subrange(from as int, to as int)) == Some(v as nat),
        res is None ==> parse_u64(cs@.subrange(from as int, to as int)) is None,
{
    let ghost s = cs@.subrange(from as int, to as int);
    let start = if from < to && cs[from] == '+' { from + 1 } else { from };
    let ghost d = cs@.subrange(start as int, to as int);
    assert(d == (if s.len() > 0 && s[0] == '+' { s.drop_first() } else { s }));
    if start == to {
        return None;
    }
    let mut value: u128 = 0;
    let mut i = start;
    while i < to
        invariant
            start <= i <= to <= cs@.len(),
            d == cs@.subrange(start as int, to as int),
            s == cs@.subrange(from as int, to as int),
            d == (if s.len() > 0 && s[0] == '+' { s.drop_first() } else { s }),
            all_digits(d.take(i - start)),
            value == digits_value(d.take(i - start)),
            value <= u64::MAX,
        decreases to - i,
    {
        let c = cs[i];
        if !('0' <= c && c <= '9') {
            assert(d[i - start] == c);
            assert(digit_value(d[(i - start) as int]) is None);
            assert(!all_digits(d));
            return None;
        }
        let dv = (c as u32 - '0' as u32) as u128;
        let ghost k = (i - start) as int;
        assert(d.take(k + 1).drop_last() == d.take(k));
        assert(d.take(k + 1).last() == c);
        assert(all_digits(d.take(k + 1))) by {
            assert forall|j: int| 0 <= j < k + 1 implies (#[trigger] digit_value(d.take(k + 1)[j])) is Some by {
                if j < k {
                    assert(d.take(k + 1)[j] == d.take(k)[j]);
                }
            }
        }
        let next = value * 10 + dv;
        if next > u64::MAX as u128 {
            proof {
                if all_digits(d) {
                    lemma_digits_value_grows(d, k + 1);
                }
            }
            return None;
        }
        value = next;
        i = i + 1;
    }
    assert(d.take(d.len() as int) == d);
    Some(value as u64)
}

// ───────────────────────── UTF-8 widths ─────────────────────────

/// The number of bytes of the UTF-8 encoding of `c`.
pub open spec fn utf8_width(c: char) -> nat {
    let u = c as u32;
    if u < 0x80 { 1 } else if u < 0x800 { 2 } else if u < 0x10000 { 3 } else { 4 }
}

/// The number of bytes of the UTF-8 encoding of `s` (`str::len`).
pub open spec fn utf8_len(s: Seq<char>) -> nat
    decreases s.len(),
{
    if s.len() == 0 { 0 } else { utf8_width(s[0]) + utf8_len(s.drop_first()) }
}

/// The characters whose encoding is exactly the first `n` bytes of the encoding of `s`,
/// or `None` where byte `n` falls inside a character (slicing there panics).
pub open spec fn prefix_of_bytes(s: Seq<char>, n: nat) -> Option<Seq<char>>
    decreases s.len(),
{
    if n == 0 {
        Some(Seq::<char>::empty())
    } else if s.len() == 0 {
        None
    } else if utf8_width(s[0]) > n {
        None
    } else {
        match prefix_of_bytes(s.drop_first(), (n - utf8_width(s[0])) as nat) {
            Some(p) => Some(seq![s[0]] + p),
            None => None,
        }
    }
}

/// The fraction digits a time tag reads: the first `min(len, 3)` bytes of `f`,
/// or `None` where that slice would split a character.
pub open spec fn frac_part(f: Seq<char>) -> Option<Seq<char>> {
    if utf8_len(f) <= 3 { Some(f) } else { prefix_of_bytes(f, 3) }
}

pub fn char_width(c: char) -> (w: usize)
    ensures
        w == utf8_width(c),
{
    let u = c as u32;
    if u < 0x80 { 1 } else if u < 0x800 { 2 } else if u < 0x10000 { 3 } else { 4 }
}

pub proof fn lemma_utf8_len_take(s: Seq<char>, k: int)
    requires
        0 <= k < s.len(),
    ensures
        utf8_len(s.take(k + 1)) == utf8_len(s.take(k)) + utf8_width(s[k]),
    decreases k,
{
    assert(utf8_len(Seq::<char>::empty()) == 0);
    if k == 0 {
        assert(s.take(1).drop_first() =~= Seq::<char>::empty());
        assert(s.take(0) =~= Seq::<char>::empty());
        assert(s.take(1)[0] == s[0]);
    } else {
        let t = s.drop_first();
        lemma_utf8_len_take(t, k - 1);
        assert(s.take(k + 1).drop_first() =~= t.take(k));
        assert(s.take(k).drop_first() =~= t.take(k - 1));
        assert(s.take(k + 1)[0] == s[0]);
        assert(s.take(k)[0] == s[0]);
        assert(t[k - 1] == s[k]);
    }
}

pub proof fn lemma_utf8_len_split(s: Seq<char>, k: int)
    requires
        0 <= k <= s.len(),
    ensures
        utf8_len(s) == utf8_len(s.take(k)) + utf8_len(s.skip(k)),
    decreases k,
{
    if k > 0 {
        let t = s.drop_first();
        lemma_utf8_len_split(t, k - 1);
        assert(s.take(k).drop_first() =~= t.take(k - 1));
        assert(s.skip(k) =~= t.skip(k - 1));
    } else {
        assert(s.skip(0) =~= s);
        assert(s.take(0).len() == 0);
    }
}

pub proof fn lemma_prefix_of_bytes(s: Seq<char>, k: int, n: nat)
    requires
        0 <= k <= s.len(),
        utf8_len(s.take(k)) == n,
    ensures
        prefix_of_bytes(s, n) == Some(s.take(k)),
    decreases k,
{
    if k == 0 {
        assert(s.take(0) =~= Seq::<char>::empty());
    } else {
        let t = s.drop_first();
        assert(s.take(k).drop_first() =~= t.take(k - 1));
        assert(s.take(k)[0] == s[0]);
        lemma_prefix_of_bytes(t, k - 1, (n - utf8_width(s[0])) as nat);
        assert(seq![s[0]] + t.take(k - 1) =~= s.take(k));
    }
}

pub proof fn lemma_prefix_of_bytes_none(s: Seq<char>, k: int, n: nat)
    requires
        0 <= k < s.len(),
        utf8_len(s.take(k)) < n,
        utf8_len(s.take(k)) + utf8_width(s[k]) > n,
    ensures
        prefix_of_bytes(s, n) is None,
    decreases k,
{
    if k == 0 {
        assert(s.take(0).len() == 0);
    } else {
        let t = s.drop_first();
        assert(s.take(k).drop_first() =~= t.take(k - 1));
        assert(t[k - 1] == s[k]);
        lemma_prefix_of_bytes_none(t, k - 1, (n - utf8_width(s[0])) as nat);
    }
}

/// The number of characters of `frac_part(cs[from..to])`, or `None` where it is `None`.
fn frac_prefix_len(cs: &Vec<char>, from: usize, to: usize) -> (res: Option<usize>)
    requires
        from <= to <= cs@.len(),
    ensures
        res matches Some(k) ==> k <= to - from
            && frac_part(cs@.subrange(from as int, to as int)) == Some(cs@.subrange(from as int, from + k))
            && utf8_len(cs@.subrange(from as int, from + k)) <= 3,
        res is None ==> frac_part(cs@.subrange(from as int, to as int)) is None,
{
    let ghost f = cs@.subrange(from as int, to as int);
    let mut i = from;
    let mut bytes: usize = 0;
    assert(f.take(0).len() == 0);
    while i < to && bytes + char_width(cs[i]) <= 3
        invariant
            from <= i <= to <= cs@.len(),
            f == cs@.subrange(from as int, to as int),
            bytes == utf8_len(f.take(i - from)),
            bytes <= 3,
        decreases to - i,
    {
        proof { lemma_utf8_len_take(f, i - from); }
        bytes = bytes + char_width(cs[i]);
        i = i + 1;
    }
    let k = i - from;
    assert(f.take(k as int) == cs@.subrange(from as int, from + k));
    if i == to {
        assert(f.take(k as int) == f);
        Some(k)
    } else {
        proof {
            lemma_utf8_len_take(f, k as int);
            lemma_utf8_len_split(f, k as int + 1);
            assert(utf8_len(f) > 3);
        }
        if bytes == 3 {
            proof { lemma_prefix_of_bytes(f, k as int, 3); }
            Some(k)
        } else {
            proof { lemma_prefix_of_bytes_none(f, k as int, 3); }
            None
        }
    }
}

// ───────────────────────── time tags ─────────────────────────

/// The first position at or after `pos` where `c` occurs in `s`.
pub open spec fn find_from(s: Seq<char>, c: char, pos: int) -> Option<int>
    decreases s.len() - pos,
{
    if pos < 0 || pos >= s.len() {
        None
    } else if s[pos] == c {
        Some(pos)
    } else {
        find_from(s, c, pos + 1)
    }
}

/// `10^(3 - n)` for `n` from 0 to 3: the factor that turns `n` fraction digits into milliseconds.
pub open spec fn milli_factor(n: nat) -> nat {
    if n == 0 { 1000 } else if n == 1 { 100 } else if n == 2 { 10 } else { 1 }
}

/// The time (in nanoseconds) a tag such as "01:23.45" or "01:23" gives: minutes before
/// the first ':', seconds up to the first '.' (or to the end where there is none), and up
/// to three bytes of fraction digits as milliseconds.  `None` where any of the numbers
/// does not parse.
pub open spec fn tag_time(s: Seq<char>) -> Option<nat> {
    match find_from(s, ':', 0) {
        None => None,
        Some(c) => match parse_u64(s.take(c)) {
            None => None,
            Some(m) => {
                let rest = s.skip(c + 1);
                match find_from(rest, '.', 0) {
                    None => match parse_u64(rest) {
                        None => None,
                        Some(sec) => Some((m * 60 + sec) * 1_000_000_000),
                    },
                    Some(d) => match parse_u64(rest.take(d)) {
                        None => None,
                        Some(sec) => match frac_part(rest.skip(d + 1)) {
                            None => None,
                            Some(p) => match parse_u64(p) {
                                None => None,
                                Some(f) => Some(
                                    (m * 60 + sec) * 1_000_000_000 + f * milli_factor(utf8_len(p))
                                        * 1_000_000,
                                ),
                            },
                        },
                    },
                }
            },
        },
    }
}

/// Whether reading the tag `s` runs without panicking: the fraction slice falls
/// on a character boundary, and minutes * 60 + seconds fits in a u64.
pub open spec fn tag_safe(s: Seq<char>) -> bool {
    match find_from(s, ':', 0) {
        None => true,
        Some(c) => match parse_u64(s.take(c)) {
            None => true,
            Some(m) => {
                let rest = s.skip(c + 1);
                match find_from(rest, '.', 0) {
                    None => match parse_u64(rest) {
                        None => true,
                        Some(sec) => m * 60 + sec <= u64::MAX,
                    },
                    Some(d) => match parse_u64(rest.take(d)) {
                        None => true,
                        Some(sec) => match frac_part(rest.skip(d + 1)) {
                            None => false,
                            Some(p) => match parse_u64(p) {
                                None => true,
                                Some(f) => m * 60 + sec <= u64::MAX,
                            },
                        },
                    },
                }
            },
        },
    }
}

/// The first position in `from..to` of `c`, as an offset from `from`.
fn find_in(cs: &Vec<char>, from: usize, to: usize, c: char) -> (res: Option<usize>)
    requires
        from <= to <= cs@.len(),
    ensures
        res is None <==> find_from(cs@.subrange(from as int, to as int), c, 0) is None,
        res matches Some(k) ==> k < to - from
            && find_from(cs@.subrange(from as int, to as int), c, 0) == Some(k as int),
{
    let ghost s = cs@.subrange(from as int, to as int);
    let mut i = from;
    while i < to
        invariant
            from <= i <= to <= cs@.len(),
            s == cs@.subrange(from as int, to as int),
            find_from(s, c, 0) == find_from(s, c, i - from),
        decreases to - i,
    {
        if cs[i] == c {
            return Some(i - from);
        }
        i = i + 1;
    }
    None
}

/// Reads the time tag `cs[from..to]` (see `tag_time`).
pub fn parse_timestamp(cs: &Vec<char>, from: usize, to: usize) -> (res: Option<u128>)
    requires
        from <= to <= cs@.len(),
        tag_safe(cs@.subrange(from as int, to as int)),
    ensures
        res matches Some(v) ==> tag_time(cs@.subrange(from as int, to as int)) == Some(v as nat),
        res is None ==> tag_time(cs@.subrange(from as int, to as int)) is None,
{
    let ghost s = cs@.subrange(from as int, to as int);
    let colon = match find_in(cs, from, to, ':') {
        None => return None,
        Some(k) => from + k,
    };
    assert(s.take(colon - from) == cs@.subrange(from as int, colon as int));
    let minutes = match parse_u64_range(cs, from, colon) {
        None => return None,
        Some(m) => m,
    };
    let ghost rest = s.skip(colon - from + 1);
    assert(rest == cs@.subrange(colon + 1, to as int));
    let dot = match find_in(cs, colon + 1, to, '.') {
        None => {
            // "mm:ss" with no fraction
            return match parse_u64_range(cs, colon + 1, to) {
                None => None,
                Some(sec) => {
                    let secs: u128 = (minutes as u128) * 60 + (sec as u128);
                    Some(secs * 1_000_000_000)
                },
            };
        },
        Some(k) => colon + 1 + k,
    };
    assert(rest.take(dot - colon - 1) == cs@.subrange(colon + 1, dot as int));
    let seconds = match parse_u64_range(cs, colon + 1, dot) {
        None => return None,
        Some(v) => v,
    };
    assert(rest.skip(dot - colon) == cs@.subrange(dot + 1, to as int));
    let flen = match frac_prefix_len(cs, dot + 1, to) {
        None => return None,
        Some(k) => k,
    };
    let frac = match parse_u64_range(cs, dot + 1, dot + 1 + flen) {
        None => return None,
        Some(f) => f,
    };
    let ghost p = cs@.subrange(dot + 1, dot + 1 + flen);
    let mut pbytes: usize = 0;
    let mut j = dot + 1;
    assert(p.take(0).len() == 0);
    while j < dot + 1 + flen
        invariant
            dot + 1 <= j <= dot + 1 + flen <= to <= cs@.len(),
            p == cs@.subrange(dot + 1, dot + 1 + flen),
            pbytes == utf8_len(p.take(j - dot - 1)),
            utf8_len(p) <= 3,
        decreases dot + 1 + flen - j,
    {
        proof {
            lemma_utf8_len_take(p, j - dot - 1);
            lemma_utf8_len_split(p, j - dot);
        }
        pbytes = pbytes + char_width(cs[j]);
        j = j + 1;
    }
    assert(p.take(flen as int) == p);
    let factor: u128 = if pbytes == 0 { 1000 } else if pbytes == 1 { 100 } else if pbytes == 2 { 10 } else { 1 };
    assert(parse_u64(p) == Some(frac as nat));
    // frac has at most three digits
    assert(frac <= 999) by {
        assert(parse_u64(p) is Some);
        lemma_small_value(p);
    }
    let secs: u128 = (minutes as u128) * 60 + (seconds as u128);
    let ns = secs * 1_000_000_000 + (frac as u128) * factor * 1_000_000;
    Some(ns)
}

proof fn lemma_digits_bound(s: Seq<char>)
    requires
        all_digits(s),
    ensures
        s.len() == 0 ==> digits_value(s) == 0,
        s.len() == 1 ==> digits_value(s) <= 9,
        s.len() == 2 ==> digits_value(s) <= 99,
        s.len() == 3 ==> digits_value(s) <= 999,
    decreases s.len(),
{
    if s.len() > 0 {
        let p = s.drop_last();
        assert(all_digits(p)) by {
            assert forall|i: int| 0 <= i < p.len() implies (#[trigger] digit_value(p[i])) is Some by {
                assert(p[i] == s[i]);
            }
        }
        lemma_digits_bound(p);
        assert(digit_value(s[s.len() - 1]) is Some);
    }
}

pub proof fn lemma_utf8_len_ge_len(s: Seq<char>)
    ensures
        utf8_len(s) >= s.len(),
    decreases s.len(),
{
    if s.len() > 0 {
        lemma_utf8_len_ge_len(s.drop_first());
    }
}

/// A number read from at most three bytes is at most 999.
proof fn lemma_small_value(p: Seq<char>)
    requires
        utf8_len(p) <= 3,
        parse_u64(p) is Some,
    ensures
        parse_u64(p).unwrap() <= 999,
{
    lemma_utf8_len_ge_len(p);
    let d = if p.len() > 0 && p[0] == '+' { p.drop_first() } else { p };
    lemma_digits_bound(d);
}


// ───────────────────────── lines and tags ─────────────────────────

/// `s` split at every '\n' (`str::split('\n')`).  Taken with `trim`, this reads the
/// same lines as `str::lines`: that drops a final empty piece and one '\r' before
/// each '\n', and trimming drops both anyway.
pub open spec fn split_lines(s: Seq<char>) -> Seq<Seq<char>>
    decreases s.len(),
{
    if s.len() == 0 {
        seq![Seq::<char>::empty()]
    } else {
        let p = split_lines(s.drop_last());
        if s.last() == '\n' {
            p.push(Seq::<char>::empty())
        } else {
            p.update(p.len() - 1, p.last().push(s.last()))
        }
    }
}

proof fn lemma_split_lines_nonempty(s: Seq<char>)
    ensures
        split_lines(s).len() >= 1,
    decreases s.len(),
{
    if s.len() > 0 {
        lemma_split_lines_nonempty(s.drop_last());
    }
}

/// The bracketed tags of a line, left to right: each '[' opens a tag that the
/// next ']' closes; text after a '[' without a closing ']' is no tag.
pub open spec fn scan_tags(t: Seq<char>, i: int, open: Option<int>) -> Seq<Seq<char>>
    decreases t.len() - i,
{
    if i < 0 || i >= t.len() {
        Seq::empty()
    } else {
        match open {
            None => if t[i] == '[' { scan_tags(t, i + 1, Some(i)) } else { scan_tags(t, i + 1, None) },
            Some(o) => if t[i] == ']' {
                seq![t.subrange(o + 1, i)] + scan_tags(t, i + 1, None)
            } else {
                scan_tags(t, i + 1, Some(o))
            },
        }
    }
}

/// All tags of the line `t`.
pub open spec fn line_tags(t: Seq<char>) -> Seq<Seq<char>> {
    scan_tags(t, 0, None)
}

/// The times of the tags that read as times, in order.
pub open spec fn tag_times(tags: Seq<Seq<char>>) -> Seq<nat>
    decreases tags.len(),
{
    if tags.len() == 0 {
        Seq::empty()
    } else {
        let r = tag_times(tags.drop_last());
        match tag_time(tags.last()) {
            Some(v) => r.push(v),
            None => r,
        }
    }
}

/// The last position of `c` in `s`.
pub open spec fn find_last(s: Seq<char>, c: char) -> Option<int>
    decreases s.len(),
{
    if s.len() == 0 {
        None
    } else if s.last() == c {
        Some(s.len() - 1)
    } else {
        find_last(s.drop_last(), c)
    }
}

/// The lyric text of a (trimmed) line: what follows its last ']', trimmed.
pub open spec fn line_text(t: Seq<char>) -> Seq<char> {
    let start = match find_last(t, ']') {
        Some(k) => k + 1,
        None => 0,
    };
    trim(t.skip(start))
}

/// Whether some entry of `acc` has time `ts`.
pub open spec fn has_time(acc: Seq<(nat, Seq<char>)>, ts: nat) -> bool {
    exists|j: int| 0 <= j < acc.len() && (#[trigger] acc[j]).0 == ts
}

/// Adds `(ts, text)` for each time in order, skipping times already present.
pub open spec fn add_times(acc: Seq<(nat, Seq<char>)>, times: Seq<nat>, text: Seq<char>) -> Seq<(nat, Seq<char>)>
    decreases times.len(),
{
    if times.len() == 0 {
        acc
    } else {
        let a = add_times(acc, times.drop_last(), text);
        if has_time(a, times.last()) { a } else { a.push((times.last(), text)) }
    }
}

/// What one raw line adds: nothing for a blank line or a line without text,
/// else its text at each of its times that is not there yet.
pub open spec fn add_line(acc: Seq<(nat, Seq<char>)>, raw: Seq<char>) -> Seq<(nat, Seq<char>)> {
    let t = trim(raw);
    if t.len() == 0 {
        acc
    } else {
        let text = line_text(t);
        if text.len() == 0 { acc } else { add_times(acc, tag_times(line_tags(t)), text) }
    }
}

/// The entries of the given lines, in the order they are met.
pub open spec fn add_lines(lines: Seq<Seq<char>>) -> Seq<(nat, Seq<char>)>
    decreases lines.len(),
{
    if lines.len() == 0 {
        Seq::empty()
    } else {
        add_line(add_lines(lines.drop_last()), lines.last())
    }
}

/// The (time, text) entries of an LRC file, in the order they are met.
pub open spec fn lrc_entries(content: Seq<char>) -> Seq<(nat, Seq<char>)> {
    add_lines(split_lines(content))
}

/// Whether reading the file's tags runs without panicking (see `tag_safe`).
pub open spec fn lrc_safe(content: Seq<char>) -> bool {
    forall|k: int| 0 <= k < split_lines(content).len() ==> {
        let t = #[trigger] trim(split_lines(content)[k]);
        t.len() > 0 ==> line_safe(t)
    }
}

/// The (time, text) pairs of lyric lines.
pub open spec fn lines_view(v: Seq<LyricLine>) -> Seq<(nat, Seq<char>)> {
    Seq::new(v.len(), |i: int| (v[i].timestamp_ns as nat, v[i].text@))
}

/// Whether the times of `v` strictly increase.
pub open spec fn sorted_strict(v: Seq<LyricLine>) -> bool {
    forall|i: int, j: int| 0 <= i < j < v.len() ==> v[i].timestamp_ns < v[j].timestamp_ns
}

/// Whether `v` and `e` have the same length and the same elements.
pub open spec fn same_entries(v: Seq<(nat, Seq<char>)>, e: Seq<(nat, Seq<char>)>) -> bool {
    &&& v.len() == e.len()
    &&& forall|k: int| 0 <= k < e.len() ==> v.contains(#[trigger] e[k])
    &&& forall|i: int| 0 <= i < v.len() ==> e.contains(#[trigger] v[i])
}

/// Whether the times of `e` are pairwise different.
pub open spec fn distinct_times(e: Seq<(nat, Seq<char>)>) -> bool {
    forall|i: int, j: int| 0 <= i < j < e.len() ==> e[i].0 != e[j].0
}

/// The ranges of the pieces of `cs` between '\n's.
fn line_ranges(cs: &Vec<char>) -> (r: Vec<(usize, usize)>)
    ensures
        r@.len() == split_lines(cs@).len(),
        forall|k: int| 0 <= k < r@.len() ==> {
            &&& (#[trigger] r@[k]).0 <= r@[k].1 <= cs@.len()
            &&& cs@.subrange(r@[k].0 as int, r@[k].1 as int) == split_lines(cs@)[k]
        },
{
    let mut r: Vec<(usize, usize)> = Vec::new();
    let mut start: usize = 0;
    let mut i: usize = 0;
    assert(cs@.take(0) =~= Seq::<char>::empty());
    while i < cs.len()
        invariant
            start <= i <= cs@.len(),
            r@.len() + 1 == split_lines(cs@.take(i as int)).len(),
            forall|k: int| 0 <= k < r@.len() ==> {
                &&& (#[trigger] r@[k]).0 <= r@[k].1 <= cs@.len()
                &&& cs@.subrange(r@[k].0 as int, r@[k].1 as int) == split_lines(cs@.take(i as int))[k]
            },
            cs@.subrange(start as int, i as int) == split_lines(cs@.take(i as int)).last(),
        decreases cs@.len() - i,
    {
        let ghost before = split_lines(cs@.take(i as int));
        assert(cs@.take(i + 1).drop_last() =~= cs@.take(i as int));
        assert(cs@.take(i + 1).last() == cs@[i as int]);
        proof { lemma_split_lines_nonempty(cs@.take(i as int)); }
        if cs[i] == '\n' {
            r.push((start, i));
            start = i + 1;
            assert(cs@.subrange(start as int, i + 1) =~= Seq::<char>::empty());
        } else {
            assert(cs@.subrange(start as int, i + 1) =~= cs@.subrange(start as int, i as int).push(cs@[i as int]));
        }
        i = i + 1;
    }
    assert(cs@.take(cs@.len() as int) =~= cs@);
    proof { lemma_split_lines_nonempty(cs@); }
    r.push((start, i));
    r
}

/// The ranges of the tags of the line `cs[a..b]`.
fn tag_ranges(cs: &Vec<char>, a: usize, b: usize) -> (r: Vec<(usize, usize)>)
    requires
        a <= b <= cs@.len(),
    ensures
        r@.len() == line_tags(cs@.subrange(a as int, b as int)).len(),
        forall|j: int| 0 <= j < r@.len() ==> {
            &&& a <= (#[trigger] r@[j]).0 <= r@[j].1 <= b
            &&& cs@.subrange(r@[j].0 as int, r@[j].1 as int) == line_tags(cs@.subrange(a as int, b as int))[j]
        },
{
    let ghost t = cs@.subrange(a as int, b as int);
    let mut r: Vec<(usize, usize)> = Vec::new();
    let mut open: Option<usize> = None;
    let mut i = a;
    let ghost mut acc: Seq<Seq<char>> = Seq::empty();
    while i < b
        invariant
            a <= i <= b <= cs@.len(),
            t == cs@.subrange(a as int, b as int),
            open matches Some(o) ==> a <= o < i,
            line_tags(t) == acc + scan_tags(t, i - a, match open { Some(o) => Some(o - a), None => None }),
            r@.len() == acc.len(),
            forall|j: int| 0 <= j < r@.len() ==> {
                &&& a <= (#[trigger] r@[j]).0 <= r@[j].1 <= b
                &&& cs@.subrange(r@[j].0 as int, r@[j].1 as int) == acc[j]
            },
        decreases b - i,
    {
        assert(t[i - a] == cs@[i as int]);
        match open {
            None => {
                if cs[i] == '[' {
                    open = Some(i);
                }
            },
            Some(o) => {
                if cs[i] == ']' {
                    assert(t.subrange(o - a + 1, i - a) == cs@.subrange(o + 1, i as int));
                    r.push((o + 1, i));
                    proof {
                        let tag = t.subrange(o - a + 1, i - a);
                        assert(acc + (seq![tag] + scan_tags(t, i - a + 1, None)) =~= acc.push(tag) + scan_tags(t, i - a + 1, None));
                        acc = acc.push(tag);
                    }
                    open = None;
                }
            },
        }
        i = i + 1;
    }
    assert(acc + scan_tags(t, i - a, match open { Some(o) => Some(o - a), None => None }) =~= acc);
    r
}

/// The position just after the last ']' of `cs[a..b]` (or `a`).
fn text_start(cs: &Vec<char>, a: usize, b: usize) -> (k: usize)
    requires
        a <= b <= cs@.len(),
    ensures
        a <= k <= b,
        cs@.subrange(k as int, b as int) == cs@.subrange(a as int, b as int).skip(
            match find_last(cs@.subrange(a as int, b as int), ']') { Some(j) => j + 1, None => 0 }),
{
    let ghost t = cs@.subrange(a as int, b as int);
    let mut j = b;
    assert(t.take(b - a) =~= t);
    while j > a && cs[j - 1] != ']'
        invariant
            a <= j <= b <= cs@.len(),
            t == cs@.subrange(a as int, b as int),
            find_last(t, ']') == find_last(t.take(j - a), ']'),
        decreases j - a,
    {
        assert(t.take(j - a).drop_last() =~= t.take(j - a - 1));
        assert(t.take(j - a).last() == cs@[j - 1]);
        j = j - 1;
    }
    if j == a {
        assert(t.take(0).len() == 0);
        assert(cs@.subrange(a as int, b as int) == t.skip(0));
        a
    } else {
        assert(t.take(j - a).last() == cs@[j - 1]);
        assert(cs@.subrange(j as int, b as int) =~= t.skip(j - a));
        j
    }
}


/// `acc` after adding `(ts, text)` unless a line with time `ts` is already there.
pub open spec fn add_one(acc: Seq<(nat, Seq<char>)>, ts: nat, text: Seq<char>) -> Seq<(nat, Seq<char>)> {
    if has_time(acc, ts) { acc } else { acc.push((ts, text)) }
}

/// Adds the line `(ts, text)` to the sorted `lines` unless its time is taken.
fn add_time(lines: &mut Vec<LyricLine>, ts: u128, text: &String, Ghost(acc): Ghost<Seq<(nat, Seq<char>)>>)
    requires
        sorted_strict(old(lines)@),
        same_entries(lines_view(old(lines)@), acc),
        distinct_times(acc),
    ensures
        sorted_strict(final(lines)@),
        same_entries(lines_view(final(lines)@), add_one(acc, ts as nat, text@)),
        distinct_times(add_one(acc, ts as nat, text@)),
{
    let ghost old_v = lines@;
    let ghost ov = lines_view(lines@);
    let mut p: usize = 0;
    while p < lines.len() && lines[p].timestamp_ns < ts
        invariant
            p <= lines@.len(),
            lines@ == old_v,
            forall|i: int| 0 <= i < p ==> (#[trigger] lines@[i]).timestamp_ns < ts,
        decreases lines@.len() - p,
    {
        p = p + 1;
    }
    if p < lines.len() && lines[p].timestamp_ns == ts {
        assert(ov[p as int].0 == ts as nat);
        assert(acc.contains(ov[p as int]));
        let ghost k = choose|k: int| 0 <= k < acc.len() && acc[k] == ov[p as int];
        assert(acc[k].0 == ts as nat);
        assert(has_time(acc, ts as nat));
        return;
    }
    assert(!has_time(acc, ts as nat)) by {
        if has_time(acc, ts as nat) {
            let k = choose|k: int| 0 <= k < acc.len() && (#[trigger] acc[k]).0 == ts as nat;
            assert(ov.contains(acc[k]));
            let i = choose|i: int| 0 <= i < ov.len() && ov[i] == acc[k];
            assert(old_v[i].timestamp_ns == ts);
            if i < p {
            } else {
                assert(old_v[p as int].timestamp_ns > ts);
                if i > p {
                    assert(old_v[p as int].timestamp_ns < old_v[i].timestamp_ns);
                }
            }
        }
    }
    let line = LyricLine { timestamp_ns: ts, text: text.clone() };
    lines.insert(p, line);
    let ghost x = (ts as nat, text@);
    let ghost acc2 = acc.push(x);
    let ghost nv = lines_view(lines@);
    assert(nv =~= ov.insert(p as int, x));
    assert forall|i: int, j: int| 0 <= i < j < lines@.len() implies lines@[i].timestamp_ns < lines@[j].timestamp_ns by {
        if j < p {
            assert(lines@[i] == old_v[i] && lines@[j] == old_v[j]);
        } else if j == p {
            assert(lines@[i] == old_v[i]);
        } else if i < p {
            assert(lines@[i] == old_v[i] && lines@[j] == old_v[j - 1]);
            assert(old_v[p as int].timestamp_ns > ts);
            assert(old_v[p as int].timestamp_ns <= old_v[j - 1].timestamp_ns);
        } else if i == p {
            assert(lines@[j] == old_v[j - 1]);
            assert(old_v[p as int].timestamp_ns > ts);
            assert(old_v[p as int].timestamp_ns <= old_v[j - 1].timestamp_ns);
        } else {
            assert(lines@[i] == old_v[i - 1] && lines@[j] == old_v[j - 1]);
        }
    }
    assert forall|k: int| 0 <= k < acc2.len() implies nv.contains(#[trigger] acc2[k]) by {
        if k < acc.len() {
            assert(ov.contains(acc[k]));
            let i = choose|i: int| 0 <= i < ov.len() && ov[i] == acc[k];
            if i < p {
                assert(nv[i] == acc2[k]);
            } else {
                assert(nv[i + 1] == acc2[k]);
            }
        } else {
            assert(nv[p as int] == acc2[k]);
        }
    }
    assert forall|i: int| 0 <= i < nv.len() implies acc2.contains(#[trigger] nv[i]) by {
        if i < p {
            assert(acc.contains(ov[i]));
            let k = choose|k: int| 0 <= k < acc.len() && acc[k] == ov[i];
            assert(acc2[k] == nv[i]);
        } else if i == p {
            assert(acc2[acc.len() as int] == nv[i]);
        } else {
            assert(acc.contains(ov[i - 1]));
            let k = choose|k: int| 0 <= k < acc.len() && acc[k] == ov[i - 1];
            assert(acc2[k] == nv[i]);
        }
    }
    assert forall|i: int, j: int| 0 <= i < j < acc2.len() implies acc2[i].0 != acc2[j].0 by {
        if j == acc.len() {
            assert(acc2[i] == acc[i]);
            assert(acc[i].0 != ts as nat) by {
                if acc[i].0 == ts as nat {
                    assert(has_time(acc, ts as nat));
                }
            }
        } else {
            assert(acc2[i] == acc[i] && acc2[j] == acc[j]);
        }
    }
}


/// Whether all tags of the line `t` are safe to read (see `tag_safe`).
pub open spec fn line_safe(t: Seq<char>) -> bool {
    forall|j: int| 0 <= j < line_tags(t).len() ==> tag_safe(#[trigger] line_tags(t)[j])
}

/// Adds the entries of the raw line `cs[a..b]` to the sorted `lines`.
fn process_line(cs: &Vec<char>, a: usize, b: usize, lines: &mut Vec<LyricLine>, Ghost(acc): Ghost<Seq<(nat, Seq<char>)>>)
    requires
        a <= b <= cs@.len(),
        sorted_strict(old(lines)@),
        same_entries(lines_view(old(lines)@), acc),
        distinct_times(acc),
        trim(cs@.subrange(a as int, b as int)).len() > 0 ==> line_safe(trim(cs@.subrange(a as int, b as int))),
    ensures
        sorted_strict(final(lines)@),
        same_entries(lines_view(final(lines)@), add_line(acc, cs@.subrange(a as int, b as int))),
        distinct_times(add_line(acc, cs@.subrange(a as int, b as int))),
{
    let (ta, tb) = trim_bounds(cs, a, b);
    let ghost t = cs@.subrange(ta as int, tb as int);
    if ta == tb {
        return;
    }
    let tags = tag_ranges(cs, ta, tb);
    let ghost tg = line_tags(t);
    let mut times: Vec<u128> = Vec::new();
    let mut j: usize = 0;
    assert(tg.take(0) =~= Seq::<Seq<char>>::empty());
    while j < tags.len()
        invariant
            ta <= tb <= cs@.len(),
            t == cs@.subrange(ta as int, tb as int),
            tg == line_tags(t),
            line_safe(t),
            j <= tags@.len(),
            tags@.len() == tg.len(),
            forall|i: int| 0 <= i < tags@.len() ==> {
                &&& ta <= (#[trigger] tags@[i]).0 <= tags@[i].1 <= tb
                &&& cs@.subrange(tags@[i].0 as int, tags@[i].1 as int) == tg[i]
            },
            times@.len() == tag_times(tg.take(j as int)).len(),
            forall|i: int| 0 <= i < times@.len() ==> (#[trigger] times@[i]) as nat == tag_times(tg.take(j as int))[i],
        decreases tags@.len() - j,
    {
        let (x, y) = tags[j];
        assert(tg.take(j + 1).drop_last() =~= tg.take(j as int));
        assert(tg.take(j + 1).last() == tg[j as int]);
        assert(tag_safe(tg[j as int]));
        match parse_timestamp(cs, x, y) {
            Some(v) => {
                times.push(v);
            },
            None => {},
        }
        j = j + 1;
    }
    assert(tg.take(tg.len() as int) =~= tg);
    let ghost tt = tag_times(tg);
    let k = text_start(cs, ta, tb);
    let (xa, xb) = trim_bounds(cs, k, tb);
    if xa == xb {
        return;
    }
    let text = string_from_range(cs, xa, xb);
    assert(text@ == line_text(t));
    let mut i: usize = 0;
    assert(tt.take(0) =~= Seq::<nat>::empty());
    while i < times.len()
        invariant
            i <= times@.len(),
            times@.len() == tt.len(),
            forall|m: int| 0 <= m < times@.len() ==> (#[trigger] times@[m]) as nat == tt[m],
            sorted_strict(lines@),
            same_entries(lines_view(lines@), add_times(acc, tt.take(i as int), text@)),
            distinct_times(add_times(acc, tt.take(i as int), text@)),
        decreases times@.len() - i,
    {
        assert(tt.take(i + 1).drop_last() =~= tt.take(i as int));
        assert(tt.take(i + 1).last() == tt[i as int]);
        add_time(lines, times[i], &text, Ghost(add_times(acc, tt.take(i as int), text@)));
        i = i + 1;
    }
    assert(tt.take(tt.len() as int) =~= tt);
}

/// Reads the lyric lines of an LRC file's content: every line's text at each of its
/// time tags (a time met before keeps its first text), sorted by time.  `None` where
/// no line has both a time and text.
pub fn parse_lrc(content: &str) -> (res: Option<Vec<LyricLine>>)
    requires
        lrc_safe(content@),
    ensures
        res is None <==> lrc_entries(content@).len() == 0,
        res matches Some(v) ==> sorted_strict(v@) && same_entries(lines_view(v@), lrc_entries(content@)),
{
    let cs = chars_of(content);
    let ranges = line_ranges(&cs);
    let ghost ls = split_lines(cs@);
    let mut lines: Vec<LyricLine> = Vec::new();
    let mut k: usize = 0;
    assert(ls.take(0) =~= Seq::<Seq<char>>::empty());
    assert(lines_view(lines@) =~= Seq::<(nat, Seq<char>)>::empty());
    while k < ranges.len()
        invariant
            cs@ == content@,
            ls == split_lines(cs@),
            lrc_safe(content@),
            k <= ranges@.len(),
            ranges@.len() == ls.len(),
            forall|m: int| 0 <= m < ranges@.len() ==> {
                &&& (#[trigger] ranges@[m]).0 <= ranges@[m].1 <= cs@.len()
                &&& cs@.subrange(ranges@[m].0 as int, ranges@[m].1 as int) == ls[m]
            },
            sorted_strict(lines@),
            same_entries(lines_view(lines@), add_lines(ls.take(k as int))),
            distinct_times(add_lines(ls.take(k as int))),
        decreases ranges@.len() - k,
    {
        let (a, b) = ranges[k];
        assert(ls.take(k + 1).drop_last() =~= ls.take(k as int));
        assert(ls.take(k + 1).last() == ls[k as int]);
        let ghost t = trim(ls[k as int]);
        assert(t.len() > 0 ==> line_safe(t));
        process_line(&cs, a, b, &mut lines, Ghost(add_lines(ls.take(k as int))));
        k = k + 1;
    }
    assert(ls.take(ls.len() as int) =~= ls);
    if lines.len() == 0 {
        None
    } else {
        Some(lines)
    }
}


/// Decides `tag_safe` for the tag `cs[from..to]`.
fn tag_is_safe(cs: &Vec<char>, from: usize, to: usize) -> (res: bool)
    requires
        from <= to <= cs@.len(),
    ensures
        res == tag_safe(cs@.subrange(from as int, to as int)),
{
    let ghost s = cs@.subrange(from as int, to as int);
    let colon = match find_in(cs, from, to, ':') {
        None => return true,
        Some(k) => from + k,
    };
    assert(s.take(colon - from) == cs@.subrange(from as int, colon as int));
    let minutes = match parse_u64_range(cs, from, colon) {
        None => return true,
        Some(m) => m,
    };
    let ghost rest = s.skip(colon - from + 1);
    assert(rest == cs@.subrange(colon + 1, to as int));
    let dot = match find_in(cs, colon + 1, to, '.') {
        None => {
            return match parse_u64_range(cs, colon + 1, to) {
                None => true,
                Some(sec) => (minutes as u128) * 60 + (sec as u128) <= u64::MAX as u128,
            };
        },
        Some(k) => colon + 1 + k,
    };
    assert(rest.take(dot - colon - 1) == cs@.subrange(colon + 1, dot as int));
    let seconds = match parse_u64_range(cs, colon + 1, dot) {
        None => return true,
        Some(v) => v,
    };
    assert(rest.skip(dot - colon) == cs@.subrange(dot + 1, to as int));
    let flen = match frac_prefix_len(cs, dot + 1, to) {
        None => return false,
        Some(k) => k,
    };
    match parse_u64_range(cs, dot + 1, dot + 1 + flen) {
        None => true,
        Some(_) => (minutes as u128) * 60 + (seconds as u128) <= u64::MAX as u128,
    }
}

/// Decides `lrc_safe`: whether `parse_lrc` may be given `content` (reading
/// its tags would not panic).
pub fn lrc_content_is_safe(content: &str) -> (res: bool)
    ensures
        res == lrc_safe(content@),
{
    let cs = chars_of(content);
    let ranges = line_ranges(&cs);
    let ghost ls = split_lines(cs@);
    let mut k: usize = 0;
    while k < ranges.len()
        invariant
            cs@ == content@,
            ls == split_lines(cs@),
            k <= ranges@.len(),
            ranges@.len() == ls.len(),
            forall|m: int| 0 <= m < ranges@.len() ==> {
                &&& (#[trigger] ranges@[m]).0 <= ranges@[m].1 <= cs@.len()
                &&& cs@.subrange(ranges@[m].0 as int, ranges@[m].1 as int) == ls[m]
            },
            forall|m: int| 0 <= m < k ==> {
                let t = #[trigger] trim(ls[m]);
                t.len() > 0 ==> line_safe(t)
            },
        decreases ranges@.len() - k,
    {
        let (a, b) = ranges[k];
        let (ta, tb) = trim_bounds(&cs, a, b);
        if ta < tb {
            let tags = tag_ranges(&cs, ta, tb);
            let ghost t = cs@.subrange(ta as int, tb as int);
            assert(t == trim(ls[k as int]));
            let mut j: usize = 0;
            while j < tags.len()
                invariant
                    cs@ == content@,
                    ls == split_lines(cs@),
                    k < ls.len(),
                    t == trim(ls[k as int]),
                    ta <= tb <= cs@.len(),
                    t == cs@.subrange(ta as int, tb as int),
                    j <= tags@.len(),
                    tags@.len() == line_tags(t).len(),
                    forall|i: int| 0 <= i < tags@.len() ==> {
                        &&& ta <= (#[trigger] tags@[i]).0 <= tags@[i].1 <= tb
                        &&& cs@.subrange(tags@[i].0 as int, tags@[i].1 as int) == line_tags(t)[i]
                    },
                    forall|i: int| 0 <= i < j ==> tag_safe(#[trigger] line_tags(t)[i]),
                decreases tags@.len() - j,
            {
                let (x, y) = tags[j];
                if !tag_is_safe(&cs, x, y) {
                    assert(!line_safe(t));
                    assert(t.len() > 0);
                    assert(split_lines(content@)[k as int] == ls[k as int]);
                    assert(!lrc_safe(content@));
                    return false;
                }
                j = j + 1;
            }
            assert(line_safe(t));
        } else {
            assert(trim(ls[k as int]).len() == 0);
        }
        k = k + 1;
    }
    true
}

} // verus!
