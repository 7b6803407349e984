//! Text layout for the panels: durations, truncation and word wrapping.
use vstd::prelude::*;
use crate::text::{
    chars_of, count_lead_white, count_trail_white, is_white, lemma_lead_white, lemma_trail_white, lead_white, trail_white,
    string_from_chars, string_from_range, string_push, trim_end, trim_start,
};
use crate::track::{format_mm_ss, mm_ss, NANOS_PER_SEC};

verus! {

broadcast use vstd::string::group_string_axioms;

/// "MM:SS" of a duration given in nanoseconds.
pub fn format_duration(d_ns: u128) -> (res: String)
    ensures
        res@ == mm_ss((d_ns / NANOS_PER_SEC) as nat),
{
    format_mm_ss(d_ns)
}

// ───────────────────────── terminal columns ─────────────────────────

/// What ratatui's `Span::width` gives for the text of the one character `c`: how
/// many terminal columns `c` takes by the rules of the `unicode-width` crate (two
/// for a wide East Asian character, none for a combining mark).
pub uninterp spec fn char_columns(c: char) -> nat;

/// `ratatui::text::Span::width` on the text of the single character `c`.  The
/// contract names the result `char_columns(c)` and claims nothing more of it.
#[verifier::external_body]
fn columns_of(c: char) -> (w: usize)
    ensures
        w == char_columns(c),
{
    ratatui::text::Span::raw(c.to_string()).width()
}

/// How many terminal columns `s` takes: the sum of its characters' widths.
pub open spec fn text_columns(s: Seq<char>) -> nat
    decreases s.len(),
{
    if s.len() == 0 { 0 } else { char_columns(s[0]) + text_columns(s.drop_first()) }
}

/// How many leading characters of `s` fit in `budget` columns.
pub open spec fn fit_count(s: Seq<char>, budget: nat) -> nat
    decreases s.len(),
{
    if s.len() == 0 || char_columns(s[0]) > budget {
        0
    } else {
        1 + fit_count(s.drop_first(), (budget - char_columns(s[0])) as nat)
    }
}

pub proof fn lemma_columns_concat(a: Seq<char>, b: Seq<char>)
    ensures
        text_columns(a + b) == text_columns(a) + text_columns(b),
    decreases a.len(),
{
    if a.len() == 0 {
        assert(a + b =~= b);
    } else {
        lemma_columns_concat(a.drop_first(), b);
        assert((a + b).drop_first() =~= a.drop_first() + b);
        assert((a + b)[0] == a[0]);
    }
}

proof fn lemma_columns_one(c: char)
    ensures
        text_columns(seq![c]) == char_columns(c),
{
    assert(seq![c].drop_first() =~= Seq::<char>::empty());
    assert(text_columns(seq![c].drop_first()) == 0);
}

/// The columns of the first `k + 1` characters: those of the first `k` and of character `k`.
pub proof fn lemma_columns_take(r: Seq<char>, k: int)
    requires
        0 <= k < r.len(),
    ensures
        text_columns(r.take(k + 1)) == text_columns(r.take(k)) + char_columns(r[k]),
{
    assert(r.take(k + 1) =~= r.take(k) + seq![r[k]]);
    lemma_columns_concat(r.take(k), seq![r[k]]);
    lemma_columns_one(r[k]);
}

/// A prefix takes no more columns than the whole.
proof fn lemma_columns_mono(r: Seq<char>, a: int, b: int)
    requires
        0 <= a <= b <= r.len(),
    ensures
        text_columns(r.take(a)) <= text_columns(r.take(b)),
    decreases b - a,
{
    if a < b {
        lemma_columns_mono(r, a, b - 1);
        lemma_columns_take(r, b - 1);
    }
}

/// The characters `fit_count` counts are at most all of them and fit in the
/// budget; they are all of them exactly when the whole text fits.
pub proof fn lemma_fit_count(s: Seq<char>, budget: nat)
    ensures
        fit_count(s, budget) <= s.len(),
        text_columns(s.take(fit_count(s, budget) as int)) <= budget,
        (fit_count(s, budget) == s.len()) == (text_columns(s) <= budget),
    decreases s.len(),
{
    if s.len() == 0 {
        assert(s.take(0).len() == 0);
    } else if char_columns(s[0]) > budget {
        assert(s.take(0).len() == 0);
        assert(text_columns(s) >= char_columns(s[0]));
    } else {
        let t = s.drop_first();
        let b2 = (budget - char_columns(s[0])) as nat;
        lemma_fit_count(t, b2);
        let k = fit_count(t, b2);
        assert(s.take(k + 1 as int).drop_first() =~= t.take(k as int));
        assert(s.take(k + 1 as int)[0] == s[0]);
    }
}

/// `fit_count(cs[from..], budget)`.
fn fit_count_at(cs: &Vec<char>, from: usize, budget: usize) -> (k: usize)
    requires
        from <= cs@.len(),
    ensures
        k == fit_count(cs@.subrange(from as int, cs@.len() as int), budget as nat),
        k <= cs@.len() - from,
{
    let n = cs.len();
    let mut i = from;
    let mut left = budget;
    while i < n
        invariant
            from <= i <= n == cs@.len(),
            fit_count(cs@.subrange(from as int, n as int), budget as nat)
                == (i - from) + fit_count(cs@.subrange(i as int, n as int), left as nat),
        decreases n - i,
    {
        let ghost r = cs@.subrange(i as int, n as int);
        assert(r[0] == cs@[i as int]);
        assert(r.drop_first() =~= cs@.subrange(i + 1, n as int));
        let w = columns_of(cs[i]);
        if w > left {
            return i - from;
        }
        left = left - w;
        i = i + 1;
    }
    assert(cs@.subrange(i as int, n as int).len() == 0);
    i - from
}

// ───────────────────────── truncation ─────────────────────────

/// `s` cut to at most `max` terminal columns: a wider text keeps the characters
/// that fit in `max` columns less the width of an ellipsis, and gets an ellipsis.
pub open spec fn truncated(s: Seq<char>, max: nat) -> Seq<char> {
    if text_columns(s) <= max {
        s
    } else {
        let e = char_columns('…');
        let budget: nat = if e <= max { (max - e) as nat } else { 0 };
        s.take(fit_count(s, budget) as int) + seq!['…']
    }
}

/// Cuts `s` to at most `max` terminal columns (see `truncated`).  A text cut to
/// no columns at all is left out, as it was out of range before.
pub fn truncate(s: &str, max: usize) -> (res: String)
    requires
        max > 0 || s@.len() == 0,
    ensures
        res@ == truncated(s@, max as nat),
{
    let cs = chars_of(s);
    assert(cs@.subrange(0, cs@.len() as int) == cs@);
    let all = fit_count_at(&cs, 0, max);
    proof { lemma_fit_count(cs@, max as nat); }
    if all == cs.len() {
        return string_from_chars(&cs);
    }
    let e = columns_of('…');
    let budget: usize = if e <= max { max - e } else { 0 };
    let k = fit_count_at(&cs, 0, budget);
    let mut out = string_from_range(&cs, 0, k);
    string_push(&mut out, '…');
    assert(cs@.subrange(0, k as int) == cs@.take(k as int));
    out
}

/// A text that fits is kept as it is, and a truncated text is never wider than
/// the limit (where the ellipsis itself fits in it).
pub proof fn law_truncate_fits(s: Seq<char>, max: nat)
    requires
        max > 0 || s.len() == 0,
    ensures
        text_columns(s) <= max ==> truncated(s, max) == s,
        char_columns('…') <= max ==> text_columns(truncated(s, max)) <= max,
{
    if text_columns(s) > max && char_columns('…') <= max {
        let budget = (max - char_columns('…')) as nat;
        lemma_fit_count(s, budget);
        let p = s.take(fit_count(s, budget) as int);
        lemma_columns_concat(p, seq!['…']);
        lemma_columns_one('…');
    }
}

// ───────────────────────── wrapping ─────────────────────────

/// The characters at which a lyric line may break.
pub open spec fn is_break(c: char) -> bool {
    c == ' ' || c == '\u{3000}'
}

/// The last position `k < n` whose character is a break and starts before column `max`.
pub open spec fn last_break(r: Seq<char>, max: nat, n: int) -> Option<int>
    decreases n,
{
    if n <= 0 {
        None
    } else if text_columns(r.take(n - 1)) < max && is_break(r[n - 1]) {
        Some(n - 1)
    } else {
        last_break(r, max, n - 1)
    }
}

pub proof fn lemma_last_break(r: Seq<char>, max: nat, n: int)
    ensures
        last_break(r, max, n) matches Some(k) ==> 0 <= k < n && is_break(r[k])
            && text_columns(r.take(k)) < max,
    decreases n,
{
    if n > 0 {
        lemma_last_break(r, max, n - 1);
    }
}

pub proof fn lemma_trim_start_shorter(s: Seq<char>)
    requires
        s.len() > 0,
        is_white(s[0]),
    ensures
        trim_start(s).len() < s.len(),
{
    lemma_lead_white(s);
}

/// How many characters a row cut without a break takes: those that fit in `max`
/// columns, and at least one (a character wider than the row gets a row of its own).
pub open spec fn cut_len(r: Seq<char>, max: nat) -> nat {
    if fit_count(r, max) == 0 { 1 } else { fit_count(r, max) }
}

/// The rows `r` wraps into at `max` terminal columns: a text that fits is one row;
/// else it breaks at its last break character that starts before column `max` (or
/// after the characters that fit where there is none), the row loses its trailing
/// white space and the rest its leading white space.
pub open spec fn wrap_rows(r: Seq<char>, max: nat) -> Seq<Seq<char>>
    decreases r.len(),
{
    if r.len() == 0 || max == 0 {
        Seq::empty()
    } else if text_columns(r) <= max {
        seq![r]
    } else {
        match last_break(r, max, r.len() as int) {
            Some(k) => {
                proof {
                    lemma_last_break(r, max, r.len() as int);
                    assert(r.skip(k)[0] == r[k]);
                    lemma_trim_start_shorter(r.skip(k));
                }
                seq![trim_end(r.take(k))] + wrap_rows(trim_start(r.skip(k)), max)
            },
            None => {
                proof {
                    lemma_fit_count(r, max);
                    lemma_lead_white(r.skip(cut_len(r, max) as int));
                }
                seq![trim_end(r.take(cut_len(r, max) as int))] + wrap_rows(trim_start(r.skip(cut_len(r, max) as int)), max)
            },
        }
    }
}

/// The rows of `text` at width `max_width`: the text itself where the width is 0.
pub open spec fn wrapped(text: Seq<char>, max_width: nat) -> Seq<Seq<char>> {
    if max_width == 0 { seq![text] } else { wrap_rows(text, max_width) }
}

proof fn lemma_last_break_stop(r: Seq<char>, max: nat, a: int, n: int)
    requires
        0 <= a <= n <= r.len(),
        text_columns(r.take(a)) >= max,
    ensures
        last_break(r, max, n) == last_break(r, max, a),
    decreases n - a,
{
    if n > a {
        lemma_columns_mono(r, a, n - 1);
        lemma_last_break_stop(r, max, a, n - 1);
    }
}

proof fn lemma_wrap_unfold(r: Seq<char>, max: nat)
    requires
        r.len() > 0,
        max > 0,
        text_columns(r) > max,
    ensures
        wrap_rows(r, max) == (match last_break(r, max, r.len() as int) {
            Some(k) => seq![trim_end(r.take(k))] + wrap_rows(trim_start(r.skip(k)), max),
            None => seq![trim_end(r.take(cut_len(r, max) as int))] + wrap_rows(trim_start(r.skip(cut_len(r, max) as int)), max),
        }),
{
}

/// One row of `cs[pos..]` when that text is wider than `max`: the row's range and
/// where the rest starts.
#[verifier::rlimit(30)]
fn wrap_step(cs: &Vec<char>, pos: usize, max: usize) -> (res: (usize, usize, usize))
    requires
        max > 0,
        pos < cs@.len(),
        text_columns(cs@.subrange(pos as int, cs@.len() as int)) > max,
    ensures
        ({
            let r = cs@.subrange(pos as int, cs@.len() as int);
            let (a, b, next) = res;
            &&& pos <= a <= b <= cs@.len()
            &&& pos < next <= cs@.len()
            &&& wrap_rows(r, max as nat) == seq![cs@.subrange(a as int, b as int)]
                + wrap_rows(cs@.subrange(next as int, cs@.len() as int), max as nat)
        }),
{
    let n = cs.len();
    let ghost r = cs@.subrange(pos as int, n as int);
    let mut k: usize = 0;
    let mut cols: u128 = 0;
    let mut last: Option<usize> = None;
    assert(r.take(0).len() == 0);
    while k < n - pos && cols < max as u128
        invariant
            r == cs@.subrange(pos as int, n as int),
            pos + k <= n == cs@.len(),
            cols == text_columns(r.take(k as int)),
            last == (match last_break(r, max as nat, k as int) { Some(j) => Some(j as usize), None => None::<usize> }),
        decreases n - pos - k,
    {
        proof { lemma_columns_take(r, k as int); }
        let c = cs[pos + k];
        assert(r[k as int] == c);
        if c == ' ' || c == '\u{3000}' {
            last = Some(k);
        }
        cols = cols + columns_of(c) as u128;
        k = k + 1;
    }
    proof {
        if k < r.len() {
            lemma_last_break_stop(r, max as nat, k as int, r.len() as int);
        } else {
            assert(r.take(k as int) =~= r);
        }
        lemma_wrap_unfold(r, max as nat);
    }
    match last {
        Some(j) => {
            proof { lemma_last_break(r, max as nat, r.len() as int); }
            let tw = count_trail_white(cs, pos, pos + j);
            let lw = count_lead_white(cs, pos + j, n);
            assert(cs@.subrange(pos as int, pos + j) == r.take(j as int));
            assert(cs@.subrange(pos + j, n as int) == r.skip(j as int));
            proof { lemma_trail_white(r.take(j as int)); lemma_lead_white(r.skip(j as int)); }
            assert(cs@.subrange(pos as int, pos + j - tw) == trim_end(r.take(j as int)));
            assert(cs@.subrange(pos + j + lw, n as int) == trim_start(r.skip(j as int)));
            assert(r.skip(j as int)[0] == r[j as int]);
            (pos, pos + j - tw, pos + j + lw)
        },
        None => {
            let f = fit_count_at(cs, pos, max);
            let m = if f == 0 { 1 } else { f };
            assert(m == cut_len(r, max as nat));
            let tw = count_trail_white(cs, pos, pos + m);
            let lw = count_lead_white(cs, pos + m, n);
            assert(cs@.subrange(pos as int, pos + m) == r.take(m as int));
            assert(cs@.subrange(pos + m, n as int) == r.skip(m as int));
            proof { lemma_trail_white(r.take(m as int)); lemma_lead_white(r.skip(m as int)); }
            assert(cs@.subrange(pos as int, pos + m - tw) == trim_end(r.take(m as int)));
            assert(cs@.subrange(pos + m + lw, n as int) == trim_start(r.skip(m as int)));
            (pos, pos + m - tw, pos + m + lw)
        },
    }
}

/// The row ranges of `cs` wrapped at `max` (> 0) columns.
fn wrap_ranges(cs: &Vec<char>, max: usize) -> (v: Vec<(usize, usize)>)
    requires
        max > 0,
    ensures
        v@.len() == wrap_rows(cs@, max as nat).len(),
        forall|i: int| 0 <= i < v@.len() ==> {
            &&& (#[trigger] v@[i]).0 <= v@[i].1 <= cs@.len()
            &&& cs@.subrange(v@[i].0 as int, v@[i].1 as int) == wrap_rows(cs@, max as nat)[i]
        },
{
    let n = cs.len();
    let mut out: Vec<(usize, usize)> = Vec::new();
    let mut pos: usize = 0;
    let ghost mut rows: Seq<Seq<char>> = Seq::empty();
    assert(cs@.subrange(0, n as int) == cs@);
    while pos < n
        invariant
            n == cs@.len(),
            pos <= n,
            max > 0,
            wrap_rows(cs@, max as nat) == rows + wrap_rows(cs@.subrange(pos as int, n as int), max as nat),
            out@.len() == rows.len(),
            forall|i: int| 0 <= i < out@.len() ==> {
                &&& (#[trigger] out@[i]).0 <= out@[i].1 <= cs@.len()
                &&& cs@.subrange(out@[i].0 as int, out@[i].1 as int) == rows[i]
            },
        decreases n - pos,
    {
        let ghost r = cs@.subrange(pos as int, n as int);
        let f = fit_count_at(cs, pos, max);
        proof { lemma_fit_count(r, max as nat); }
        if f == n - pos {
            out.push((pos, n));
            proof { rows = rows.push(r); }
            assert(cs@.subrange(n as int, n as int).len() == 0);
            assert(rows + Seq::<Seq<char>>::empty() =~= rows);
            pos = n;
        } else {
            let (a, b, next) = wrap_step(cs, pos, max);
            out.push((a, b));
            proof {
                let row = cs@.subrange(a as int, b as int);
                assert(rows + (seq![row] + wrap_rows(cs@.subrange(next as int, n as int), max as nat))
                    =~= rows.push(row) + wrap_rows(cs@.subrange(next as int, n as int), max as nat));
                rows = rows.push(row);
            }
            pos = next;
        }
    }
    assert(cs@.subrange(n as int, n as int).len() == 0);
    assert(rows + Seq::<Seq<char>>::empty() =~= rows);
    out
}

/// The rows of a lyric line wrapped to `max_width` terminal columns (see `wrapped`).
pub fn wrap_text(text: &str, max_width: usize) -> (res: Vec<String>)
    ensures
        res@.len() == wrapped(text@, max_width as nat).len(),
        forall|i: int| 0 <= i < res@.len() ==> (#[trigger] res@[i])@ == wrapped(text@, max_width as nat)[i],
{
    let cs = chars_of(text);
    if max_width == 0 {
        let mut v: Vec<String> = Vec::new();
        v.push(string_from_chars(&cs));
        return v;
    }
    let ranges = wrap_ranges(&cs, max_width);
    let mut v: Vec<String> = Vec::new();
    let mut i: usize = 0;
    while i < ranges.len()
        invariant
            i <= ranges@.len(),
            ranges@.len() == wrap_rows(cs@, max_width as nat).len(),
            forall|m: int| 0 <= m < ranges@.len() ==> {
                &&& (#[trigger] ranges@[m]).0 <= ranges@[m].1 <= cs@.len()
                &&& cs@.subrange(ranges@[m].0 as int, ranges@[m].1 as int) == wrap_rows(cs@, max_width as nat)[m]
            },
            v@.len() == i,
            forall|m: int| 0 <= m < i ==> (#[trigger] v@[m])@ == wrap_rows(cs@, max_width as nat)[m],
        decreases ranges@.len() - i,
    {
        let (a, b) = ranges[i];
        v.push(string_from_range(&cs, a, b));
        i = i + 1;
    }
    v
}

/// A row without its trailing white space takes no more columns than the row.
proof fn lemma_trim_end_columns(s: Seq<char>)
    ensures
        text_columns(trim_end(s)) <= text_columns(s),
{
    lemma_trail_white(s);
    let k = s.len() - trail_white(s);
    assert(s =~= s.take(k) + s.skip(k));
    lemma_columns_concat(s.take(k), s.skip(k));
}

/// Every wrapped row fits in `max_width` terminal columns, but for a row of a
/// single character wider than that.
pub proof fn law_wrapped_rows_fit(text: Seq<char>, max_width: nat)
    requires
        max_width > 0,
    ensures
        forall|i: int| 0 <= i < wrap_rows(text, max_width).len() ==> {
            let row = #[trigger] wrap_rows(text, max_width)[i];
            text_columns(row) <= max_width || row.len() == 1
        },
    decreases text.len(),
{
    let r = text;
    if r.len() == 0 || text_columns(r) <= max_width {
    } else {
        match last_break(r, max_width, r.len() as int) {
            Some(k) => {
                lemma_last_break(r, max_width, r.len() as int);
                assert(r.skip(k)[0] == r[k]);
                lemma_trim_start_shorter(r.skip(k));
                law_wrapped_rows_fit(trim_start(r.skip(k)), max_width);
                lemma_trim_end_columns(r.take(k));
                let rest = wrap_rows(trim_start(r.skip(k)), max_width);
                assert forall|i: int| 0 <= i < wrap_rows(r, max_width).len() implies {
                    let row = #[trigger] wrap_rows(r, max_width)[i];
                    text_columns(row) <= max_width || row.len() == 1
                } by {
                    if i > 0 {
                        assert(wrap_rows(r, max_width)[i] == rest[i - 1]);
                    }
                }
            },
            None => {
                lemma_fit_count(r, max_width);
                let m = cut_len(r, max_width) as int;
                lemma_lead_white(r.skip(m));
                law_wrapped_rows_fit(trim_start(r.skip(m)), max_width);
                lemma_trim_end_columns(r.take(m));
                lemma_trail_white(r.take(m));
                let rest = wrap_rows(trim_start(r.skip(m)), max_width);
                assert forall|i: int| 0 <= i < wrap_rows(r, max_width).len() implies {
                    let row = #[trigger] wrap_rows(r, max_width)[i];
                    text_columns(row) <= max_width || row.len() == 1
                } by {
                    if i > 0 {
                        assert(wrap_rows(r, max_width)[i] == rest[i - 1]);
                    } else if fit_count(r, max_width) == 0 {
                        assert(trim_end(r.take(1)).len() <= 1);
                        if trim_end(r.take(1)).len() == 0 {
                            assert(text_columns(trim_end(r.take(1))) == 0);
                        }
                    }
                }
            },
        }
    }
}

/// The characters of `s` that are not white space, in order.
pub open spec fn non_white(s: Seq<char>) -> Seq<char>
    decreases s.len(),
{
    if s.len() == 0 {
        Seq::empty()
    } else if is_white(s[0]) {
        non_white(s.drop_first())
    } else {
        seq![s[0]] + non_white(s.drop_first())
    }
}

/// The rows one after the other.
pub open spec fn joined(rows: Seq<Seq<char>>) -> Seq<char>
    decreases rows.len(),
{
    if rows.len() == 0 { Seq::empty() } else { rows[0] + joined(rows.drop_first()) }
}

proof fn lemma_non_white_concat(a: Seq<char>, b: Seq<char>)
    ensures
        non_white(a + b) == non_white(a) + non_white(b),
    decreases a.len(),
{
    if a.len() == 0 {
        assert(a + b =~= b);
    } else {
        lemma_non_white_concat(a.drop_first(), b);
        assert((a + b).drop_first() =~= a.drop_first() + b);
        assert((a + b)[0] == a[0]);
        if !is_white(a[0]) {
            assert(seq![a[0]] + (non_white(a.drop_first()) + non_white(b))
                =~= (seq![a[0]] + non_white(a.drop_first())) + non_white(b));
        }
    }
}

proof fn lemma_non_white_of_white(s: Seq<char>)
    requires
        forall|i: int| 0 <= i < s.len() ==> is_white(#[trigger] s[i]),
    ensures
        non_white(s) == Seq::<char>::empty(),
    decreases s.len(),
{
    if s.len() > 0 {
        let t = s.drop_first();
        assert forall|i: int| 0 <= i < t.len() implies is_white(#[trigger] t[i]) by {
            assert(t[i] == s[i + 1]);
        }
        lemma_non_white_of_white(t);
    }
}

/// Trimming white space at either end keeps the other characters.
proof fn lemma_non_white_trims(s: Seq<char>)
    ensures
        non_white(trim_end(s)) == non_white(s),
        non_white(trim_start(s)) == non_white(s),
{
    lemma_trail_white(s);
    let k = s.len() - trail_white(s);
    assert(s =~= s.take(k) + s.skip(k));
    lemma_non_white_concat(s.take(k), s.skip(k));
    assert forall|i: int| 0 <= i < s.skip(k).len() implies is_white(#[trigger] s.skip(k)[i]) by {
        assert(s.skip(k)[i] == s[k + i]);
    }
    lemma_non_white_of_white(s.skip(k));
    assert(non_white(s.take(k)) + Seq::<char>::empty() =~= non_white(s.take(k)));
    lemma_lead_white(s);
    let j = lead_white(s) as int;
    assert(s =~= s.take(j) + s.skip(j));
    lemma_non_white_concat(s.take(j), s.skip(j));
    assert forall|i: int| 0 <= i < s.take(j).len() implies is_white(#[trigger] s.take(j)[i]) by {
        assert(s.take(j)[i] == s[i]);
    }
    lemma_non_white_of_white(s.take(j));
    assert(Seq::<char>::empty() + non_white(s.skip(j)) =~= non_white(s.skip(j)));
}

/// Wrapping loses no character and reorders none: only white space at the
/// breaks is dropped.
pub proof fn law_wrap_keeps_text(text: Seq<char>, max_width: nat)
    requires
        max_width > 0,
    ensures
        non_white(joined(wrap_rows(text, max_width))) == non_white(text),
    decreases text.len(),
{
    let r = text;
    if r.len() == 0 {
    } else if text_columns(r) <= max_width {
        assert(seq![r].drop_first() =~= Seq::<Seq<char>>::empty());
        assert(joined(Seq::<Seq<char>>::empty()) == Seq::<char>::empty());
        assert(r + Seq::<char>::empty() =~= r);
        assert(joined(seq![r]) == r);
    } else {
        let (row, rest, k) = match last_break(r, max_width, r.len() as int) {
            Some(k) => {
                lemma_last_break(r, max_width, r.len() as int);
                assert(r.skip(k)[0] == r[k]);
                lemma_trim_start_shorter(r.skip(k));
                (trim_end(r.take(k)), trim_start(r.skip(k)), k)
            },
            None => {
                lemma_fit_count(r, max_width);
                let m = cut_len(r, max_width) as int;
                lemma_lead_white(r.skip(m));
                (trim_end(r.take(m)), trim_start(r.skip(m)), m)
            },
        };
        assert(wrap_rows(r, max_width) == seq![row] + wrap_rows(rest, max_width));
        law_wrap_keeps_text(rest, max_width);
        let rows = seq![row] + wrap_rows(rest, max_width);
        assert(rows.drop_first() =~= wrap_rows(rest, max_width));
        assert(rows[0] == row);
        assert(joined(rows) == row + joined(wrap_rows(rest, max_width)));
        lemma_non_white_concat(row, joined(wrap_rows(rest, max_width)));
        lemma_non_white_trims(r.take(k));
        lemma_non_white_trims(r.skip(k));
        assert(r =~= r.take(k) + r.skip(k));
        lemma_non_white_concat(r.take(k), r.skip(k));
    }
}

proof fn lemma_last_break_is(r: Seq<char>, max: nat, k: int, n: int)
    requires
        0 <= k < n <= r.len(),
        is_break(r[k]),
        text_columns(r.take(k)) < max,
        forall|j: int| k < j < r.len() && #[trigger] is_break(r[j]) ==> text_columns(r.take(j)) >= max,
    ensures
        last_break(r, max, n) == Some(k),
    decreases n,
{
    if n > k + 1 {
        lemma_last_break_is(r, max, k, n - 1);
        if is_break(r[n - 1]) {
            assert(text_columns(r.take(n - 1)) >= max);
        }
    }
}

/// A text too wide for its row breaks at the last break character that starts
/// before column `max` (so the first row is as long as it can be): the row is the
/// text before that character, the rest wraps on its own.
pub proof fn law_wrap_breaks_at_last_space(r: Seq<char>, max: nat, k: int)
    requires
        max > 0,
        text_columns(r) > max,
        0 <= k < r.len(),
        is_break(r[k]),
        text_columns(r.take(k)) < max,
        forall|j: int| k < j < r.len() && #[trigger] is_break(r[j]) ==> text_columns(r.take(j)) >= max,
    ensures
        wrap_rows(r, max) == seq![trim_end(r.take(k))] + wrap_rows(trim_start(r.skip(k)), max),
{
    lemma_last_break_is(r, max, k, r.len() as int);
    lemma_wrap_unfold(r, max);
}

/// Where no break character starts before column `max`, the first row takes the
/// characters that fit (at least one).
pub proof fn law_wrap_cuts_without_space(r: Seq<char>, max: nat)
    requires
        max > 0,
        text_columns(r) > max,
        forall|j: int| 0 <= j < r.len() && #[trigger] is_break(r[j]) ==> text_columns(r.take(j)) >= max,
    ensures
        wrap_rows(r, max) == seq![trim_end(r.take(cut_len(r, max) as int))]
            + wrap_rows(trim_start(r.skip(cut_len(r, max) as int)), max),
{
    lemma_last_break(r, max, r.len() as int);
    lemma_wrap_unfold(r, max);
}

} // verus!
