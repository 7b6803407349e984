//! The text the screen shows: list rows, panel titles, the track card, the
//! wrapped lyrics (and which lyric line each row belongs to), the player bar,
//! the key hints, the settings page and the path prompt.
use vstd::prelude::*;
use crate::app::{App, AppView, InputMode, InputModeView, Panel, PathPurpose, SettingsSection};
use crate::config::strings_view;
use crate::display::{format_duration, truncate, truncated, wrap_text, wrapped};
use crate::locale::{pick, Lang};
use crate::playback::position_of;
use crate::text::{chars_of, copy_str, decimal, push_chars, push_decimal, push_str, string_push};
use crate::track::{
    mm_ss, size_text, stem_or_unknown, track_view, tracks_view, LyricLine,
    PlayerStatus, TrackView, NANOS_PER_SEC,
};

verus! {

broadcast use vstd::string::group_string_axioms;

// ───────────────────────── text pieces ─────────────────────────

/// `n` spaces.
pub open spec fn spaces(n: nat) -> Seq<char> {
    Seq::new(n, |i: int| ' ')
}

/// `d` right-aligned in a field of `w` characters (`format!("{:w$}", ..)` of a number).
pub open spec fn padded(d: Seq<char>, w: nat) -> Seq<char> {
    if d.len() < w { spaces((w - d.len()) as nat) + d } else { d }
}

/// Appends the decimal digits of `n`, right-aligned in a field of `w` characters.
fn push_padded(s: &mut String, n: u128, w: usize)
    ensures
        final(s)@ == old(s)@ + padded(decimal(n as nat), w as nat),
{
    let mut t = String::new();
    push_decimal(&mut t, n);
    let len = chars_of(t.as_str()).len();
    let ghost o = s@;
    if len < w {
        let mut i: usize = 0;
        while i < w - len
            invariant
                i <= w - len,
                s@ == o + spaces(i as nat),
            decreases w - len - i,
        {
            string_push(s, ' ');
            assert(s@ =~= o + spaces((i + 1) as nat));
            i = i + 1;
        }
    }
    push_str(s, t.as_str());
    assert(s@ =~= o + padded(decimal(n as nat), w as nat));
}

/// "artist - title", or the title where the artist is unknown.
pub open spec fn title_text(t: TrackView) -> Seq<char> {
    if t.artist.len() == 0 { t.title } else { t.artist + " - "@ + t.title }
}

// ───────────────────────── the lists ─────────────────────────

/// Row `i` of the library list: a check mark where the playlist holds the track,
/// its number in three columns, and its title cut to 15 characters.
pub open spec fn library_row(v: AppView, i: int) -> Seq<char> {
    (if v.playlist.contains(i as usize) { "✓"@ } else { " "@ })
        + padded(decimal((i + 1) as nat), 3) + ". "@ + truncated(title_text(v.library[i]), 15)
}

/// The mark before a playlist row: the player's state for the current track.
pub open spec fn row_mark(v: AppView, lib_idx: usize) -> Seq<char> {
    if v.current_index == Some(lib_idx) {
        match v.status {
            PlayerStatus::Playing => "▶"@,
            PlayerStatus::Paused => "⏸"@,
            PlayerStatus::Stopped => "■"@,
        }
    } else {
        " "@
    }
}

/// Row `i` of the playlist: the mark, the entry's number in two columns, and the
/// track's title cut to 18 characters.
pub open spec fn playlist_row(v: AppView, i: int) -> Seq<char> {
    let li = v.playlist[i];
    row_mark(v, li) + padded(decimal((i + 1) as nat), 2) + ". "@ + truncated(title_text(v.library[li as int]), 18)
}

/// Whether every playlist entry names a library track.
pub open spec fn playlist_in_library(v: AppView) -> bool {
    forall|i: int| 0 <= i < v.playlist.len() ==> (#[trigger] v.playlist[i]) < v.library.len()
}

/// The playlist panel's title: the named playlist's name where one is shown.
pub open spec fn playlist_heading(v: AppView) -> Seq<char> {
    let n = decimal(v.playlist.len());
    match v.active_playlist_idx {
        Some(idx) => if idx < v.saved_playlists.len() {
            " "@ + v.saved_playlists[idx as int].0 + pick(v.locale.lang, " ("@ + n + " tracks) "@, " ("@ + n + " 首) "@)
        } else {
            pick(v.locale.lang, " Playlist ("@ + n + " tracks) "@, " 播放列表 ("@ + n + " 首) "@)
        },
        None => pick(v.locale.lang, " Playlist ("@ + n + " tracks) "@, " 播放列表 ("@ + n + " 首) "@),
    }
}

impl App {
    /// The rows of the library list (see `library_row`).
    pub fn library_rows(&self) -> (rows: Vec<String>)
        ensures
            rows@.len() == self@.library.len(),
            forall|i: int| 0 <= i < rows@.len() ==> (#[trigger] rows@[i])@ == library_row(self@, i),
    {
        let ghost v = self@;
        let mut rows: Vec<String> = Vec::new();
        let mut i: usize = 0;
        while i < self.library.len()
            invariant
                v == self@,
                i <= self.library@.len() == v.library.len(),
                rows@.len() == i,
                forall|j: int| 0 <= j < i ==> (#[trigger] rows@[j])@ == library_row(v, j),
            decreases self.library@.len() - i,
        {
            proof { crate::panels::lemma_position_contains(self.playlist@, i); }
            let in_playlist = crate::playback::vec_position(&self.playlist, i).is_some();
            let mut s = if in_playlist { copy_str("✓") } else { copy_str(" ") };
            push_padded(&mut s, (i as u128) + 1, 3);
            push_str(&mut s, ". ");
            let title = self.library[i].display_title();
            let cut = truncate(title.as_str(), 15);
            push_str(&mut s, cut.as_str());
            assert(track_view(self.library@[i as int]) == v.library[i as int]);
            assert(s@ =~= library_row(v, i as int));
            rows.push(s);
            i = i + 1;
        }
        rows
    }

    /// Whether every playlist entry names a library track (see `playlist_in_library`).
    pub fn playlist_is_consistent(&self) -> (res: bool)
        ensures
            res == playlist_in_library(self@),
    {
        let n = self.library.len();
        assert(tracks_view(self.library@).len() == n);
        let mut i: usize = 0;
        while i < self.playlist.len()
            invariant
                i <= self.playlist@.len(),
                n == self@.library.len(),
                forall|j: int| 0 <= j < i ==> (#[trigger] self.playlist@[j]) < n,
            decreases self.playlist@.len() - i,
        {
            if self.playlist[i] >= n {
                assert(self@.playlist[i as int] >= n);
                return false;
            }
            i = i + 1;
        }
        true
    }

    /// The rows of the playlist (see `playlist_row`).
    pub fn playlist_rows(&self) -> (rows: Vec<String>)
        requires
            playlist_in_library(self@),
        ensures
            rows@.len() == self@.playlist.len(),
            forall|i: int| 0 <= i < rows@.len() ==> (#[trigger] rows@[i])@ == playlist_row(self@, i),
    {
        let ghost v = self@;
        let mut rows: Vec<String> = Vec::new();
        let mut i: usize = 0;
        while i < self.playlist.len()
            invariant
                v == self@,
                playlist_in_library(v),
                i <= self.playlist@.len(),
                rows@.len() == i,
                forall|j: int| 0 <= j < i ==> (#[trigger] rows@[j])@ == playlist_row(v, j),
            decreases self.playlist@.len() - i,
        {
            let li = self.playlist[i];
            assert(v.playlist[i as int] == li);
            let mut s = if self.current_index == Some(li) {
                match self.status {
                    PlayerStatus::Playing => copy_str("▶"),
                    PlayerStatus::Paused => copy_str("⏸"),
                    PlayerStatus::Stopped => copy_str("■"),
                }
            } else {
                copy_str(" ")
            };
            push_padded(&mut s, (i as u128) + 1, 2);
            push_str(&mut s, ". ");
            let title = self.library[li].display_title();
            let cut = truncate(title.as_str(), 18);
            push_str(&mut s, cut.as_str());
            assert(track_view(self.library@[li as int]) == v.library[li as int]);
            assert(s@ =~= playlist_row(v, i as int));
            rows.push(s);
            i = i + 1;
        }
        rows
    }

    /// The playlist panel's title (see `playlist_heading`).
    pub fn playlist_heading(&self) -> (res: String)
        ensures
            res@ == playlist_heading(self@),
    {
        match self.active_playlist_idx {
            Some(idx) => if idx < self.saved_playlists.len() {
                return self.locale.playlist_title_named(self.saved_playlists[idx].0.as_str(), self.playlist.len());
            },
            None => {},
        }
        self.locale.playlist_title(self.playlist.len())
    }
}

// ───────────────────────── the track card ─────────────────────────

/// A known number with its unit, or "?".
pub open spec fn amount_text(o: Option<u32>, unit: Seq<char>) -> Seq<char> {
    match o {
        Some(n) => decimal(n as nat) + unit,
        None => "?"@,
    }
}

/// The card of the current track: its title cut to 42 characters; "artist · album",
/// or the file stem where the artist is unknown; and the badge "format · bit rate ·
/// sample rate · size │ duration".
pub open spec fn track_card(t: TrackView) -> (Seq<char>, Seq<char>, Seq<char>) {
    (
        truncated(t.title, 42),
        if t.artist.len() == 0 { stem_or_unknown(t.path) } else { t.artist + " · "@ + t.album },
        t.format + " · "@ + amount_text(t.bitrate, " kbps"@) + " · "@ + amount_text(t.sample_rate, " Hz"@)
            + " · "@ + (match t.file_size { Some(n) => size_text(n as nat), None => "?"@ })
            + " │ "@ + (match t.duration_ns { Some(d) => mm_ss((d / NANOS_PER_SEC) as nat), None => "--:--"@ }),
    )
}

/// Appends a known number with its unit, or "?".
fn push_amount(s: &mut String, o: Option<u32>, unit: &str)
    ensures
        final(s)@ == old(s)@ + amount_text(o, unit@),
{
    match o {
        Some(n) => {
            push_decimal(s, n as u128);
            push_str(s, unit);
        },
        None => push_str(s, "?"),
    }
}

impl App {
    /// The card of the current track (see `track_card`), where there is one.
    pub fn now_playing(&self) -> (res: Option<(String, String, String)>)
        ensures
            match res {
                Some(c) => self@.current_index matches Some(i) && i < self@.library.len()
                    && (c.0@, c.1@, c.2@) == track_card(self@.library[i as int]),
                None => !(self@.current_index matches Some(i) && i < self@.library.len()),
            },
    {
        assert(tracks_view(self.library@).len() == self.library@.len());
        let t = match self.current_track() {
            Some(t) => t,
            None => return None,
        };
        let title = truncate(t.title.as_str(), 42);
        let subtitle = if t.artist.as_str().is_empty() {
            t.file_stem()
        } else {
            let mut s = t.artist.clone();
            push_str(&mut s, " · ");
            push_str(&mut s, t.album.as_str());
            s
        };
        let mut badge = t.format.clone();
        push_str(&mut badge, " · ");
        push_amount(&mut badge, t.bitrate, " kbps");
        push_str(&mut badge, " · ");
        push_amount(&mut badge, t.sample_rate, " Hz");
        push_str(&mut badge, " · ");
        let size = t.format_size();
        push_str(&mut badge, size.as_str());
        push_str(&mut badge, " │ ");
        let dur = t.format_duration();
        push_str(&mut badge, dur.as_str());
        let ghost tv = track_view(*t);
        assert(title@ == track_card(tv).0);
        assert(subtitle@ == track_card(tv).1);
        assert(badge@ =~= track_card(tv).2);
        Some((title, subtitle, badge))
    }
}

// ───────────────────────── the lyrics panel ─────────────────────────

/// The width lyric lines wrap to in a panel `w` columns wide: two columns less,
/// and at least none.
pub open spec fn lyric_width(w: u16) -> nat {
    let m: int = if w > 0 { w as int } else { 1 };
    if m >= 2 { (m - 2) as nat } else { 0 }
}

/// The shown rows of the first `n` lyric lines wrapped to `w` columns, each with
/// the lyric line it belongs to.
pub open spec fn lyric_rows(lyrics: Seq<LyricLine>, w: nat, n: nat) -> Seq<(Seq<char>, usize)>
    decreases n,
{
    if n == 0 || n > lyrics.len() {
        Seq::empty()
    } else {
        let ws = wrapped(lyrics[n - 1].text@, w);
        lyric_rows(lyrics, w, (n - 1) as nat) + Seq::new(ws.len(), |j: int| (ws[j], (n - 1) as usize))
    }
}

/// Laying out the lyrics in a panel `width` columns wide: each line wrapped (see
/// `lyric_rows`), each row marked where it belongs to the current line, and the
/// rows' lyric lines kept for clicks and scrolling.  Without lyrics nothing changes.
pub open spec fn lyrics_laid_out(v: AppView, width: u16) -> (AppView, Seq<(Seq<char>, bool)>) {
    if v.lyrics.len() == 0 {
        (v, Seq::empty())
    } else {
        let rows = lyric_rows(v.lyrics, lyric_width(width), v.lyrics.len());
        (
            AppView { lyric_line_map: Seq::new(rows.len(), |i: int| rows[i].1), ..v },
            Seq::new(rows.len(), |i: int| (rows[i].0, v.current_lyric_index == Some(rows[i].1))),
        )
    }
}

impl App {
    /// Lays out the lyrics (see `lyrics_laid_out`): the rows to show, each with
    /// whether it belongs to the current line.
    pub fn layout_lyrics(&mut self, width: u16) -> (rows: Vec<(String, bool)>)
        ensures
            (final(self)@, Seq::new(rows@.len(), |i: int| (rows@[i].0@, rows@[i].1))) == lyrics_laid_out(old(self)@, width),
    {
        let ghost v = self@;
        if self.lyrics.len() == 0 {
            let rows: Vec<(String, bool)> = Vec::new();
            assert(Seq::new(rows@.len(), |i: int| (rows@[i].0@, rows@[i].1)) =~= Seq::<(Seq<char>, bool)>::empty());
            return rows;
        }
        let m: usize = if width > 0 { width as usize } else { 1 };
        let w: usize = if m >= 2 { m - 2 } else { 0 };
        let mut rows: Vec<(String, bool)> = Vec::new();
        let mut map: Vec<usize> = Vec::new();
        let mut i: usize = 0;
        while i < self.lyrics.len()
            invariant
                v == self@,
                w == lyric_width(width),
                i <= self.lyrics@.len(),
                rows@.len() == map@.len() == lyric_rows(self.lyrics@, w as nat, i as nat).len(),
                forall|k: int| 0 <= k < map@.len() ==> (#[trigger] map@[k]) == lyric_rows(self.lyrics@, w as nat, i as nat)[k].1,
                forall|k: int| 0 <= k < rows@.len() ==> (#[trigger] rows@[k]).0@ == lyric_rows(self.lyrics@, w as nat, i as nat)[k].0,
                forall|k: int| 0 <= k < rows@.len() ==> (#[trigger] rows@[k]).1
                    == (self.current_lyric_index == Some(lyric_rows(self.lyrics@, w as nat, i as nat)[k].1)),
            decreases self.lyrics@.len() - i,
        {
            let ghost before = lyric_rows(self.lyrics@, w as nat, i as nat);
            let ghost n0 = rows@.len();
            let lines = wrap_text(self.lyrics[i].text.as_str(), w);
            let current = self.current_lyric_index == Some(i);
            let mut j: usize = 0;
            while j < lines.len()
                invariant
                    j <= lines@.len(),
                    lines@.len() == wrapped(self.lyrics@[i as int].text@, w as nat).len(),
                    forall|k: int| 0 <= k < lines@.len() ==> (#[trigger] lines@[k])@ == wrapped(self.lyrics@[i as int].text@, w as nat)[k],
                    current == (self.current_lyric_index == Some(i)),
                    rows@.len() == map@.len() == n0 + j,
                    n0 == before.len(),
                    forall|k: int| 0 <= k < n0 ==> (#[trigger] map@[k]) == before[k].1,
                    forall|k: int| 0 <= k < n0 ==> (#[trigger] rows@[k]).0@ == before[k].0,
                    forall|k: int| 0 <= k < n0 ==> (#[trigger] rows@[k]).1 == (self.current_lyric_index == Some(before[k].1)),
                    forall|k: int| n0 <= k < n0 + j ==> (#[trigger] map@[k]) == i,
                    forall|k: int| n0 <= k < n0 + j ==> (#[trigger] rows@[k]).0@ == lines@[k - n0]@,
                    forall|k: int| n0 <= k < n0 + j ==> (#[trigger] rows@[k]).1 == current,
                decreases lines@.len() - j,
            {
                let line = copy_str(lines[j].as_str());
                let ghost old_rows = rows@;
                let ghost old_map = map@;
                rows.push((line, current));
                map.push(i);
                assert(forall|k: int| 0 <= k < old_rows.len() ==> rows@[k] == old_rows[k]);
                assert(forall|k: int| 0 <= k < old_map.len() ==> map@[k] == old_map[k]);
                j = j + 1;
            }
            proof {
                let after = lyric_rows(self.lyrics@, w as nat, (i + 1) as nat);
                let ws = wrapped(self.lyrics@[i as int].text@, w as nat);
                assert(after =~= before + Seq::new(ws.len(), |q: int| (ws[q], i)));
                assert forall|k: int| 0 <= k < map@.len() implies (#[trigger] map@[k]) == after[k].1 by {
                    if k >= n0 {
                        assert(map@[k] == i);
                    }
                }
                assert forall|k: int| 0 <= k < rows@.len() implies (#[trigger] rows@[k]).0@ == after[k].0 by {
                    if k >= n0 {
                        assert(rows@[k].0@ == lines@[k - n0]@);
                    }
                }
                assert forall|k: int| 0 <= k < rows@.len() implies (#[trigger] rows@[k]).1
                    == (self.current_lyric_index == Some(after[k].1)) by {
                    if k >= n0 {
                        assert(rows@[k].1 == current);
                    }
                }
            }
            i = i + 1;
        }
        self.lyric_line_map = map;
        proof {
            let r = lyric_rows(self.lyrics@, w as nat, self.lyrics@.len());
            assert(self.lyric_line_map@ =~= Seq::new(r.len(), |k: int| r[k].1));
            assert(Seq::new(rows@.len(), |k: int| (rows@[k].0@, rows@[k].1))
                =~= Seq::new(r.len(), |k: int| (r[k].0, v.current_lyric_index == Some(r[k].1))));
        }
        rows
    }
}

// ───────────────────────── the player bar ─────────────────────────

/// The player's state with its symbol: "▶ Playing", "⏸ Paused" or "■ Stopped".
pub open spec fn status_text(v: AppView) -> Seq<char> {
    match v.status {
        PlayerStatus::Playing => "▶ "@ + pick(v.locale.lang, "Playing"@, "播放中"@),
        PlayerStatus::Paused => "⏸ "@ + pick(v.locale.lang, "Paused"@, "已暂停"@),
        PlayerStatus::Stopped => "■ "@ + pick(v.locale.lang, "Stopped"@, "已停止"@),
    }
}

/// "position/length" of the current track in the playlist, or "-/-".
pub open spec fn position_text(v: AppView) -> Seq<char> {
    match v.current_index {
        Some(c) => match position_of(v.playlist, c) {
            Some(p) => decimal((p + 1) as nat) + "/"@ + decimal(v.playlist.len()),
            None => "-/-"@,
        },
        None => "-/-"@,
    }
}

/// The width of the progress bar in a row `w` columns wide: 50 columns less, at least 10.
pub open spec fn bar_width(w: u16) -> nat {
    if w >= 60 { (w - 50) as nat } else { 10 }
}

/// How many of `bw` cells of the progress bar are filled: the share of the known,
/// non-zero duration played (rounded down), else none.
pub open spec fn filled_cells(elapsed: u128, duration: Option<u128>, bw: nat) -> nat {
    match duration {
        Some(d) => if d == 0 {
            0
        } else {
            let e: nat = if elapsed < d { elapsed as nat } else { d as nat };
            (e * bw) / (d as nat)
        },
        None => 0,
    }
}

/// `n` copies of `c`.
pub open spec fn repeated(c: char, n: nat) -> Seq<char> {
    Seq::new(n, |i: int| c)
}

/// The progress bar in a row `w` columns wide: filled cells, then empty ones.
pub open spec fn progress_text(v: AppView, w: u16) -> Seq<char> {
    let bw = bar_width(w);
    let f = filled_cells(v.elapsed_ns, v.duration_ns, bw);
    repeated('█', f) + repeated('░', (bw - f) as nat)
}

/// " played / duration " in minutes and seconds ("--:--" for an unknown duration).
pub open spec fn time_text(v: AppView) -> Seq<char> {
    " "@ + mm_ss((v.elapsed_ns / NANOS_PER_SEC) as nat) + " / "@
        + (match v.duration_ns { Some(d) => mm_ss((d / NANOS_PER_SEC) as nat), None => "--:--"@ }) + " "@
}

/// What the arrow keys do here: scroll the lyrics, or seek.
pub open spec fn arrows_text(v: AppView) -> Seq<char> {
    if v.focus == Panel::Lyrics {
        pick(v.locale.lang, "←→:Scroll  Enter:Seek"@, "←→:滚动  Enter:跳转"@)
    } else {
        pick(v.locale.lang, "←→:Seek ±5s"@, "←→:快进/退 5秒"@)
    }
}

/// `k` cells of `bw` are covered at `e` of `d`, written without a product that
/// could overflow: `d` is `qd` whole `bw`s and `rd` more.
proof fn lemma_covers(k: int, e: int, d: int, qd: int, rd: int, bw: int)
    requires
        d > 0,
        0 < bw,
        0 <= k <= bw,
        0 <= e,
        d == qd * bw + rd,
        0 <= qd,
        0 <= rd < bw,
    ensures
        k * qd <= d,
        k * rd < bw * bw,
        k * d == (k * qd) * bw + k * rd,
        e < k * qd ==> !(k * d <= e * bw),
        e >= k * qd && e - k * qd >= bw ==> k * d <= e * bw,
        e >= k * qd ==> (k * d <= e * bw <==> k * rd <= (e - k * qd) * bw),
{
    assert(k * qd <= bw * qd) by (nonlinear_arith)
        requires 0 <= k <= bw, 0 <= qd;
    assert(bw * qd <= d) by (nonlinear_arith)
        requires d == qd * bw + rd, 0 <= rd;
    assert(k * rd < bw * bw || k == 0) by (nonlinear_arith)
        requires 0 <= k <= bw, 0 <= rd < bw;
    assert(k * rd < bw * bw) by (nonlinear_arith)
        requires 0 <= k <= bw, 0 <= rd < bw, 0 < bw;
    assert(k * d == (k * qd) * bw + k * rd) by (nonlinear_arith)
        requires d == qd * bw + rd;
    assert(e * bw == (k * qd) * bw + (e - k * qd) * bw) by (nonlinear_arith);
    assert(e >= k * qd && e - k * qd >= bw ==> (e - k * qd) * bw >= bw * bw) by (nonlinear_arith)
        requires 0 < bw;
    assert(e < k * qd ==> e * bw < (k * qd) * bw) by (nonlinear_arith)
        requires 0 < bw;
}

/// Whether `k * d <= e * bw`, computed without overflow.
fn covers(k: u128, e: u128, d: u128, bw: u128) -> (res: bool)
    requires
        d > 0,
        0 < bw <= 0xFFFF,
        k <= bw,
    ensures
        res == (k * d <= e * bw),
{
    let qd = d / bw;
    let rd = d % bw;
    proof {
        vstd::arithmetic::div_mod::lemma_fundamental_div_mod(d as int, bw as int);
        assert(d == qd * bw + rd) by (nonlinear_arith)
            requires d == bw * (d / bw) + (d % bw), qd == d / bw, rd == d % bw;
        lemma_covers(k as int, e as int, d as int, qd as int, rd as int, bw as int);
    }
    let kq = k * qd;
    if e < kq {
        return false;
    }
    let rest = e - kq;
    if rest >= bw {
        return true;
    }
    assert(bw * bw <= 0xFFFF * 0xFFFF) by (nonlinear_arith)
        requires 0 < bw <= 0xFFFF;
    assert(rest * bw < 0xFFFF * 0xFFFF) by (nonlinear_arith)
        requires rest < bw, 0 < bw <= 0xFFFF;
    k * rd <= rest * bw
}

/// `x / d` is `k` where `k` whole `d`s fit in `x` and `k + 1` do not.
proof fn lemma_floor_div(x: int, d: int, k: int)
    requires
        d > 0,
        k * d <= x < (k + 1) * d,
    ensures
        x / d == k,
{
    assert((k + 1) * d == k * d + d) by (nonlinear_arith);
    vstd::arithmetic::div_mod::lemma_fundamental_div_mod_converse_div(x, d, k, x - k * d);
}

/// The number of filled cells of a progress bar `bw` cells wide (see `filled_cells`).
fn filled_count(elapsed: u128, duration: Option<u128>, bw: u16) -> (res: u16)
    requires
        bw > 0,
    ensures
        res as nat == filled_cells(elapsed, duration, bw as nat),
        res <= bw,
{
    let d = match duration {
        Some(d) => d,
        None => return 0,
    };
    if d == 0 {
        return 0;
    }
    let e = if elapsed < d { elapsed } else { d };
    let mut k: u16 = 0;
    while k < bw && covers((k + 1) as u128, e, d, bw as u128)
        invariant
            k <= bw,
            (k as int) * (d as int) <= (e as int) * (bw as int),
            d > 0,
            e <= d,
            bw > 0,
        decreases bw - k,
    {
        k = k + 1;
    }
    proof {
        let x = (e as int) * (bw as int);
        if k == bw {
            assert((bw as int) * (d as int) <= x);
            assert(e == d) by (nonlinear_arith)
                requires (bw as int) * (d as int) <= (e as int) * (bw as int), e <= d, bw > 0;
            assert(x < (k as int + 1) * (d as int)) by (nonlinear_arith)
                requires x == (e as int) * (bw as int), e == d, k == bw, d > 0;
        }
        lemma_floor_div(x, d as int, k as int);
    }
    k
}

impl App {
    /// The player's state with its symbol (see `status_text`).
    pub fn status_text(&self) -> (res: String)
        ensures
            res@ == status_text(self@),
    {
        match self.status {
            PlayerStatus::Playing => {
                let mut s = copy_str("▶ ");
                push_str(&mut s, self.locale.playing());
                s
            },
            PlayerStatus::Paused => {
                let mut s = copy_str("⏸ ");
                push_str(&mut s, self.locale.paused());
                s
            },
            PlayerStatus::Stopped => {
                let mut s = copy_str("■ ");
                push_str(&mut s, self.locale.stopped());
                s
            },
        }
    }

    /// "position/length" in the playlist, or "-/-" (see `position_text`).
    pub fn position_text(&self) -> (res: String)
        ensures
            res@ == position_text(self@),
    {
        match self.current_playlist_position() {
            Some(p) => {
                proof {
                    crate::panels::lemma_position_contains(self.playlist@, self.current_index->0);
                }
                let mut s = String::new();
                push_decimal(&mut s, (p as u128) + 1);
                push_str(&mut s, "/");
                push_decimal(&mut s, self.playlist.len() as u128);
                s
            },
            None => copy_str("-/-"),
        }
    }

    /// The progress bar for a row `width` columns wide (see `progress_text`).
    pub fn progress_text(&self, width: u16) -> (res: String)
        ensures
            res@ == progress_text(self@, width),
    {
        let bw: u16 = if width >= 60 { width - 50 } else { 10 };
        let f = filled_count(self.elapsed_ns, self.duration_ns, bw);
        let mut s = String::new();
        let mut i: u16 = 0;
        while i < f
            invariant
                i <= f <= bw,
                s@ == repeated('█', i as nat),
            decreases f - i,
        {
            string_push(&mut s, '█');
            assert(s@ =~= repeated('█', (i + 1) as nat));
            i = i + 1;
        }
        let ghost full = s@;
        let mut j: u16 = 0;
        while j < bw - f
            invariant
                j <= bw - f,
                f <= bw,
                s@ == full + repeated('░', j as nat),
            decreases bw - f - j,
        {
            string_push(&mut s, '░');
            assert(s@ =~= full + repeated('░', (j + 1) as nat));
            j = j + 1;
        }
        s
    }

    /// " played / duration " (see `time_text`).
    pub fn time_text(&self) -> (res: String)
        ensures
            res@ == time_text(self@),
    {
        let mut s = copy_str(" ");
        let e = format_duration(self.elapsed_ns);
        push_str(&mut s, e.as_str());
        push_str(&mut s, " / ");
        match self.duration_ns {
            Some(d) => {
                let t = format_duration(d);
                push_str(&mut s, t.as_str());
            },
            None => push_str(&mut s, "--:--"),
        }
        push_str(&mut s, " ");
        s
    }

    /// What the arrow keys do here (see `arrows_text`).
    pub fn arrows_text(&self) -> (res: &str)
        ensures
            res@ == arrows_text(self@),
    {
        if self.focus == Panel::Lyrics {
            self.locale.lyrics_scroll_hint()
        } else {
            self.locale.seek_hint()
        }
    }
}

// ───────────────────────── the key hints ─────────────────────────

/// The key hints at the bottom: each key with its text (spacing included).
pub open spec fn key_hints(v: AppView) -> Seq<(Seq<char>, Seq<char>)> {
    let l = v.locale.lang;
    if v.show_settings {
        let add = match v.settings_section {
            SettingsSection::Folders => pick(l, "Add folder"@, "添加文件夹"@),
            SettingsSection::Playlists => pick(l, "Import XSPF"@, "导入 XSPF"@),
        };
        seq![
            (" Tab "@, "Switch  "@),
            (" A "@, add + "  "@),
            (" I "@, pick(l, "Import XSPF"@, "导入 XSPF"@) + "  "@),
            (" D "@, pick(l, "Remove"@, "移除"@) + "  "@),
            (" L "@, pick(l, "Toggle language"@, "切换语言"@) + "  "@),
            (" Enter "@, pick(l, "Rescan"@, "重新扫描"@) + "  "@),
            (" Esc "@, pick(l, "Back"@, "返回"@)),
        ]
    } else {
        let enter = match v.focus {
            Panel::Library => pick(l, "Add"@, "添加"@),
            Panel::Playlist => pick(l, "Play"@, "播放"@),
            Panel::Lyrics => pick(l, "Seek"@, "跳转"@),
        };
        seq![
            (" Tab "@, "Switch  "@),
            (" Enter "@, enter + "  "@),
            (" Space "@, pick(l, "Pause "@, "暂停 "@)),
            (" N "@, pick(l, "Next "@, "下一首 "@)),
            (" P "@, pick(l, "Prev "@, "上一首 "@)),
            (" S "@, pick(l, "Stop "@, "停止 "@)),
            (" M "@, pick(l, "Mode "@, "模式 "@)),
            (" L "@, "Library  "@),
            (" A "@, "Add  "@),
            (" D "@, "Del  "@),
            (" W "@, pick(l, "Playlists "@, "播放列表 "@)),
            (" F2 "@, pick(l, "Settings "@, "设置 "@)),
            (" Q "@, pick(l, "Quit"@, "退出"@)),
        ]
    }
}

/// The plain values of pairs of strings.
pub open spec fn pairs_view(v: Seq<(String, String)>) -> Seq<(Seq<char>, Seq<char>)> {
    Seq::new(v.len(), |i: int| (v[i].0@, v[i].1@))
}

/// A hint: the key and its text, with `gap` spaces after the text.
fn hint(key: &str, text: &str, gap: bool) -> (res: (String, String))
    ensures
        res.0@ == key@,
        res.1@ == (if gap { text@ + "  "@ } else { text@ }),
{
    let mut t = copy_str(text);
    if gap {
        push_str(&mut t, "  ");
    }
    (copy_str(key), t)
}

impl App {
    /// The key hints (see `key_hints`).
    pub fn key_hints(&self) -> (res: Vec<(String, String)>)
        ensures
            pairs_view(res@) == key_hints(self@),
    {
        let loc = &self.locale;
        let mut v: Vec<(String, String)> = Vec::new();
        if self.show_settings {
            let add = match self.settings_section {
                SettingsSection::Folders => loc.settings_hint_add_folder(),
                SettingsSection::Playlists => loc.settings_hint_import_xspf(),
            };
            v.push(hint(" Tab ", "Switch  ", false));
            v.push(hint(" A ", add, true));
            v.push(hint(" I ", loc.settings_hint_import_xspf(), true));
            v.push(hint(" D ", loc.settings_hint_remove(), true));
            v.push(hint(" L ", loc.language_toggle_hint(), true));
            v.push(hint(" Enter ", loc.settings_hint_rescan(), true));
            v.push(hint(" Esc ", loc.settings_hint_back(), false));
        } else {
            let enter = match self.focus {
                Panel::Library => loc.enter_add(),
                Panel::Playlist => loc.enter_play(),
                Panel::Lyrics => loc.enter_seek(),
            };
            v.push(hint(" Tab ", "Switch  ", false));
            v.push(hint(" Enter ", enter, true));
            v.push(hint(" Space ", loc.hint_pause(), false));
            v.push(hint(" N ", loc.hint_next(), false));
            v.push(hint(" P ", loc.hint_prev(), false));
            v.push(hint(" S ", loc.hint_stop(), false));
            v.push(hint(" M ", loc.hint_mode(), false));
            v.push(hint(" L ", "Library  ", false));
            v.push(hint(" A ", "Add  ", false));
            v.push(hint(" D ", "Del  ", false));
            v.push(hint(" W ", loc.playlist_switch_hint(), false));
            v.push(hint(" F2 ", loc.settings_key_hint(), false));
            v.push(hint(" Q ", loc.hint_quit(), false));
        }
        assert(pairs_view(v@) =~= key_hints(self@));
        v
    }
}

// ───────────────────────── the settings page ─────────────────────────

/// The rows of a list of paths: each cut to 60 characters.
pub open spec fn path_rows(paths: Seq<Seq<char>>) -> Seq<Seq<char>> {
    Seq::new(paths.len(), |i: int| truncated(paths[i], 60))
}

/// " Language: English  |  L Toggle language" (in the interface's language).
pub open spec fn language_line(l: Lang) -> Seq<char> {
    " "@ + pick(l, "Language"@, "语言"@) + ": "@ + pick(l, "English"@, "中文"@) + "  |  L "@
        + pick(l, "Toggle language"@, "切换语言"@)
}

/// The rows for a list of paths (see `path_rows`).
fn rows_of_paths(paths: &Vec<String>) -> (rows: Vec<String>)
    ensures
        strings_view(rows@) == path_rows(strings_view(paths@)),
{
    let mut rows: Vec<String> = Vec::new();
    let mut i: usize = 0;
    while i < paths.len()
        invariant
            i <= paths@.len(),
            rows@.len() == i,
            forall|j: int| 0 <= j < i ==> (#[trigger] rows@[j])@ == truncated(paths@[j]@, 60),
        decreases paths@.len() - i,
    {
        rows.push(truncate(paths[i].as_str(), 60));
        i = i + 1;
    }
    assert(strings_view(rows@) =~= path_rows(strings_view(paths@)));
    rows
}

impl App {
    /// The rows of the music folder list (see `path_rows`).
    pub fn folder_rows(&self) -> (rows: Vec<String>)
        ensures
            strings_view(rows@) == path_rows(self@.config.music_folders),
    {
        rows_of_paths(&self.config.music_folders)
    }

    /// The rows of the playlist file list (see `path_rows`).
    pub fn xspf_rows(&self) -> (rows: Vec<String>)
        ensures
            strings_view(rows@) == path_rows(self@.config.xspf_playlists),
    {
        rows_of_paths(&self.config.xspf_playlists)
    }

    /// The language line of the settings page (see `language_line`).
    pub fn language_line(&self) -> (res: String)
        ensures
            res@ == language_line(self.locale.lang),
    {
        let mut s = copy_str(" ");
        push_str(&mut s, self.locale.language_label());
        push_str(&mut s, ": ");
        push_str(&mut s, self.locale.language_value());
        push_str(&mut s, "  |  L ");
        push_str(&mut s, self.locale.language_toggle_hint());
        s
    }
}

// ───────────────────────── the path prompt ─────────────────────────

/// The text being typed with a block where the cursor is: before the character at
/// the cursor's position, or after all of it where the cursor is at or past its end.
pub open spec fn cursor_display(b: Seq<char>, cursor: usize) -> Seq<char> {
    if cursor >= b.len() {
        b + "█"@
    } else {
        b.take(cursor as int) + "█"@ + b.skip(cursor as int)
    }
}

/// The three lines of the path prompt while a path is typed: the question, the
/// text with the cursor, and the keys.
pub open spec fn prompt_lines(v: AppView) -> Option<(Seq<char>, Seq<char>, Seq<char>)> {
    match v.input_mode {
        InputModeView::EnteringPath { buffer, cursor, purpose } => Some((
            " "@ + (match purpose {
                PathPurpose::AddMusicFolder => pick(v.locale.lang, "Music folder path:"@, "音乐文件夹路径:"@),
                PathPurpose::ImportXspf => pick(v.locale.lang, "XSPF file path:"@, "XSPF 文件路径:"@),
            }) + " "@,
            "> "@ + cursor_display(buffer, cursor),
            " "@ + pick(v.locale.lang, "Enter: confirm  Esc: cancel"@, "Enter: 确认  Esc: 取消"@),
        )),
        InputModeView::Normal => None,
    }
}

impl App {
    /// The path prompt's lines (see `prompt_lines`).
    pub fn prompt_lines(&self) -> (res: Option<(String, String, String)>)
        ensures
            match res {
                Some(l) => prompt_lines(self@) == Some((l.0@, l.1@, l.2@)),
                None => prompt_lines(self@) is None,
            },
    {
        match &self.input_mode {
            InputMode::EnteringPath { buffer, cursor, purpose } => {
                let mut q = copy_str(" ");
                match purpose {
                    PathPurpose::AddMusicFolder => push_str(&mut q, self.locale.input_prompt_folder()),
                    PathPurpose::ImportXspf => push_str(&mut q, self.locale.input_prompt_xspf()),
                }
                push_str(&mut q, " ");
                let cs = chars_of(buffer.as_str());
                let mut t = copy_str("> ");
                if *cursor >= cs.len() {
                    push_chars(&mut t, &cs, 0, cs.len());
                    push_str(&mut t, "█");
                    assert(cs@.subrange(0, cs@.len() as int) =~= cs@);
                } else {
                    let k = *cursor;
                    push_chars(&mut t, &cs, 0, k);
                    push_str(&mut t, "█");
                    push_chars(&mut t, &cs, k, cs.len());
                    assert(cs@.subrange(0, k as int) =~= cs@.take(k as int));
                    assert(cs@.subrange(k as int, cs@.len() as int) =~= cs@.skip(k as int));
                }
                let mut h = copy_str(" ");
                push_str(&mut h, self.locale.input_confirm_hint());
                assert(t@ =~= "> "@ + cursor_display(buffer@, *cursor));
                Some((q, t, h))
            },
            InputMode::Normal => None,
        }
    }
}

/// The progress bar is as wide as it should be, and never more than full.
pub proof fn law_progress_bar_width(v: AppView, w: u16)
    ensures
        filled_cells(v.elapsed_ns, v.duration_ns, bar_width(w)) <= bar_width(w),
        progress_text(v, w).len() == bar_width(w),
{
    let bw = bar_width(w);
    match v.duration_ns {
        Some(d) => if d != 0 {
            let e: nat = if v.elapsed_ns < d { v.elapsed_ns as nat } else { d as nat };
            assert((e * bw) / (d as nat) <= bw) by (nonlinear_arith)
                requires e <= d, d > 0;
        },
        None => {},
    }
}

/// Each shown lyrics row belongs to a lyric line, the rows of a line come
/// together, and lines come in order.
pub proof fn law_lyric_rows_in_order(lyrics: Seq<LyricLine>, w: nat, n: nat)
    requires
        n <= lyrics.len() <= usize::MAX,
    ensures
        forall|i: int| 0 <= i < lyric_rows(lyrics, w, n).len() ==> (#[trigger] lyric_rows(lyrics, w, n)[i]).1 < n,
        forall|i: int, j: int| 0 <= i <= j < lyric_rows(lyrics, w, n).len()
            ==> (#[trigger] lyric_rows(lyrics, w, n)[i]).1 <= (#[trigger] lyric_rows(lyrics, w, n)[j]).1,
    decreases n,
{
    if n > 0 {
        law_lyric_rows_in_order(lyrics, w, (n - 1) as nat);
        let r = lyric_rows(lyrics, w, (n - 1) as nat);
        let t = lyric_rows(lyrics, w, n);
        assert forall|i: int| 0 <= i < t.len() implies (#[trigger] t[i]).1 < n by {
            if i < r.len() {
                assert(t[i] == r[i]);
            }
        }
        assert forall|i: int, j: int| 0 <= i <= j < t.len() implies (#[trigger] t[i]).1 <= (#[trigger] t[j]).1 by {
            let ws = wrapped(lyrics[n - 1].text@, w);
            assert(t =~= r + Seq::new(ws.len(), |q: int| (ws[q], (n - 1) as usize)));
            if j < r.len() {
                assert(t[i] == r[i] && t[j] == r[j]);
            } else if i < r.len() {
                assert(t[i] == r[i]);
                assert(r[i].1 < n - 1);
                assert(t[j].1 == (n - 1) as usize);
            } else {
                assert(t[i].1 == (n - 1) as usize);
                assert(t[j].1 == (n - 1) as usize);
            }
        }
    }
}

} // verus!
