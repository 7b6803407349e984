//! Tracks, play modes and player status, with the text the interface shows for them.
use vstd::prelude::*;
use crate::text::{
    chars_eq, chars_of, copy_str, decimal, decimal2, digit_char, lowercase, push_decimal,
    push_decimal2, push_str, to_lowercase, to_uppercase, uppercase,
};

verus! {

broadcast use vstd::string::group_string_axioms;

/// How the next track is chosen when one ends.
#[derive(Clone, Copy, Debug, PartialEq, Eq, Structural)]
pub enum PlayMode {
    Sequential,
    Shuffle,
    RepeatOne,
    RepeatAll,
}

/// The mode that follows `m` in the cycle Sequential → Shuffle → RepeatOne → RepeatAll → Sequential.
pub open spec fn next_mode(m: PlayMode) -> PlayMode {
    match m {
        PlayMode::Sequential => PlayMode::Shuffle,
        PlayMode::Shuffle => PlayMode::RepeatOne,
        PlayMode::RepeatOne => PlayMode::RepeatAll,
        PlayMode::RepeatAll => PlayMode::Sequential,
    }
}

impl PlayMode {
    /// The next mode in the cycle.
    pub fn next(&self) -> (res: PlayMode)
        ensures
            res == next_mode(*self),
    {
        match self {
            PlayMode::Sequential => PlayMode::Shuffle,
            PlayMode::Shuffle => PlayMode::RepeatOne,
            PlayMode::RepeatOne => PlayMode::RepeatAll,
            PlayMode::RepeatAll => PlayMode::Sequential,
        }
    }
}

/// Cycling the play mode four times gives back the mode one started from,
/// and no fewer presses do.
pub proof fn law_play_mode_cycle(m: PlayMode)
    ensures
        next_mode(next_mode(next_mode(next_mode(m)))) == m,
        next_mode(m) != m,
        next_mode(next_mode(m)) != m,
        next_mode(next_mode(next_mode(m))) != m,
{
}

/// What the player is doing.
#[derive(Clone, Copy, Debug, PartialEq, Eq, Structural)]
pub enum PlayerStatus {
    Playing,
    Paused,
    Stopped,
}

/// What the decoder reports of a loaded file.  Durations are in nanoseconds.
#[derive(Clone, Copy, Debug)]
pub struct AudioMeta {
    pub duration_ns: Option<u128>,
    pub sample_rate: u32,
    pub channels: u16,
}

/// One timed line of lyrics.  The time stamp is in nanoseconds.
#[derive(Clone, Debug)]
pub struct LyricLine {
    pub timestamp_ns: u128,
    pub text: String,
}

/// A track of the library.  `path` is the file's path; durations are in nanoseconds.
#[derive(Clone, Debug)]
pub struct Track {
    pub path: String,
    pub title: String,
    pub artist: String,
    pub album: String,
    pub duration_ns: Option<u128>,
    pub format: String,
    pub file_size: Option<u64>,
    pub sample_rate: Option<u32>,
    pub channels: Option<u16>,
    pub bitrate: Option<u32>,
}

/// A track as plain values.
pub struct TrackView {
    pub path: Seq<char>,
    pub title: Seq<char>,
    pub artist: Seq<char>,
    pub album: Seq<char>,
    pub duration_ns: Option<u128>,
    pub format: Seq<char>,
    pub file_size: Option<u64>,
    pub sample_rate: Option<u32>,
    pub channels: Option<u16>,
    pub bitrate: Option<u32>,
}

/// The plain value of a track.
pub open spec fn track_view(t: Track) -> TrackView {
    TrackView {
        path: t.path@,
        title: t.title@,
        artist: t.artist@,
        album: t.album@,
        duration_ns: t.duration_ns,
        format: t.format@,
        file_size: t.file_size,
        sample_rate: t.sample_rate,
        channels: t.channels,
        bitrate: t.bitrate,
    }
}

/// The plain values of a list of tracks.
pub open spec fn tracks_view(s: Seq<Track>) -> Seq<TrackView> {
    Seq::new(s.len(), |i: int| track_view(s[i]))
}

/// The track a file gives before it is played: titled by its stem, formatted by
/// its extension, with its size where known.
pub open spec fn new_track(path: Seq<char>, file_size: Option<u64>) -> TrackView {
    TrackView {
        path,
        title: stem_or_unknown(path),
        artist: Seq::empty(),
        album: Seq::empty(),
        duration_ns: None,
        format: format_of(path),
        file_size,
        sample_rate: None,
        channels: None,
        bitrate: None,
    }
}

pub const NANOS_PER_SEC: u128 = 1_000_000_000;

// ───────────────────────── path names (std) ─────────────────────────

/// What `Path::file_stem` gives for the path with the given characters (path
/// separators are those of the platform the crate is built for).
pub uninterp spec fn file_stem_of(path: Seq<char>) -> Option<Seq<char>>;

/// What `Path::extension` gives for the path with the given characters (path
/// separators are those of the platform the crate is built for).
pub uninterp spec fn extension_of(path: Seq<char>) -> Option<Seq<char>>;

/// The characters of an optional string.
pub open spec fn opt_chars(o: Option<String>) -> Option<Seq<char>> {
    match o {
        Some(s) => Some(s@),
        None => None,
    }
}

/// `Path::file_stem` of `path`, as a string.  The result is named by
/// `file_stem_of`, and nothing more about it is claimed; the parts of a UTF-8 path
/// are UTF-8, so `to_str` keeps them all.
#[verifier::external_body]
pub(crate) fn path_file_stem(path: &str) -> (res: Option<String>)
    ensures
        opt_chars(res) == file_stem_of(path@),
{
    std::path::Path::new(path).file_stem().and_then(|s| s.to_str()).map(|s| s.to_string())
}

/// `Path::extension` of `path`, as a string.  The result is named by
/// `extension_of`, and nothing more about it is claimed.
#[verifier::external_body]
pub(crate) fn path_extension(path: &str) -> (res: Option<String>)
    ensures
        opt_chars(res) == extension_of(path@),
{
    std::path::Path::new(path).extension().and_then(|s| s.to_str()).map(|s| s.to_string())
}

/// The file stem of a path, or "Unknown" where it has none.
pub open spec fn stem_or_unknown(path: Seq<char>) -> Seq<char> {
    match file_stem_of(path) {
        Some(s) => s,
        None => "Unknown"@,
    }
}

/// The extension of a path in upper case, or "?" where it has none.
pub open spec fn format_of(path: Seq<char>) -> Seq<char> {
    match extension_of(path) {
        Some(e) => uppercase(e),
        None => "?"@,
    }
}

/// The audio file extensions the player recognises (compared in lower case).
pub open spec fn audio_extensions() -> Seq<Seq<char>> {
    seq![
        "mp3"@, "flac"@, "ogg"@, "wav"@, "aiff"@, "aif"@, "m4a"@, "aac"@, "wma"@, "opus"@,
        "ape"@, "wv"@, "mpc"@,
    ]
}

/// Whether the path names an audio file: its extension, in lower case, is a known one.
pub open spec fn is_audio_path(path: Seq<char>) -> bool {
    match extension_of(path) {
        Some(e) => audio_extensions().contains(lowercase(e)),
        None => false,
    }
}

fn audio_extension_list() -> (v: Vec<&'static str>)
    ensures
        v@.len() == audio_extensions().len(),
        forall|i: int| 0 <= i < v@.len() ==> (#[trigger] v@[i])@ == audio_extensions()[i],
{
    let v = vec!["mp3", "flac", "ogg", "wav", "aiff", "aif", "m4a", "aac", "wma", "opus", "ape", "wv", "mpc"];
    v
}

/// Whether `path` names an audio file (by its extension, case-insensitively).
pub fn is_audio_file(path: &str) -> (res: bool)
    ensures
        res == is_audio_path(path@),
{
    match path_extension(path) {
        None => false,
        Some(ext) => {
            let lower = to_lowercase(ext.as_str());
            let lower_chars = chars_of(lower.as_str());
            let list = audio_extension_list();
            let mut i: usize = 0;
            while i < list.len()
                invariant
                    i <= list@.len(),
                    list@.len() == audio_extensions().len(),
                    forall|k: int| 0 <= k < list@.len() ==> (#[trigger] list@[k])@ == audio_extensions()[k],
                    lower_chars@ == lowercase(ext@),
                    extension_of(path@) == Some(ext@),
                    forall|k: int| 0 <= k < i ==> audio_extensions()[k] != lowercase(ext@),
                decreases list@.len() - i,
            {
                let cand = chars_of(list[i]);
                if chars_eq(&lower_chars, &cand) {
                    assert(audio_extensions()[i as int] == lowercase(ext@));
                    return true;
                }
                i = i + 1;
            }
            assert(!audio_extensions().contains(lowercase(ext@)));
            false
        }
    }
}

// ───────────────────────── formatting ─────────────────────────

/// `format!("{:02}:{:02}", secs / 60, secs % 60)` for whole seconds `secs`.
pub open spec fn mm_ss(secs: nat) -> Seq<char> {
    decimal2(secs / 60) + ":"@ + decimal2(secs % 60)
}

/// Minutes and seconds of a duration given in nanoseconds (fractions of a second dropped).
pub fn format_mm_ss(ns: u128) -> (res: String)
    ensures
        res@ == mm_ss((ns / NANOS_PER_SEC) as nat),
{
    let total: u128 = ns / NANOS_PER_SEC;
    let mut s = String::new();
    push_decimal2(&mut s, total / 60);
    push_str(&mut s, ":");
    push_decimal2(&mut s, total % 60);
    s
}


/// Tenths of `s / d`, rounded to the nearest tenth with ties to the even tenth.
pub open spec fn tenths(s: nat, d: nat) -> nat
    recommends
        d > 0,
{
    let q = (s * 10) / d;
    let r = (s * 10) % d;
    if 2 * r > d || (2 * r == d && q % 2 == 1) { q + 1 } else { q }
}

/// A number of tenths written with one decimal: `t / 10` "." `t % 10`.
pub open spec fn one_decimal(t: nat) -> Seq<char> {
    decimal(t / 10) + "."@ + seq![digit_char((t % 10) as int)]
}

/// The size text for `s` bytes: "<s> B" below 1 KiB, then KB and MB with one decimal.
pub open spec fn size_text(s: nat) -> Seq<char> {
    if s < 1024 {
        decimal(s) + " B"@
    } else if s < 1024 * 1024 {
        one_decimal(tenths(s, 1024)) + " KB"@
    } else {
        one_decimal(tenths(s, 1024 * 1024)) + " MB"@
    }
}

/// The channel text: "Stereo", "Mono", "<n> ch", or "?" where unknown.
pub open spec fn channels_text(c: Option<u16>) -> Seq<char> {
    match c {
        Some(n) => if n == 2 { "Stereo"@ } else if n == 1 { "Mono"@ } else { decimal(n as nat) + " ch"@ },
        None => "?"@,
    }
}

/// `s` bytes divided by `d` with one decimal, rounded as `tenths` says.
fn push_one_decimal(out: &mut String, s: u64, d: u128)
    requires
        d == 1024 || d == 1024 * 1024,
    ensures
        final(out)@ == old(out)@ + one_decimal(tenths(s as nat, d as nat)),
{
    let x: u128 = (s as u128) * 10;
    let q: u128 = x / d;
    let r: u128 = x % d;
    let t: u128 = if 2 * r > d || (2 * r == d && q % 2 == 1) { q + 1 } else { q };
    assert(t == tenths(s as nat, d as nat));
    let ghost o = out@;
    push_decimal(out, t / 10);
    push_str(out, ".");
    push_decimal(out, t % 10);
    assert(t % 10 < 10);
    assert(decimal((t % 10) as nat) == seq![digit_char((t % 10) as int)]);
    assert(out@ =~= o + one_decimal(tenths(s as nat, d as nat)));
}

impl Track {
    /// A track for the file at `path` whose size is `file_size` (where it could be read):
    /// the title is the file stem, the format the upper-cased extension, nothing else known.
    pub fn from_path(path: String, file_size: Option<u64>) -> (t: Track)
        ensures
            track_view(t) == new_track(path@, file_size),
            t.path@ == path@,
            t.title@ == stem_or_unknown(path@),
            t.artist@ == Seq::<char>::empty(),
            t.album@ == Seq::<char>::empty(),
            t.duration_ns.is_none(),
            t.format@ == format_of(path@),
            t.file_size == file_size,
            t.sample_rate.is_none(),
            t.channels.is_none(),
            t.bitrate.is_none(),
    {
        let title = match path_file_stem(path.as_str()) {
            Some(s) => s,
            None => copy_str("Unknown"),
        };
        let format = match path_extension(path.as_str()) {
            Some(e) => to_uppercase(e.as_str()),
            None => copy_str("?"),
        };
        Track {
            path,
            title,
            artist: String::new(),
            album: String::new(),
            duration_ns: None,
            format,
            file_size,
            sample_rate: None,
            channels: None,
            bitrate: None,
        }
    }

    /// A field-by-field copy.
    pub fn duplicate(&self) -> (t: Track)
        ensures
            t == *self,
    {
        Track {
            path: self.path.clone(),
            title: self.title.clone(),
            artist: self.artist.clone(),
            album: self.album.clone(),
            duration_ns: self.duration_ns,
            format: self.format.clone(),
            file_size: self.file_size,
            sample_rate: self.sample_rate,
            channels: self.channels,
            bitrate: self.bitrate,
        }
    }

    /// "artist - title", or the title alone where the artist is unknown (empty).
    pub fn display_title(&self) -> (res: String)
        ensures
            res@ == (if self.artist@.len() == 0 { self.title@ } else { self.artist@ + " - "@ + self.title@ }),
    {
        if self.artist.as_str().is_empty() {
            self.title.clone()
        } else {
            let mut s = self.artist.clone();
            push_str(&mut s, " - ");
            push_str(&mut s, self.title.as_str());
            s
        }
    }

    /// The file stem of the track's path, or "Unknown".
    pub fn file_stem(&self) -> (res: String)
        ensures
            res@ == stem_or_unknown(self.path@),
    {
        match path_file_stem(self.path.as_str()) {
            Some(s) => s,
            None => copy_str("Unknown"),
        }
    }

    /// "MM:SS" of the known duration, or "--:--".
    pub fn format_duration(&self) -> (res: String)
        ensures
            res@ == (match self.duration_ns {
                Some(d) => mm_ss((d / NANOS_PER_SEC) as nat),
                None => "--:--"@,
            }),
    {
        match self.duration_ns {
            Some(d) => format_mm_ss(d),
            None => copy_str("--:--"),
        }
    }

    /// The file size as text (see `size_text`), or "?" where unknown.
    pub fn format_size(&self) -> (res: String)
        ensures
            res@ == (match self.file_size {
                Some(s) => size_text(s as nat),
                None => "?"@,
            }),
    {
        match self.file_size {
            None => copy_str("?"),
            Some(s) => {
                let mut out = String::new();
                if s < 1024 {
                    push_decimal(&mut out, s as u128);
                    push_str(&mut out, " B");
                } else if s < 1024 * 1024 {
                    push_one_decimal(&mut out, s, 1024);
                    push_str(&mut out, " KB");
                } else {
                    push_one_decimal(&mut out, s, 1024 * 1024);
                    push_str(&mut out, " MB");
                }
                out
            },
        }
    }

    /// The channel layout as text (see `channels_text`).
    pub fn format_channels(&self) -> (res: String)
        ensures
            res@ == channels_text(self.channels),
    {
        match self.channels {
            Some(2) => copy_str("Stereo"),
            Some(1) => copy_str("Mono"),
            Some(n) => {
                let mut s = String::new();
                push_decimal(&mut s, n as u128);
                push_str(&mut s, " ch");
                s
            },
            None => copy_str("?"),
        }
    }
}

} // verus!
