//! Playback decisions: fades, loading tracks, next and previous, seeking.
use vstd::prelude::*;
use crate::app::{App, AppView, Command, CommandView, Fade, FadeAction, Panel, command_view, commands_view};
use crate::locale::pick;
use crate::lyrics::{lines_view, lrc_entries, lrc_safe, parse_lrc, same_entries, sorted_strict};
use crate::nav::selected_as;
use crate::text::{copy_str, push_str};
use crate::track::{track_view, tracks_view, AudioMeta, LyricLine, PlayMode, PlayerStatus, Track, TrackView, NANOS_PER_SEC};

verus! {

broadcast use vstd::string::group_string_axioms;

// ───────────────────────── commands ─────────────────────────

pub proof fn lemma_commands_concat(a: Seq<Command>, b: Seq<Command>)
    ensures
        commands_view(a + b) == commands_view(a) + commands_view(b),
{
    assert(commands_view(a + b) =~= commands_view(a) + commands_view(b));
}

/// Appends the commands of `b` to `a`.
pub fn append_commands(a: &mut Vec<Command>, b: Vec<Command>)
    ensures
        commands_view(final(a)@) == commands_view(old(a)@) + commands_view(b@),
{
    let mut b = b;
    proof { lemma_commands_concat(a@, b@); }
    a.append(&mut b);
}

/// A list of one command.
pub fn one_command(c: Command) -> (v: Vec<Command>)
    ensures
        commands_view(v@) == seq![command_view(c)],
{
    let mut v = Vec::new();
    v.push(c);
    assert(commands_view(v@) =~= seq![command_view(c)]);
    v
}

/// No commands.
pub fn no_commands() -> (v: Vec<Command>)
    ensures
        commands_view(v@) == Seq::<CommandView>::empty(),
{
    let v = Vec::new();
    assert(commands_view(v@) =~= Seq::<CommandView>::empty());
    v
}

// ───────────────────────── timing ─────────────────────────

/// The longest duration there is: `u64::MAX` seconds and 999,999,999 nanoseconds.
pub open spec fn max_duration_ns() -> nat {
    18_446_744_073_709_551_615 * 1_000_000_000 + 999_999_999
}

/// `a - b`, held at 0 (how long after `b` the instant `a` is).
pub open spec fn since(a: u128, b: u128) -> u128 {
    if a >= b { (a - b) as u128 } else { 0 }
}

/// The state with the playing clock cleared.
pub open spec fn timing_reset(v: AppView) -> AppView {
    AppView { play_start_ns: None, accumulated_ns: 0, elapsed_ns: 0, duration_ns: None, ..v }
}

/// A fade of `ms` milliseconds starting at `now`, ending with `action`.
pub open spec fn fade_started(v: AppView, action: FadeAction, fade_in: bool, ms: nat, now: u128) -> (AppView, Seq<CommandView>) {
    (
        AppView { fade: Some(Fade { action, fade_in, start_ns: now, duration_ns: (ms * 1_000_000) as u128 }), ..v },
        seq![CommandView::StartFade { fade_in }],
    )
}

/// Stop: fade out over 200 ms while a track plays or is paused; else stop at once.
pub open spec fn stopped(v: AppView, now: u128) -> (AppView, Seq<CommandView>) {
    if v.status == PlayerStatus::Playing || v.status == PlayerStatus::Paused {
        fade_started(v, FadeAction::Stop, false, 200, now)
    } else {
        (timing_reset(AppView { status: PlayerStatus::Stopped, ..v }), seq![CommandView::PlayerStop])
    }
}

/// Quit: while playing, fade out over 300 ms first; while paused, stop and quit;
/// else quit.
pub open spec fn quit_requested(v: AppView, now: u128) -> (AppView, Seq<CommandView>) {
    if v.status == PlayerStatus::Playing {
        fade_started(v, FadeAction::Quit, false, 300, now)
    } else if v.status == PlayerStatus::Paused {
        (AppView { should_quit: true, ..timing_reset(AppView { status: PlayerStatus::Stopped, ..v }) }, seq![CommandView::PlayerStop])
    } else {
        (AppView { should_quit: true, ..v }, Seq::empty())
    }
}

/// Playing library track `idx` starts by loading it (nothing where there is no such track).
pub open spec fn play_started(v: AppView, idx: usize, fade_in: bool) -> (AppView, Seq<CommandView>) {
    if idx < v.library.len() {
        (v, seq![CommandView::LoadTrack { lib_idx: idx, fade_in }])
    } else {
        (v, Seq::empty())
    }
}

/// The end of a fade that is due at `now`, and what it was for.
pub open spec fn fade_updated(v: AppView, now: u128) -> (AppView, Seq<CommandView>) {
    match v.fade {
        None => (v, Seq::empty()),
        Some(f) => if since(now, f.start_ns) < f.duration_ns {
            (v, Seq::empty())
        } else {
            let v1 = AppView { fade: None, ..v };
            match f.action {
                FadeAction::Pause => {
                    let acc = match v1.play_start_ns {
                        Some(s) => (v1.accumulated_ns + since(now, s)) as u128,
                        None => v1.accumulated_ns,
                    };
                    (
                        AppView { accumulated_ns: acc, play_start_ns: None, status: PlayerStatus::Paused, ..v1 },
                        seq![CommandView::EndFade, CommandView::PlayerPause],
                    )
                },
                FadeAction::Stop => (
                    timing_reset(AppView { status: PlayerStatus::Stopped, ..v1 }),
                    seq![CommandView::EndFade, CommandView::PlayerStop],
                ),
                FadeAction::LoadTrack(idx) => {
                    let (v2, c) = play_started(v1, idx, true);
                    (v2, seq![CommandView::EndFade, CommandView::PlayerStop] + c)
                },
                FadeAction::Quit => (
                    AppView { should_quit: true, ..timing_reset(AppView { status: PlayerStatus::Stopped, ..v1 }) },
                    seq![CommandView::EndFade, CommandView::PlayerStop],
                ),
                FadeAction::NoAction => (v1, seq![CommandView::EndFade]),
            }
        },
    }
}

/// Whether adding the time played since the last start to the time played before
/// stays within the longest duration.
pub open spec fn clock_fits(v: AppView, now: u128) -> bool {
    match v.play_start_ns {
        Some(s) => v.accumulated_ns + since(now, s) <= max_duration_ns(),
        None => true,
    }
}

/// Bit rate in kbit/s of `size` bytes played over `d_ns` nanoseconds (held at `u32::MAX`).
pub open spec fn bitrate_kbps(size: u64, d_ns: u128) -> u32 {
    let r = ((size as int) * 8_000_000) / (d_ns as int);
    if r > u32::MAX { u32::MAX } else { r as u32 }
}

/// A track after it was loaded and the decoder reported `meta`.
pub open spec fn track_loaded(t: TrackView, meta: AudioMeta) -> TrackView {
    TrackView {
        duration_ns: if t.duration_ns is None { meta.duration_ns } else { t.duration_ns },
        sample_rate: Some(meta.sample_rate),
        channels: Some(meta.channels),
        bitrate: match (meta.duration_ns, t.file_size) {
            (Some(d), Some(size)) => if d != 0 { Some(bitrate_kbps(size, d)) } else { t.bitrate },
            _ => t.bitrate,
        },
        ..t
    }
}

/// Whether `lyrics` are what the lyrics file `lrc` (if it could be read) holds, sorted by time.
pub open spec fn lyrics_of(lrc: Option<Seq<char>>, lyrics: Seq<LyricLine>) -> bool {
    match lrc {
        None => lyrics.len() == 0,
        Some(c) => sorted_strict(lyrics) && same_entries(lines_view(lyrics), lrc_entries(c)),
    }
}

/// After the caller loaded library track `idx` (or failed to, with `err`): timing
/// reset, lyrics replaced and scrolled to the top (their first row selected, no row
/// where there are none); on success the track plays (fading
/// in where asked) and what the decoder reported is kept.
pub open spec fn load_finished(
    v: AppView,
    idx: usize,
    fade_in: bool,
    lyrics: Seq<LyricLine>,
    result: Result<AudioMeta, Seq<char>>,
    now: u128,
) -> (AppView, Seq<CommandView>) {
    let v1 = AppView {
        fade: None,
        lyrics,
        current_lyric_index: None,
        lyrics_state: selected_as(v.lyrics_state, if lyrics.len() > 0 { Some(0) } else { None }),
        ..timing_reset(v)
    };
    match result {
        Ok(meta) => {
            let v2 = AppView {
                duration_ns: meta.duration_ns,
                current_index: Some(idx),
                status: PlayerStatus::Playing,
                play_start_ns: Some(now),
                library: v1.library.update(idx as int, track_loaded(v1.library[idx as int], meta)),
                track_meta: Some(meta),
                ..v1
            };
            if fade_in {
                let (v3, c) = fade_started(v2, FadeAction::NoAction, true, 300, now);
                (v3, seq![CommandView::PlayerPlay] + c)
            } else {
                (v2, seq![CommandView::PlayerPlay, CommandView::ApplyVolume])
            }
        },
        Err(msg) => (
            AppView { status_message: pick(v.locale.lang, "Error"@, "错误"@) + ": "@ + msg, ..v1 },
            Seq::empty(),
        ),
    }
}

/// Enter on the playlist: play the selected entry (if it exists).
pub open spec fn selected_played(v: AppView) -> (AppView, Seq<CommandView>) {
    match v.playlist_state.selected {
        None => (v, Seq::empty()),
        Some(p) => if p >= v.playlist.len() { (v, Seq::empty()) } else { play_started(v, v.playlist[p as int], false) },
    }
}

/// Space: pause with a 250 ms fade; resume with a 250 ms fade in; when stopped,
/// play the selected playlist entry where the playlist has the focus.
pub open spec fn pause_toggled(v: AppView, now: u128) -> (AppView, Seq<CommandView>) {
    match v.status {
        PlayerStatus::Playing => fade_started(v, FadeAction::Pause, false, 250, now),
        PlayerStatus::Paused => {
            let v1 = AppView { play_start_ns: Some(now), status: PlayerStatus::Playing, ..v };
            let (v2, c) = fade_started(v1, FadeAction::NoAction, true, 250, now);
            (v2, seq![CommandView::PlayerPlay] + c)
        },
        PlayerStatus::Stopped => if v.focus == Panel::Playlist { selected_played(v) } else { (v, Seq::empty()) },
    }
}

/// The first position of `x` in `s`.
pub open spec fn position_of(s: Seq<usize>, x: usize) -> Option<int>
    decreases s.len(),
{
    if s.len() == 0 {
        None
    } else {
        match position_of(s.drop_last(), x) {
            Some(i) => Some(i),
            None => if s.last() == x { Some(s.len() - 1) } else { None },
        }
    }
}

/// One step of the generator shuffle draws from (a 64-bit linear congruential
/// generator).
pub open spec fn shuffle_step(s: u64) -> u64 {
    ((s as int * 6364136223846793005 + 1442695040888963407) % 18446744073709551616) as u64
}

/// The number shuffle draws from the generator in state `s`: the upper half of
/// its next state.
pub open spec fn shuffle_draw(s: u64) -> nat {
    (shuffle_step(s) / 4294967296) as nat
}

/// The library track to play after the current one: the same one in RepeatOne,
/// the next entry (wrapping) in RepeatAll; in Shuffle another entry than the
/// current one, drawn from the generator (nothing where there is no other);
/// else the next entry if there is one.
pub open spec fn next_index(v: AppView) -> Option<usize> {
    if v.playlist.len() == 0 {
        None
    } else {
        match v.current_index {
            None => None,
            Some(cur) => match position_of(v.playlist, cur) {
                None => None,
                Some(pos) => match v.play_mode {
                    PlayMode::RepeatOne => Some(cur),
                    PlayMode::RepeatAll => Some(v.playlist[(pos + 1) % (v.playlist.len() as int)]),
                    PlayMode::Shuffle => if v.playlist.len() >= 2 {
                        let n = v.playlist.len() as int;
                        Some(v.playlist[(pos + 1 + (shuffle_draw(v.shuffle_state) as int) % (n - 1)) % n])
                    } else {
                        None
                    },
                    PlayMode::Sequential => if pos + 1 < v.playlist.len() { Some(v.playlist[pos + 1]) } else { None },
                },
            },
        }
    }
}

/// The library track "previous" goes to: the current one again after three seconds
/// of it; else the previous entry, or at the start the last entry (RepeatAll) or
/// the first.
pub open spec fn prev_index(v: AppView) -> Option<usize> {
    if v.playlist.len() == 0 {
        None
    } else {
        match v.current_index {
            None => None,
            Some(cur) => if v.elapsed_ns > 3 * NANOS_PER_SEC {
                Some(cur)
            } else {
                match position_of(v.playlist, cur) {
                    None => None,
                    Some(pos) => if pos > 0 {
                        Some(v.playlist[pos - 1])
                    } else if v.play_mode == PlayMode::RepeatAll {
                        Some(v.playlist[v.playlist.len() - 1])
                    } else {
                        Some(v.playlist[0])
                    },
                }
            },
        }
    }
}

/// After a track was chosen: in Shuffle the generator moves on, so the next
/// draw differs.
pub open spec fn shuffle_moved_on(v: AppView) -> AppView {
    if v.play_mode == PlayMode::Shuffle { AppView { shuffle_state: shuffle_step(v.shuffle_state), ..v } } else { v }
}

/// N: fade out over 200 ms, then play the next track (nothing at the end).
pub open spec fn next_chosen(v: AppView, now: u128) -> (AppView, Seq<CommandView>) {
    match next_index(v) {
        Some(i) => fade_started(shuffle_moved_on(v), FadeAction::LoadTrack(i), false, 200, now),
        None => (v, Seq::empty()),
    }
}

/// P: fade out over 200 ms, then play the previous track.
pub open spec fn prev_chosen(v: AppView, now: u128) -> (AppView, Seq<CommandView>) {
    match prev_index(v) {
        Some(i) => fade_started(v, FadeAction::LoadTrack(i), false, 200, now),
        None => (v, Seq::empty()),
    }
}

/// When a track ends: fade to the next one, or fade out and stop at the end.
pub open spec fn advanced(v: AppView, now: u128) -> (AppView, Seq<CommandView>) {
    match next_index(v) {
        Some(i) => fade_started(shuffle_moved_on(v), FadeAction::LoadTrack(i), false, 200, now),
        None => fade_started(v, FadeAction::Stop, false, 200, now),
    }
}

/// Seek to `target` in the current track (nothing when stopped or without a track).
pub open spec fn seeked_to(v: AppView, target: u128) -> (AppView, Seq<CommandView>) {
    if v.status == PlayerStatus::Stopped || v.current_index is None {
        (v, Seq::empty())
    } else {
        (
            AppView { fade: None, accumulated_ns: target, elapsed_ns: target, ..v },
            seq![CommandView::SeekLoad { lib_idx: v.current_index.unwrap(), skip_ns: target }],
        )
    }
}

/// After the caller reloaded the track at the seek position (or failed to, with `err`).
pub open spec fn seek_finished(v: AppView, result: Result<(), Seq<char>>, now: u128) -> (AppView, Seq<CommandView>) {
    match result {
        Ok(_) => (AppView { play_start_ns: Some(now), status: PlayerStatus::Playing, ..v }, seq![CommandView::PlayerPlay]),
        Err(msg) => (
            AppView { status_message: pick(v.locale.lang, "Seek error"@, "跳转错误"@) + ": "@ + msg, ..v },
            Seq::empty(),
        ),
    }
}

/// The seek target five seconds back (not before the start) or forward (not past
/// the known duration).
pub open spec fn seek_target(v: AppView, forward: bool) -> nat {
    if forward {
        let t = v.elapsed_ns + 5 * NANOS_PER_SEC;
        match v.duration_ns {
            Some(d) => if t > d { d as nat } else { t as nat },
            None => t as nat,
        }
    } else {
        since(v.elapsed_ns, (5 * NANOS_PER_SEC) as u128) as nat
    }
}

/// Left / right: seek five seconds (nothing when stopped or without a track).
pub open spec fn seeked(v: AppView, forward: bool) -> (AppView, Seq<CommandView>) {
    if v.status == PlayerStatus::Stopped || v.current_index is None {
        (v, Seq::empty())
    } else {
        seeked_to(v, seek_target(v, forward) as u128)
    }
}

/// Whether a seek forward stays within the longest duration.
pub open spec fn seek_fits(v: AppView) -> bool {
    v.elapsed_ns + 5 * NANOS_PER_SEC <= max_duration_ns()
}


// ───────────────────────── the operations ─────────────────────────

/// The first position of `x` in `v`.
pub fn vec_position(v: &Vec<usize>, x: usize) -> (res: Option<usize>)
    ensures
        (match res { Some(i) => Some(i as int), None => None }) == position_of(v@, x),
        res matches Some(i) ==> i < v@.len(),
{
    let n = v.len();
    let mut i: usize = 0;
    assert(v@.take(0) =~= Seq::<usize>::empty());
    while i < n
        invariant
            i <= n == v@.len(),
            position_of(v@.take(i as int), x) is None,
        decreases n - i,
    {
        assert(v@.take(i + 1).drop_last() =~= v@.take(i as int));
        assert(v@.take(i + 1).last() == v@[i as int]);
        if v[i] == x {
            proof { lemma_position_prefix(v@, i as int + 1); }
            return Some(i);
        }
        i = i + 1;
    }
    assert(v@.take(n as int) =~= v@);
    None
}

/// One step of the shuffle generator (see `shuffle_step`).
fn shuffle_next(s: u64) -> (r: u64)
    ensures
        r == shuffle_step(s),
{
    (((s as u128) * 6364136223846793005u128 + 1442695040888963407u128) % 18446744073709551616u128) as u64
}

fn since_exec(a: u128, b: u128) -> (r: u128)
    ensures
        r == since(a, b),
{
    if a >= b { a - b } else { 0 }
}

/// The lyrics of a lyrics file's content (none where it could not be read).
fn load_lyrics(lrc: Option<String>) -> (res: Vec<LyricLine>)
    requires
        lrc matches Some(c) ==> lrc_safe(c@),
    ensures
        lyrics_of(match lrc { Some(c) => Some(c@), None => None }, res@),
{
    let res = match lrc {
        Some(c) => match parse_lrc(c.as_str()) {
            Some(v) => v,
            None => Vec::new(),
        },
        None => Vec::new(),
    };
    proof {
        if res@.len() == 0 {
            assert(lines_view(res@) =~= Seq::<(nat, Seq<char>)>::empty());
        }
    }
    res
}

/// The track after loading it gave `meta` (see `track_loaded`).
fn loaded_track(t: &Track, meta: AudioMeta) -> (res: Track)
    ensures
        track_view(res) == track_loaded(track_view(*t), meta),
{
    let mut t = t.duplicate();
    if t.duration_ns.is_none() {
        t.duration_ns = meta.duration_ns;
    }
    t.sample_rate = Some(meta.sample_rate);
    t.channels = Some(meta.channels);
    match (meta.duration_ns, t.file_size) {
        (Some(d), Some(size)) => {
            if d != 0 {
                let r: u128 = (size as u128) * 8_000_000 / d;
                t.bitrate = Some(if r > u32::MAX as u128 { u32::MAX } else { r as u32 });
            }
        },
        _ => {},
    }
    t
}

impl App {
    /// Clears the playing clock.
    pub fn reset_timing(&mut self)
        ensures
            final(self)@ == timing_reset(old(self)@),
    {
        self.play_start_ns = None;
        self.accumulated_ns = 0;
        self.elapsed_ns = 0;
        self.duration_ns = None;
    }

    /// Starts a fade of `ms` milliseconds ending with `action`.
    pub fn start_fade(&mut self, action: FadeAction, fade_in: bool, ms: u64, now: u128) -> (cmds: Vec<Command>)
        ensures
            (final(self)@, commands_view(cmds@)) == fade_started(old(self)@, action, fade_in, ms as nat, now),
    {
        self.fade = Some(Fade { action, fade_in, start_ns: now, duration_ns: (ms as u128) * 1_000_000 });
        one_command(Command::StartFade { fade_in })
    }

    /// S: stop (see `stopped`).
    pub fn stop(&mut self, now: u128) -> (cmds: Vec<Command>)
        ensures
            (final(self)@, commands_view(cmds@)) == stopped(old(self)@, now),
    {
        if self.status == PlayerStatus::Playing || self.status == PlayerStatus::Paused {
            self.start_fade(FadeAction::Stop, false, 200, now)
        } else {
            self.status = PlayerStatus::Stopped;
            self.reset_timing();
            one_command(Command::PlayerStop)
        }
    }

    /// Q / Esc / Ctrl+C: quit (see `quit_requested`).
    pub fn request_quit(&mut self, now: u128) -> (cmds: Vec<Command>)
        ensures
            (final(self)@, commands_view(cmds@)) == quit_requested(old(self)@, now),
    {
        if self.status == PlayerStatus::Playing {
            self.start_fade(FadeAction::Quit, false, 300, now)
        } else if self.status == PlayerStatus::Paused {
            self.status = PlayerStatus::Stopped;
            self.reset_timing();
            self.should_quit = true;
            one_command(Command::PlayerStop)
        } else {
            self.should_quit = true;
            no_commands()
        }
    }

    /// Plays library track `lib_idx` (see `play_started`).
    pub fn play_track(&mut self, lib_idx: usize) -> (cmds: Vec<Command>)
        ensures
            (final(self)@, commands_view(cmds@)) == play_started(old(self)@, lib_idx, false),
    {
        self.do_play_track(lib_idx, false)
    }

    fn do_play_track(&mut self, lib_idx: usize, fade_in: bool) -> (cmds: Vec<Command>)
        ensures
            (final(self)@, commands_view(cmds@)) == play_started(old(self)@, lib_idx, fade_in),
    {
        if lib_idx >= self.library.len() {
            return no_commands();
        }
        one_command(Command::LoadTrack { lib_idx, fade_in })
    }

    /// Ends a fade that is due at `now` (see `fade_updated`).  The caller sets the
    /// volume along a running fade itself.
    pub fn update_fade(&mut self, now: u128) -> (cmds: Vec<Command>)
        requires
            clock_fits(old(self)@, now),
        ensures
            (final(self)@, commands_view(cmds@)) == fade_updated(old(self)@, now),
    {
        let f = match self.fade {
            None => return no_commands(),
            Some(f) => f,
        };
        if since_exec(now, f.start_ns) < f.duration_ns {
            return no_commands();
        }
        self.fade = None;
        let mut cmds = one_command(Command::EndFade);
        match f.action {
            FadeAction::Pause => {
                match self.play_start_ns {
                    Some(start) => {
                        self.accumulated_ns = self.accumulated_ns + since_exec(now, start);
                    },
                    None => {},
                }
                self.play_start_ns = None;
                self.status = PlayerStatus::Paused;
                append_commands(&mut cmds, one_command(Command::PlayerPause));
            },
            FadeAction::Stop => {
                self.status = PlayerStatus::Stopped;
                self.reset_timing();
                append_commands(&mut cmds, one_command(Command::PlayerStop));
            },
            FadeAction::LoadTrack(idx) => {
                append_commands(&mut cmds, one_command(Command::PlayerStop));
                let more = self.do_play_track(idx, true);
                append_commands(&mut cmds, more);
            },
            FadeAction::Quit => {
                self.status = PlayerStatus::Stopped;
                self.reset_timing();
                self.should_quit = true;
                append_commands(&mut cmds, one_command(Command::PlayerStop));
            },
            FadeAction::NoAction => {},
        }
        proof {
            let e = seq![CommandView::EndFade];
            assert(e + seq![CommandView::PlayerPause] =~= seq![CommandView::EndFade, CommandView::PlayerPause]);
            assert(e + seq![CommandView::PlayerStop] =~= seq![CommandView::EndFade, CommandView::PlayerStop]);
            assert forall|c: Seq<CommandView>| e + seq![CommandView::PlayerStop] + c =~= seq![CommandView::EndFade, CommandView::PlayerStop] + c by {}
        }
        cmds
    }

    /// Completes a `Command::LoadTrack`: the caller stopped the output, read the
    /// lyrics file beside the track (`lrc`, `None` where it could not be read) and
    /// loaded the track, which gave `result` (the decoder's report, or the error
    /// text).  See `load_finished`.
    pub fn finish_load_track(
        &mut self,
        lib_idx: usize,
        fade_in: bool,
        lrc: Option<String>,
        result: Result<AudioMeta, String>,
        now: u128,
    ) -> (cmds: Vec<Command>)
        requires
            lib_idx < old(self).library@.len(),
            lrc matches Some(c) ==> lrc_safe(c@),
        ensures
            lyrics_of(match lrc { Some(c) => Some(c@), None => None }, final(self).lyrics@),
            (final(self)@, commands_view(cmds@)) == load_finished(
                old(self)@, lib_idx, fade_in, final(self).lyrics@,
                match result { Ok(m) => Ok(m), Err(e) => Err(e@) }, now),
    {
        self.fade = None;
        self.reset_timing();
        self.lyrics = load_lyrics(lrc);
        self.current_lyric_index = None;
        if self.lyrics.len() > 0 {
            self.lyrics_state.select(Some(0));
        } else {
            self.lyrics_state.select(None);
        }
        match result {
            Ok(meta) => {
                self.duration_ns = meta.duration_ns;
                self.current_index = Some(lib_idx);
                self.status = PlayerStatus::Playing;
                self.play_start_ns = Some(now);
                assert(tracks_view(self.library@).len() == self.library@.len());
                let t = loaded_track(&self.library[lib_idx], meta);
                let ghost before = self.library@;
                self.library.set(lib_idx, t);
                assert(tracks_view(self.library@) =~= tracks_view(before).update(
                    lib_idx as int, track_view(t)));
                self.track_meta = Some(meta);
                let mut cmds = one_command(Command::PlayerPlay);
                if fade_in {
                    let more = self.start_fade(FadeAction::NoAction, true, 300, now);
                    append_commands(&mut cmds, more);
                } else {
                    append_commands(&mut cmds, one_command(Command::ApplyVolume));
                    assert(seq![CommandView::PlayerPlay] + seq![CommandView::ApplyVolume] =~= seq![CommandView::PlayerPlay, CommandView::ApplyVolume]);
                }
                cmds
            },
            Err(e) => {
                let mut msg = copy_str(self.locale.error_prefix());
                push_str(&mut msg, ": ");
                push_str(&mut msg, e.as_str());
                self.status_message = msg;
                no_commands()
            },
        }
    }

    /// Enter on the playlist (see `selected_played`).
    pub fn play_selected(&mut self) -> (cmds: Vec<Command>)
        ensures
            (final(self)@, commands_view(cmds@)) == selected_played(old(self)@),
    {
        let pl_idx = match self.playlist_state.selected() {
            Some(i) => i,
            None => return no_commands(),
        };
        if pl_idx >= self.playlist.len() {
            return no_commands();
        }
        let idx = self.playlist[pl_idx];
        self.play_track(idx)
    }

    /// Space (see `pause_toggled`).
    pub fn toggle_pause(&mut self, now: u128) -> (cmds: Vec<Command>)
        ensures
            (final(self)@, commands_view(cmds@)) == pause_toggled(old(self)@, now),
    {
        match self.status {
            PlayerStatus::Playing => self.start_fade(FadeAction::Pause, false, 250, now),
            PlayerStatus::Paused => {
                self.play_start_ns = Some(now);
                self.status = PlayerStatus::Playing;
                let mut cmds = one_command(Command::PlayerPlay);
                let more = self.start_fade(FadeAction::NoAction, true, 250, now);
                append_commands(&mut cmds, more);
                cmds
            },
            PlayerStatus::Stopped => {
                if self.focus == Panel::Playlist {
                    self.play_selected()
                } else {
                    no_commands()
                }
            },
        }
    }

    /// The first position of `x` in the playlist.
    fn playlist_position(&self, x: usize) -> (res: Option<usize>)
        ensures
            (match res { Some(i) => Some(i as int), None => None }) == position_of(self.playlist@, x),
            res matches Some(i) ==> i < self.playlist@.len(),
    {
        vec_position(&self.playlist, x)
    }

    /// Seeds the generator shuffle draws from; the caller passes a value that
    /// differs from run to run (such as the time).
    pub fn seed_shuffle(&mut self, seed: u64)
        ensures
            final(self)@ == (AppView { shuffle_state: seed, ..old(self)@ }),
    {
        self.shuffle_state = seed;
    }

    /// See `shuffle_moved_on`.
    fn move_shuffle_on(&mut self)
        ensures
            final(self)@ == shuffle_moved_on(old(self)@),
    {
        if self.play_mode == PlayMode::Shuffle {
            self.shuffle_state = shuffle_next(self.shuffle_state);
        }
    }

    /// The library track to play next (see `next_index`).
    pub fn compute_next_lib_index(&self) -> (res: Option<usize>)
        ensures
            res == next_index(self@),
    {
        if self.playlist.len() == 0 {
            return None;
        }
        let cur = match self.current_index {
            Some(c) => c,
            None => return None,
        };
        let pos = match self.playlist_position(cur) {
            Some(p) => p,
            None => return None,
        };
        match self.play_mode {
            PlayMode::RepeatOne => Some(cur),
            PlayMode::RepeatAll => Some(self.playlist[(pos + 1) % self.playlist.len()]),
            PlayMode::Shuffle => {
                let n = self.playlist.len();
                if n >= 2 {
                    let d = shuffle_next(self.shuffle_state) / 4294967296;
                    let k = ((pos as u128) + 1 + (d as u128) % ((n - 1) as u128)) % (n as u128);
                    Some(self.playlist[k as usize])
                } else {
                    None
                }
            },
            PlayMode::Sequential => if pos + 1 < self.playlist.len() { Some(self.playlist[pos + 1]) } else { None },
        }
    }

    /// The library track "previous" goes to (see `prev_index`).
    pub fn compute_prev_lib_index(&self) -> (res: Option<usize>)
        ensures
            res == prev_index(self@),
    {
        if self.playlist.len() == 0 {
            return None;
        }
        let cur = match self.current_index {
            Some(c) => c,
            None => return None,
        };
        if self.elapsed_ns > 3 * NANOS_PER_SEC {
            return Some(cur);
        }
        let pos = match self.playlist_position(cur) {
            Some(p) => p,
            None => return None,
        };
        if pos > 0 {
            Some(self.playlist[pos - 1])
        } else if self.play_mode == PlayMode::RepeatAll {
            Some(self.playlist[self.playlist.len() - 1])
        } else {
            Some(self.playlist[0])
        }
    }

    /// N (see `next_chosen`).
    pub fn next_track(&mut self, now: u128) -> (cmds: Vec<Command>)
        ensures
            (final(self)@, commands_view(cmds@)) == next_chosen(old(self)@, now),
    {
        match self.compute_next_lib_index() {
            Some(idx) => {
                self.move_shuffle_on();
                self.start_fade(FadeAction::LoadTrack(idx), false, 200, now)
            },
            None => no_commands(),
        }
    }

    /// P (see `prev_chosen`).
    pub fn prev_track(&mut self, now: u128) -> (cmds: Vec<Command>)
        ensures
            (final(self)@, commands_view(cmds@)) == prev_chosen(old(self)@, now),
    {
        match self.compute_prev_lib_index() {
            Some(idx) => self.start_fade(FadeAction::LoadTrack(idx), false, 200, now),
            None => no_commands(),
        }
    }

    /// When the output ran dry (see `advanced`).
    pub fn advance_track(&mut self, now: u128) -> (cmds: Vec<Command>)
        ensures
            (final(self)@, commands_view(cmds@)) == advanced(old(self)@, now),
    {
        match self.compute_next_lib_index() {
            Some(idx) => {
                self.move_shuffle_on();
                self.start_fade(FadeAction::LoadTrack(idx), false, 200, now)
            },
            None => self.start_fade(FadeAction::Stop, false, 200, now),
        }
    }

    /// M: the next play mode.
    pub fn toggle_play_mode(&mut self)
        ensures
            final(self)@ == (AppView { play_mode: crate::track::next_mode(old(self)@.play_mode), ..old(self)@ }),
    {
        self.play_mode = self.play_mode.next();
    }

    /// + / =: raise the volume.
    pub fn volume_up(&self) -> (cmds: Vec<Command>)
        ensures
            commands_view(cmds@) == seq![CommandView::VolumeUp],
    {
        one_command(Command::VolumeUp)
    }

    /// -: lower the volume.
    pub fn volume_down(&self) -> (cmds: Vec<Command>)
        ensures
            commands_view(cmds@) == seq![CommandView::VolumeDown],
    {
        one_command(Command::VolumeDown)
    }

    /// Seeks to `target_ns` in the current track (see `seeked_to`).
    pub fn seek_to(&mut self, target_ns: u128) -> (cmds: Vec<Command>)
        ensures
            (final(self)@, commands_view(cmds@)) == seeked_to(old(self)@, target_ns),
    {
        if self.status == PlayerStatus::Stopped || self.current_index.is_none() {
            return no_commands();
        }
        self.fade = None;
        let lib_idx = match self.current_index {
            Some(i) => i,
            None => 0,
        };
        self.accumulated_ns = target_ns;
        self.elapsed_ns = target_ns;
        one_command(Command::SeekLoad { lib_idx, skip_ns: target_ns })
    }

    /// Completes a `Command::SeekLoad` with the load's outcome (see `seek_finished`).
    pub fn finish_seek(&mut self, result: Result<(), String>, now: u128) -> (cmds: Vec<Command>)
        ensures
            (final(self)@, commands_view(cmds@)) == seek_finished(old(self)@,
                match result { Ok(_) => Ok(()), Err(e) => Err(e@) }, now),
    {
        match result {
            Ok(_) => {
                self.play_start_ns = Some(now);
                self.status = PlayerStatus::Playing;
                one_command(Command::PlayerPlay)
            },
            Err(e) => {
                let mut msg = copy_str(self.locale.seek_error());
                push_str(&mut msg, ": ");
                push_str(&mut msg, e.as_str());
                self.status_message = msg;
                no_commands()
            },
        }
    }

    /// Left / right: seek five seconds back or forward (see `seeked`).
    pub fn seek(&mut self, forward: bool) -> (cmds: Vec<Command>)
        requires
            forward ==> seek_fits(old(self)@),
        ensures
            (final(self)@, commands_view(cmds@)) == seeked(old(self)@, forward),
    {
        if self.status == PlayerStatus::Stopped || self.current_index.is_none() {
            return no_commands();
        }
        let target: u128 = if forward {
            let t = self.elapsed_ns + 5 * NANOS_PER_SEC;
            match self.duration_ns {
                Some(d) => if t > d { d } else { t },
                None => t,
            }
        } else {
            since_exec(self.elapsed_ns, 5 * NANOS_PER_SEC)
        };
        self.seek_to(target)
    }
}

/// A position found for `x` holds `x`.
pub proof fn lemma_position_valid(s: Seq<usize>, x: usize)
    ensures
        position_of(s, x) matches Some(p) ==> 0 <= p < s.len() && s[p] == x,
    decreases s.len(),
{
    if s.len() > 0 {
        lemma_position_valid(s.drop_last(), x);
    }
}

/// Shuffle plays an entry of the playlist other than the current one, wherever
/// the playlist has another; which one depends on the generator's state.
pub proof fn law_shuffle_picks_another(v: AppView, cur: usize)
    requires
        v.play_mode == PlayMode::Shuffle,
        v.current_index == Some(cur),
        position_of(v.playlist, cur) is Some,
        v.playlist.len() >= 2,
    ensures
        next_index(v) matches Some(i) && exists|j: int|
            0 <= j < v.playlist.len() && j != position_of(v.playlist, cur)->0 && #[trigger] v.playlist[j] == i,
{
    lemma_position_valid(v.playlist, cur);
    let n = v.playlist.len() as int;
    let pos = position_of(v.playlist, cur)->0;
    let j = (pos + 1 + (shuffle_draw(v.shuffle_state) as int) % (n - 1)) % n;
    assert(0 <= j < n && j != pos) by (nonlinear_arith)
        requires
            0 <= pos < n,
            n >= 2,
            j == (pos + 1 + (shuffle_draw(v.shuffle_state) as int) % (n - 1)) % n,
    {
        let d = (shuffle_draw(v.shuffle_state) as int) % (n - 1);
        assert(0 <= d < n - 1);
        if pos + 1 + d < n {
            assert(j == pos + 1 + d);
        } else {
            assert(j == pos + 1 + d - n);
        }
    }
    assert(v.playlist[j] == next_index(v)->0);
}

/// Shuffle's pick is drawn, not fixed: where the playlist holds at least three
/// different tracks, two states of the generator pick two different tracks, both
/// other than the current one.  (`App::seed_shuffle` sets the state from a value
/// that differs from run to run.)
pub proof fn law_shuffle_varies(v: AppView, cur: usize)
    requires
        v.play_mode == PlayMode::Shuffle,
        v.current_index == Some(cur),
        position_of(v.playlist, cur) is Some,
        v.playlist.len() >= 3,
        v.playlist.no_duplicates(),
    ensures
        exists|s1: u64, s2: u64| {
            &&& #[trigger] next_index(AppView { shuffle_state: s1, ..v }) matches Some(i1)
            &&& #[trigger] next_index(AppView { shuffle_state: s2, ..v }) matches Some(i2)
            &&& i1 != i2 && i1 != cur && i2 != cur
        },
{
    let s1: u64 = 11066951453180645397;
    let s2: u64 = 14714348890532040725;
    assert(shuffle_step(s1) == 0);
    assert(shuffle_step(s2) == 4294967296);
    assert(shuffle_draw(s1) == 0);
    assert(shuffle_draw(s2) == 1);
    let v1 = AppView { shuffle_state: s1, ..v };
    let v2 = AppView { shuffle_state: s2, ..v };
    lemma_position_valid(v.playlist, cur);
    let n = v.playlist.len() as int;
    let pos = position_of(v.playlist, cur)->0;
    let j1 = (pos + 1 + 0int % (n - 1)) % n;
    let j2 = (pos + 1 + 1int % (n - 1)) % n;
    assert(0int % (n - 1) == 0 && 1int % (n - 1) == 1) by (nonlinear_arith)
        requires n >= 3;
    assert(0 <= j1 < n && 0 <= j2 < n && j1 != j2 && j1 != pos && j2 != pos) by (nonlinear_arith)
        requires
            0 <= pos < n,
            n >= 3,
            j1 == (pos + 1) % n,
            j2 == (pos + 2) % n,
    {
        if pos + 2 < n {
            assert(j1 == pos + 1);
            assert(j2 == pos + 2);
        } else if pos + 1 < n {
            assert(j1 == pos + 1);
            assert(j2 == pos + 2 - n);
        } else {
            assert(j1 == pos + 1 - n);
            assert(j2 == pos + 2 - n);
        }
    }
    assert(next_index(v1) == Some(v.playlist[j1]));
    assert(next_index(v2) == Some(v.playlist[j2]));
    assert(v.playlist[j1] != v.playlist[j2]);
    assert(v.playlist[j1] != v.playlist[pos]);
    assert(v.playlist[j2] != v.playlist[pos]);
}

/// In a playlist without repeated entries, the entry at position `i` is found at `i`.
pub proof fn lemma_position_distinct(s: Seq<usize>, i: int)
    requires
        s.no_duplicates(),
        0 <= i < s.len(),
    ensures
        position_of(s, s[i]) == Some(i),
{
    lemma_position_valid(s.take(i), s[i]);
    if position_of(s.take(i), s[i]) is Some {
        let q = position_of(s.take(i), s[i])->0;
        assert(s.take(i)[q] == s[q]);
        assert(false);
    }
    lemma_position_prefix(s, i + 1);
}

/// "Previous" goes back one entry; from the first entry it wraps to the last in
/// RepeatAll and stays on the first otherwise; after more than three seconds of
/// the current track it starts that track again.
pub proof fn law_previous_entry(v: AppView, cur: usize, pos: int)
    requires
        v.current_index == Some(cur),
        position_of(v.playlist, cur) == Some(pos),
    ensures
        v.elapsed_ns > 3 * NANOS_PER_SEC ==> prev_index(v) == Some(cur),
        v.elapsed_ns <= 3 * NANOS_PER_SEC && pos > 0 ==> prev_index(v) == Some(v.playlist[pos - 1]),
        v.elapsed_ns <= 3 * NANOS_PER_SEC && pos == 0 && v.play_mode == PlayMode::RepeatAll
            ==> prev_index(v) == Some(v.playlist[v.playlist.len() - 1]),
        v.elapsed_ns <= 3 * NANOS_PER_SEC && pos == 0 && v.play_mode != PlayMode::RepeatAll
            ==> prev_index(v) == Some(v.playlist[0]),
{
    lemma_position_valid(v.playlist, cur);
}

/// In RepeatAll, within the first three seconds, "previous" undoes "next": from
/// the track "next" goes to, "previous" comes back to the current one (the
/// playlist repeating no entry).
pub proof fn law_previous_undoes_next(v: AppView, cur: usize)
    requires
        v.play_mode == PlayMode::RepeatAll,
        v.current_index == Some(cur),
        position_of(v.playlist, cur) is Some,
        v.playlist.no_duplicates(),
        v.elapsed_ns <= 3 * NANOS_PER_SEC,
    ensures
        next_index(v) matches Some(n)
            && prev_index(AppView { current_index: Some(n), ..v }) == Some(cur),
{
    lemma_position_valid(v.playlist, cur);
    let len = v.playlist.len() as int;
    let pos = position_of(v.playlist, cur)->0;
    let q = (pos + 1) % len;
    assert(0 <= q < len && (q == 0 ==> pos == len - 1) && (q > 0 ==> q - 1 == pos)) by (nonlinear_arith)
        requires
            0 <= pos < len,
            q == (pos + 1) % len,
    {
        if pos + 1 < len {
            assert(q == pos + 1);
        } else {
            assert(q == 0);
        }
    }
    let n = v.playlist[q];
    assert(next_index(v) == Some(n));
    lemma_position_distinct(v.playlist, q);
}

proof fn lemma_position_prefix(s: Seq<usize>, n: int)
    requires
        0 < n <= s.len(),
        position_of(s.take(n - 1), s[n - 1]) is None,
    ensures
        position_of(s, s[n - 1]) == Some(n - 1),
{
    lemma_position_extend(s, n, s.len() as int);
    assert(s.take(s.len() as int) =~= s);
}

proof fn lemma_position_extend(s: Seq<usize>, n: int, m: int)
    requires
        0 < n <= m <= s.len(),
        position_of(s.take(n - 1), s[n - 1]) is None,
    ensures
        position_of(s.take(m), s[n - 1]) == Some(n - 1),
    decreases m,
{
    assert(s.take(m).drop_last() =~= s.take(m - 1));
    if m == n {
        assert(s.take(m).last() == s[n - 1]);
    } else {
        lemma_position_extend(s, n, m - 1);
    }
    if m == s.len() {
        assert(s.take(m) =~= s);
    }
}


// ───────────────────────── the clock tick ─────────────────────────

/// The playing time while playing: time before the last start plus time since,
/// held at the known duration.
pub open spec fn elapsed_updated(v: AppView, now: u128) -> AppView {
    if v.status == PlayerStatus::Playing {
        match v.play_start_ns {
            Some(s) => {
                let e = v.accumulated_ns + since(now, s);
                let e2 = match v.duration_ns {
                    Some(d) => if e > d { d as int } else { e },
                    None => e,
                };
                AppView { elapsed_ns: e2 as u128, ..v }
            },
            None => v,
        }
    } else {
        v
    }
}

/// The first position at or after `i` of a lyric line later than `t`.
pub open spec fn first_after(lyrics: Seq<LyricLine>, t: u128, i: int) -> int
    decreases lyrics.len() - i,
{
    if i < 0 || i >= lyrics.len() {
        lyrics.len() as int
    } else if lyrics[i].timestamp_ns > t {
        i
    } else {
        first_after(lyrics, t, i + 1)
    }
}

/// The current lyric line: the last one not later than the playing time (for the
/// sorted lyrics the player holds, where `partition_point` splits them).
pub open spec fn lyric_index_updated(v: AppView) -> AppView {
    if v.lyrics.len() == 0 {
        v
    } else {
        let idx = first_after(v.lyrics, v.elapsed_ns, 0);
        AppView { current_lyric_index: if idx > 0 { Some((idx - 1) as usize) } else { None }, ..v }
    }
}

/// The lyrics list follows the current line: at once where the lyrics panel has
/// no focus; with the focus, after the selection has been elsewhere for more than
/// thirty ticks.
pub open spec fn lyrics_scrolled(v: AppView) -> AppView {
    let map = v.lyric_line_map;
    if v.focus == Panel::Lyrics {
        let cur = match v.lyrics_state.selected {
            Some(p) => if p < map.len() { Some(map[p as int]) } else { None },
            None => None,
        };
        if cur != v.current_lyric_index {
            let ticks = (v.lyrics_idle_ticks + 1) as u32;
            if ticks > 30 {
                let st = match v.current_lyric_index {
                    Some(idx) => match position_of(map, idx) {
                        Some(ph) => selected_as(v.lyrics_state, Some(ph as usize)),
                        None => v.lyrics_state,
                    },
                    None => v.lyrics_state,
                };
                AppView { lyrics_state: st, lyrics_idle_ticks: 0, ..v }
            } else {
                AppView { lyrics_idle_ticks: ticks, ..v }
            }
        } else {
            AppView { lyrics_idle_ticks: 0, ..v }
        }
    } else if v.lyrics.len() > 0 {
        match v.current_lyric_index {
            Some(idx) => match position_of(map, idx) {
                Some(ph) => AppView { lyrics_state: selected_as(v.lyrics_state, Some(ph as usize)), ..v },
                None => v,
            },
            None => v,
        }
    } else {
        v
    }
}

/// A clock tick after `update_fade`: playing time, current lyric, lyrics scrolling,
/// and the next track once the output ran dry (`player_empty`) with no fade running.
pub open spec fn updated(v: AppView, now: u128, player_empty: bool) -> (AppView, Seq<CommandView>) {
    let v1 = lyrics_scrolled(lyric_index_updated(elapsed_updated(v, now)));
    if v1.status == PlayerStatus::Playing && player_empty && v1.fade is None {
        advanced(v1, now)
    } else {
        (v1, Seq::empty())
    }
}

impl App {
    fn update_elapsed(&mut self, now: u128)
        requires
            clock_fits(old(self)@, now),
        ensures
            final(self)@ == elapsed_updated(old(self)@, now),
    {
        if self.status == PlayerStatus::Playing {
            match self.play_start_ns {
                Some(start) => {
                    let e = self.accumulated_ns + since_exec(now, start);
                    self.elapsed_ns = match self.duration_ns {
                        Some(d) => if e > d { d } else { e },
                        None => e,
                    };
                },
                None => {},
            }
        }
    }

    fn update_lyric_index(&mut self)
        ensures
            final(self)@ == lyric_index_updated(old(self)@),
    {
        if self.lyrics.len() == 0 {
            return;
        }
        let n = self.lyrics.len();
        let mut i: usize = 0;
        while i < n && self.lyrics[i].timestamp_ns <= self.elapsed_ns
            invariant
                i <= n == self.lyrics@.len(),
                first_after(self.lyrics@, self.elapsed_ns, 0) == first_after(self.lyrics@, self.elapsed_ns, i as int),
            decreases n - i,
        {
            i = i + 1;
        }
        self.current_lyric_index = if i > 0 { Some(i - 1) } else { None };
    }

    fn scroll_lyrics(&mut self)
        requires
            old(self).lyrics_idle_ticks < u32::MAX,
        ensures
            final(self)@ == lyrics_scrolled(old(self)@),
    {
        if self.focus == Panel::Lyrics {
            let cur = match self.lyrics_state.selected() {
                Some(p) => if p < self.lyric_line_map.len() { Some(self.lyric_line_map[p]) } else { None },
                None => None,
            };
            if cur != self.current_lyric_index {
                self.lyrics_idle_ticks = self.lyrics_idle_ticks + 1;
                if self.lyrics_idle_ticks > 30 {
                    match self.current_lyric_index {
                        Some(idx) => match vec_position(&self.lyric_line_map, idx) {
                            Some(ph) => self.lyrics_state.select(Some(ph)),
                            None => {},
                        },
                        None => {},
                    }
                    self.lyrics_idle_ticks = 0;
                }
            } else {
                self.lyrics_idle_ticks = 0;
            }
        } else if self.lyrics.len() > 0 {
            match self.current_lyric_index {
                Some(idx) => match vec_position(&self.lyric_line_map, idx) {
                    Some(ph) => self.lyrics_state.select(Some(ph)),
                    None => {},
                },
                None => {},
            }
        }
    }

    /// A clock tick at `now`, after `update_fade` and the commands it gave were carried
    /// out; `player_empty` says whether the output has nothing left to play (see `updated`).
    pub fn update(&mut self, now: u128, player_empty: bool) -> (cmds: Vec<Command>)
        requires
            clock_fits(old(self)@, now),
            old(self).lyrics_idle_ticks < u32::MAX,
        ensures
            (final(self)@, commands_view(cmds@)) == updated(old(self)@, now, player_empty),
    {
        self.update_elapsed(now);
        self.update_lyric_index();
        self.scroll_lyrics();
        if self.status == PlayerStatus::Playing && player_empty && self.fade.is_none() {
            self.advance_track(now)
        } else {
            no_commands()
        }
    }

    /// Whether `update_fade` and `update` can run at `now`: the playing clock stays
    /// within the longest duration and the lyrics' idle count can still grow.
    pub fn tick_is_safe(&self, now: u128) -> (res: bool)
        ensures
            res == (clock_fits(self@, now) && self.lyrics_idle_ticks < u32::MAX),
    {
        let clock_ok = match self.play_start_ns {
            Some(s) => {
                let d = since_exec(now, s);
                self.accumulated_ns <= 18_446_744_073_709_551_615 * 1_000_000_000 + 999_999_999
                    && d <= 18_446_744_073_709_551_615 * 1_000_000_000 + 999_999_999 - self.accumulated_ns
            },
            None => true,
        };
        clock_ok && self.lyrics_idle_ticks < u32::MAX
    }
}

/// A five-second seek never leaves the track: forward it stops at the known
/// duration, back it stops at the start; and it moves by at most five seconds.
pub proof fn law_seek_stays_in_track(v: AppView, forward: bool)
    ensures
        match v.duration_ns {
            Some(d) => v.elapsed_ns <= d ==> seek_target(v, forward) <= d
                && (forward ==> seek_target(v, forward) >= v.elapsed_ns),
            None => forward ==> seek_target(v, forward) == v.elapsed_ns + 5 * NANOS_PER_SEC,
        },
        forward ==> seek_target(v, forward) <= v.elapsed_ns + 5 * NANOS_PER_SEC,
        !forward ==> seek_target(v, forward) <= v.elapsed_ns,
        !forward ==> seek_target(v, forward) + 5 * NANOS_PER_SEC >= v.elapsed_ns,
{
}

/// Stopping, pausing and quitting while a track plays each fade out first, and
/// once the fade is over the player is stopped, paused or gone: the fade's end
/// carries out what was asked.
pub proof fn law_fades_complete(v: AppView, now: u128, later: u128)
    requires
        v.status == PlayerStatus::Playing,
        now <= later,
        later - now >= 300_000_000,
    ensures
        stopped(v, now).1 == seq![CommandView::StartFade { fade_in: false }],
        pause_toggled(v, now).1 == seq![CommandView::StartFade { fade_in: false }],
        quit_requested(v, now).1 == seq![CommandView::StartFade { fade_in: false }],
        ({
            let (w, c) = fade_updated(stopped(v, now).0, later);
            &&& w.status == PlayerStatus::Stopped
            &&& w.elapsed_ns == 0
            &&& w.fade is None
            &&& c == seq![CommandView::EndFade, CommandView::PlayerStop]
        }),
        ({
            let (w, c) = fade_updated(pause_toggled(v, now).0, later);
            &&& w.status == PlayerStatus::Paused
            &&& w.play_start_ns is None
            &&& w.fade is None
            &&& c == seq![CommandView::EndFade, CommandView::PlayerPause]
        }),
        ({
            let (w, c) = fade_updated(quit_requested(v, now).0, later);
            &&& w.should_quit
            &&& w.fade is None
            &&& c == seq![CommandView::EndFade, CommandView::PlayerStop]
        }),
{
    assert(since(later, now) == later - now);
}

/// While a track plays, its playing time never passes its known duration.
pub proof fn law_elapsed_within_duration(v: AppView, now: u128)
    requires
        v.duration_ns matches Some(d) && v.elapsed_ns <= d,
    ensures
        elapsed_updated(v, now).duration_ns == v.duration_ns,
        elapsed_updated(v, now).elapsed_ns <= v.duration_ns->0,
{
}

/// For lyrics sorted by time, `first_after` finds where the lines later than `t` begin.
proof fn lemma_first_after(lyrics: Seq<LyricLine>, t: u128, i: int)
    requires
        sorted_strict(lyrics),
        0 <= i <= lyrics.len(),
    ensures
        i <= first_after(lyrics, t, i) <= lyrics.len(),
        forall|j: int| i <= j < first_after(lyrics, t, i) ==> (#[trigger] lyrics[j]).timestamp_ns <= t,
        first_after(lyrics, t, i) < lyrics.len() ==> lyrics[first_after(lyrics, t, i)].timestamp_ns > t,
    decreases lyrics.len() - i,
{
    if i < lyrics.len() && lyrics[i].timestamp_ns <= t {
        lemma_first_after(lyrics, t, i + 1);
    }
}

/// The current lyric line is the last one not later than the playing time: it is
/// due, and the line after it (if any) is not due yet; where no line is due yet,
/// there is none.
pub proof fn law_current_lyric(v: AppView)
    requires
        sorted_strict(v.lyrics),
        v.lyrics.len() > 0,
        v.lyrics.len() <= usize::MAX,
    ensures
        match lyric_index_updated(v).current_lyric_index {
            Some(i) => i < v.lyrics.len()
                && v.lyrics[i as int].timestamp_ns <= v.elapsed_ns
                && (i + 1 < v.lyrics.len() ==> v.lyrics[i + 1].timestamp_ns > v.elapsed_ns),
            None => v.lyrics[0].timestamp_ns > v.elapsed_ns,
        },
{
    lemma_first_after(v.lyrics, v.elapsed_ns, 0);
    let idx = first_after(v.lyrics, v.elapsed_ns, 0);
    if idx > 0 {
        assert(v.lyrics[idx - 1].timestamp_ns <= v.elapsed_ns);
    }
}

} // verus!
