//! The panels and their lists: which panels show, moving the focus and the
//! selections, editing the playlist, and what Enter does in each panel.
use vstd::prelude::*;
use crate::app::{App, AppView, Command, CommandView, Fade, FadeAction, Panel, commands_view};
use crate::track::PlayerStatus;
use crate::track::Track;
use crate::nav::{moved_row, move_fits, move_list, selected_as, ListSel};
use crate::playback::{no_commands, position_of, seeked_to, selected_played, stopped, vec_position};

verus! {

/// The panels on screen, left to right: the library (where shown), the playlist, the lyrics.
pub open spec fn panels_of(library_visible: bool) -> Seq<Panel> {
    if library_visible {
        seq![Panel::Library, Panel::Playlist, Panel::Lyrics]
    } else {
        seq![Panel::Playlist, Panel::Lyrics]
    }
}

/// The position of `p` among `ps`, or 0.
pub open spec fn panel_index(ps: Seq<Panel>, p: Panel) -> int {
    if ps.len() > 0 && ps[0] == p {
        0
    } else if ps.len() > 1 && ps[1] == p {
        1
    } else if ps.len() > 2 && ps[2] == p {
        2
    } else {
        0
    }
}

/// Tab: the focus moves to the next panel on screen, from the last to the first.
pub open spec fn focus_cycled(v: AppView) -> AppView {
    let ps = panels_of(v.library_visible);
    AppView { focus: ps[(panel_index(ps, v.focus) + 1) % (ps.len() as int)], ..v }
}

/// L: show or hide the library; showing it gives it the focus, hiding it moves
/// the focus it had to the playlist.
pub open spec fn library_toggled(v: AppView) -> AppView {
    if !v.library_visible {
        AppView { library_visible: true, focus: Panel::Library, ..v }
    } else if v.focus == Panel::Library {
        AppView { library_visible: false, focus: Panel::Playlist, ..v }
    } else {
        AppView { library_visible: false, ..v }
    }
}

/// A on the library: the selected track joins the end of the playlist unless it is in it.
pub open spec fn added_to_playlist(v: AppView) -> AppView {
    match v.library_state.selected {
        Some(i) => if i < v.library.len() && !v.playlist.contains(i) {
            AppView { playlist: v.playlist.push(i), ..v }
        } else {
            v
        },
        None => v,
    }
}

/// D on the playlist: the selected entry leaves it (stopping first where it is
/// the current track), and the selection stays within the list.
pub open spec fn removed_from_playlist(v: AppView, now: u128) -> (AppView, Seq<CommandView>) {
    match v.playlist_state.selected {
        None => (v, Seq::empty()),
        Some(p) => if p >= v.playlist.len() {
            (v, Seq::empty())
        } else {
            let (v1, c) = if v.current_index == Some(v.playlist[p as int]) { stopped(v, now) } else { (v, Seq::empty()) };
            (entry_dropped(v1, p), c)
        },
    }
}

/// The playlist without entry `p`, its selection kept within the list.
pub open spec fn entry_dropped(v: AppView, p: usize) -> AppView {
    let pl = v.playlist.remove(p as int);
    let st = if pl.len() == 0 {
        selected_as(v.playlist_state, None)
    } else if p >= pl.len() {
        selected_as(v.playlist_state, Some((pl.len() - 1) as usize))
    } else {
        v.playlist_state
    };
    AppView { playlist: pl, playlist_state: st, ..v }
}

/// A list of `len` rows after moving its selection by `delta` (see `moved_row`);
/// an empty list keeps its state.
pub open spec fn list_moved(s: ListSel, len: nat, delta: int) -> ListSel {
    if len == 0 { s } else { selected_as(s, Some(moved_row(s, len, delta) as usize)) }
}

/// Moving the lyrics selection by `delta` shown rows (where there are lyrics and
/// shown rows), which also restarts the wait before it follows the song again.
pub open spec fn lyrics_moved(v: AppView, delta: int) -> AppView {
    if v.lyrics.len() == 0 || v.lyric_line_map.len() == 0 {
        v
    } else {
        AppView {
            lyrics_state: list_moved(v.lyrics_state, v.lyric_line_map.len(), delta),
            lyrics_idle_ticks: 0,
            ..v
        }
    }
}

/// Up / down: move the selection of the focused panel.
pub open spec fn focus_moved(v: AppView, delta: int) -> AppView {
    match v.focus {
        Panel::Library => AppView { library_state: list_moved(v.library_state, v.library.len(), delta), ..v },
        Panel::Playlist => AppView { playlist_state: list_moved(v.playlist_state, v.playlist.len(), delta), ..v },
        Panel::Lyrics => lyrics_moved(v, delta),
    }
}

/// Whether moving the focused panel's selection by `delta` stays within a `usize`.
pub open spec fn focus_move_fits(v: AppView, delta: int) -> bool {
    match v.focus {
        Panel::Library => move_fits(v.library_state, delta),
        Panel::Playlist => move_fits(v.playlist_state, delta),
        Panel::Lyrics => move_fits(v.lyrics_state, delta),
    }
}

/// Enter: on the library, add the selected track to the playlist; on the
/// playlist, play the selected entry; on the lyrics, seek to the selected line's
/// time and make it the current line.
pub open spec fn enter_pressed(v: AppView, now: u128) -> (AppView, Seq<CommandView>) {
    match v.focus {
        Panel::Library => (added_to_playlist(v), Seq::empty()),
        Panel::Playlist => selected_played(v),
        Panel::Lyrics => match v.lyrics_state.selected {
            Some(row) => if row < v.lyric_line_map.len() && v.lyric_line_map[row as int] < v.lyrics.len() {
                let line = v.lyric_line_map[row as int];
                let (v1, c) = seeked_to(v, v.lyrics[line as int].timestamp_ns);
                (AppView { current_lyric_index: Some(line), ..v1 }, c)
            } else {
                (v, Seq::empty())
            },
            None => (v, Seq::empty()),
        },
    }
}

impl App {
    /// The library's list state, to change it in place.
    pub fn library_state_mut(&mut self) -> (r: &mut ListSel)
        ensures
            *r == old(self).library_state,
            final(self)@ == (AppView { library_state: *final(r), ..old(self)@ }),
    {
        &mut self.library_state
    }

    /// The playlist's list state, to change it in place.
    pub fn playlist_state_mut(&mut self) -> (r: &mut ListSel)
        ensures
            *r == old(self).playlist_state,
            final(self)@ == (AppView { playlist_state: *final(r), ..old(self)@ }),
    {
        &mut self.playlist_state
    }

    /// The lyrics' list state, to change it in place.
    pub fn lyrics_state_mut(&mut self) -> (r: &mut ListSel)
        ensures
            *r == old(self).lyrics_state,
            final(self)@ == (AppView { lyrics_state: *final(r), ..old(self)@ }),
    {
        &mut self.lyrics_state
    }

    /// The number of library tracks.
    pub fn library_count(&self) -> (n: usize)
        ensures
            n == self@.library.len(),
    {
        assert(crate::track::tracks_view(self.library@).len() == self.library@.len());
        self.library.len()
    }

    /// The number of playlist entries.
    pub fn playlist_count(&self) -> (n: usize)
        ensures
            n == self@.playlist.len(),
    {
        self.playlist.len()
    }

    /// The current track, where there is one in the library.
    pub fn current_track(&self) -> (res: Option<&Track>)
        ensures
            match res {
                Some(t) => self.current_index matches Some(i) && i < self.library@.len() && *t == self.library@[i as int],
                None => !(self.current_index matches Some(i) && i < self.library@.len()),
            },
    {
        match self.current_index {
            Some(i) => if i < self.library.len() { Some(&self.library[i]) } else { None },
            None => None,
        }
    }

    /// The first playlist position of the current track.
    pub fn current_playlist_position(&self) -> (res: Option<usize>)
        ensures
            res == (match self.current_index {
                Some(c) => match position_of(self@.playlist, c) {
                    Some(p) => Some(p as usize),
                    None => None,
                },
                None => None,
            }),
    {
        match self.current_index {
            Some(c) => vec_position(&self.playlist, c),
            None => None,
        }
    }

    /// The panels on screen (see `panels_of`).
    pub fn visible_panels(&self) -> (res: Vec<Panel>)
        ensures
            res@ == panels_of(self.library_visible),
    {
        let mut panels: Vec<Panel> = Vec::new();
        if self.library_visible {
            panels.push(Panel::Library);
        }
        panels.push(Panel::Playlist);
        panels.push(Panel::Lyrics);
        assert(panels@ =~= panels_of(self.library_visible));
        panels
    }

    /// Tab (see `focus_cycled`).
    pub fn cycle_focus(&mut self)
        ensures
            final(self)@ == focus_cycled(old(self)@),
    {
        let panels = self.visible_panels();
        let mut idx: usize = 0;
        let mut i: usize = 0;
        let mut found = false;
        while i < panels.len()
            invariant
                panels@ == panels_of(self.library_visible),
                i <= panels@.len(),
                found ==> idx == panel_index(panels@, self.focus),
                !found ==> idx == 0 && forall|j: int| 0 <= j < i ==> panels@[j] != self.focus,
            decreases panels@.len() - i,
        {
            if !found && panels[i] == self.focus {
                idx = i;
                found = true;
            }
            i = i + 1;
        }
        self.focus = panels[(idx + 1) % panels.len()];
    }

    /// L (see `library_toggled`).
    pub fn toggle_library(&mut self)
        ensures
            final(self)@ == library_toggled(old(self)@),
    {
        self.library_visible = !self.library_visible;
        if self.library_visible {
            self.focus = Panel::Library;
        } else if self.focus == Panel::Library {
            self.focus = Panel::Playlist;
        }
    }

    /// A on the library (see `added_to_playlist`).
    pub fn add_selected_to_playlist(&mut self)
        ensures
            final(self)@ == added_to_playlist(old(self)@),
    {
        assert(crate::track::tracks_view(self.library@).len() == self.library@.len());
        match self.library_state.selected() {
            Some(lib_idx) => {
                if lib_idx < self.library.len() {
                    proof { lemma_position_contains(self.playlist@, lib_idx); }
                    if vec_position(&self.playlist, lib_idx).is_none() {
                        self.playlist.push(lib_idx);
                    }
                }
            },
            None => {},
        }
    }

    /// D on the playlist (see `removed_from_playlist`).
    pub fn remove_from_playlist(&mut self, now: u128) -> (cmds: Vec<Command>)
        ensures
            (final(self)@, commands_view(cmds@)) == removed_from_playlist(old(self)@, now),
    {
        let pl_idx = match self.playlist_state.selected() {
            Some(i) => i,
            None => return no_commands(),
        };
        if pl_idx >= self.playlist.len() {
            return no_commands();
        }
        let lib_idx = self.playlist[pl_idx];
        let cmds = if self.current_index == Some(lib_idx) { self.stop(now) } else { no_commands() };
        self.drop_entry(pl_idx);
        cmds
    }

    /// Removes playlist entry `p` (see `entry_dropped`).
    fn drop_entry(&mut self, p: usize)
        requires
            p < old(self).playlist@.len(),
        ensures
            final(self)@ == entry_dropped(old(self)@, p),
    {
        self.playlist.remove(p);
        if self.playlist.len() == 0 {
            self.playlist_state.select(None);
        } else if p >= self.playlist.len() {
            self.playlist_state.select(Some(self.playlist.len() - 1));
        }
    }

    /// Moves the lyrics selection (see `lyrics_moved`).
    pub fn move_lyrics_selection(&mut self, delta: i32)
        requires
            move_fits(old(self).lyrics_state, delta as int),
        ensures
            final(self)@ == lyrics_moved(old(self)@, delta as int),
    {
        if self.lyrics.len() == 0 || self.lyric_line_map.len() == 0 {
            return;
        }
        move_list(&mut self.lyrics_state, self.lyric_line_map.len(), delta);
        self.lyrics_idle_ticks = 0;
    }

    /// Up / down (see `focus_moved`).
    pub fn move_focus_selection(&mut self, delta: i32)
        requires
            focus_move_fits(old(self)@, delta as int),
        ensures
            final(self)@ == focus_moved(old(self)@, delta as int),
    {
        match self.focus {
            Panel::Library => {
                assert(crate::track::tracks_view(self.library@).len() == self.library@.len());
                move_list(&mut self.library_state, self.library.len(), delta);
            },
            Panel::Playlist => move_list(&mut self.playlist_state, self.playlist.len(), delta),
            Panel::Lyrics => self.move_lyrics_selection(delta),
        }
    }

    /// Enter (see `enter_pressed`).
    pub fn handle_enter(&mut self, now: u128) -> (cmds: Vec<Command>)
        ensures
            (final(self)@, commands_view(cmds@)) == enter_pressed(old(self)@, now),
    {
        match self.focus {
            Panel::Library => {
                self.add_selected_to_playlist();
                no_commands()
            },
            Panel::Playlist => self.play_selected(),
            Panel::Lyrics => match self.lyrics_state.selected() {
                Some(row) => {
                    if row < self.lyric_line_map.len() && self.lyric_line_map[row] < self.lyrics.len() {
                        let line = self.lyric_line_map[row];
                        let t = self.lyrics[line].timestamp_ns;
                        let cmds = self.seek_to(t);
                        self.current_lyric_index = Some(line);
                        cmds
                    } else {
                        no_commands()
                    }
                },
                None => no_commands(),
            },
        }
    }
}

/// Tab visits every panel on screen in turn: as many presses as there are panels
/// bring the focus back to where it was, and each press before that moves it.
pub proof fn law_focus_cycle(v: AppView)
    requires
        panels_of(v.library_visible).contains(v.focus),
    ensures
        v.library_visible ==> focus_cycled(focus_cycled(focus_cycled(v))).focus == v.focus,
        !v.library_visible ==> focus_cycled(focus_cycled(v)).focus == v.focus,
        focus_cycled(v).focus != v.focus,
{
    let ps = panels_of(v.library_visible);
    let i = choose|i: int| 0 <= i < ps.len() && ps[i] == v.focus;
    assert(ps[i] == v.focus);
    let v1 = focus_cycled(v);
    let v2 = focus_cycled(v1);
    let v3 = focus_cycled(v2);
    if v.library_visible {
        assert(ps =~= seq![Panel::Library, Panel::Playlist, Panel::Lyrics]);
        assert((0int + 1) % 3 == 1 && (1int + 1) % 3 == 2 && (2int + 1) % 3 == 0) by (nonlinear_arith);
        match v.focus {
            Panel::Library => {
                assert(v1.focus == Panel::Playlist);
                assert(v2.focus == Panel::Lyrics);
            },
            Panel::Playlist => {
                assert(v1.focus == Panel::Lyrics);
                assert(v2.focus == Panel::Library);
            },
            Panel::Lyrics => {
                assert(v1.focus == Panel::Library);
                assert(v2.focus == Panel::Playlist);
            },
        }
    } else {
        assert(ps =~= seq![Panel::Playlist, Panel::Lyrics]);
        assert((0int + 1) % 2 == 1 && (1int + 1) % 2 == 0) by (nonlinear_arith);
        match v.focus {
            Panel::Playlist => {
                assert(v1.focus == Panel::Lyrics);
            },
            Panel::Lyrics => {
                assert(v1.focus == Panel::Playlist);
            },
            Panel::Library => {},
        }
    }
}

/// Adding the selected library track never puts a track into the playlist twice.
pub proof fn law_add_keeps_playlist_distinct(v: AppView)
    requires
        v.playlist.no_duplicates(),
    ensures
        added_to_playlist(v).playlist.no_duplicates(),
{
}

/// Removing a playlist entry keeps the playlist's selection on an entry (or on
/// none where the playlist is empty), given it was on one.
pub proof fn law_remove_keeps_selection(v: AppView, now: u128)
    requires
        v.playlist_state.selected matches Some(p) ==> p < v.playlist.len(),
    ensures
        ({
            let w = removed_from_playlist(v, now).0;
            w.playlist_state.selected matches Some(p) ==> p < w.playlist.len()
        }),
{
}

/// `x` has a first position in `s` exactly where `s` holds it, and that position holds `x`.
pub proof fn lemma_position_contains(s: Seq<usize>, x: usize)
    ensures
        (position_of(s, x) is Some) == s.contains(x),
        position_of(s, x) matches Some(i) ==> 0 <= i < s.len() && s[i] == x,
    decreases s.len(),
{
    if s.len() > 0 {
        lemma_position_contains(s.drop_last(), x);
        if s.contains(x) {
            let i = choose|i: int| 0 <= i < s.len() && s[i] == x;
            if i < s.len() - 1 {
                assert(s.drop_last()[i] == x);
            }
        }
        if s.drop_last().contains(x) {
            let i = choose|i: int| 0 <= i < s.drop_last().len() && s.drop_last()[i] == x;
            assert(s[i] == x);
        }
    }
}

/// D on the playlist drops the selected entry; where that entry is the current
/// track, playback stops first (a 200 ms fade out while playing or paused, else
/// at once); any other entry leaves playback alone.
pub proof fn law_remove_entry_stops_its_track(v: AppView, now: u128, p: usize)
    requires
        v.playlist_state.selected == Some(p),
        p < v.playlist.len(),
    ensures
        ({
            let (w, c) = removed_from_playlist(v, now);
            &&& w.playlist == v.playlist.remove(p as int)
            &&& (v.current_index == Some(v.playlist[p as int])
                && (v.status == PlayerStatus::Playing || v.status == PlayerStatus::Paused)) ==> {
                &&& c == seq![CommandView::StartFade { fade_in: false }]
                &&& w.fade == Some(Fade { action: FadeAction::Stop, fade_in: false, start_ns: now, duration_ns: 200_000_000 })
            }
            &&& (v.current_index == Some(v.playlist[p as int]) && v.status == PlayerStatus::Stopped) ==> {
                &&& c == seq![CommandView::PlayerStop]
                &&& w.status == PlayerStatus::Stopped
            }
            &&& v.current_index != Some(v.playlist[p as int]) ==> {
                &&& c.len() == 0
                &&& w.status == v.status
                &&& w.fade == v.fade
            }
        }),
{
}

} // verus!
