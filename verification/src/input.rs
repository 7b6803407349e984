//! Keys and mouse: what each key does in each mode (typing a path, the
//! settings page, the player), and what a click or a wheel turn selects.
use vstd::prelude::*;
use crate::app::{
    App, AppView, Command, CommandView, Fade, FadeAction, InputMode, InputModeView, Panel, PathPurpose,
    SettingsSection, commands_view, input_view,
};
use crate::nav::{move_fits, move_list, row_selected, select_at, ListSel, Position, Rect, rect_contains};
use crate::panels::{
    added_to_playlist, enter_pressed, focus_cycled, focus_move_fits, focus_moved, library_toggled,
    list_moved, lyrics_moved, removed_from_playlist,
};
use crate::playback::{
    next_index, prev_index, next_chosen, no_commands, one_command, pause_toggled, play_started, prev_chosen,
    quit_requested, seek_fits, seeked, seeked_to, stopped,
};
use crate::settings::{language_toggled, playlist_cycled, settings_item_removed, settings_toggled};
use crate::track::next_mode;
use crate::text::{chars_of, push_chars, string_push};

verus! {

broadcast use vstd::string::group_string_axioms;

/// A key, as the player reads it.
#[derive(Clone, Copy, Debug, PartialEq, Eq, Structural)]
pub enum KeyCode {
    Char(char),
    Enter,
    Esc,
    Tab,
    Backspace,
    Delete,
    Left,
    Right,
    Up,
    Down,
    Home,
    End,
    F(u8),
    Other,
}

/// A key event: the key, whether Control was held, and whether it is a release.
#[derive(Clone, Copy, Debug, PartialEq, Eq, Structural)]
pub struct KeyInput {
    pub code: KeyCode,
    pub ctrl: bool,
    pub release: bool,
}

/// What the mouse did.
#[derive(Clone, Copy, Debug, PartialEq, Eq, Structural)]
pub enum MouseKind {
    LeftDown,
    LeftDrag,
    ScrollUp,
    ScrollDown,
    Other,
}

/// A mouse event at a terminal cell.
#[derive(Clone, Copy, Debug, PartialEq, Eq, Structural)]
pub struct MouseInput {
    pub kind: MouseKind,
    pub column: u16,
    pub row: u16,
}

// ───────────────────────── typing a path ─────────────────────────

/// The input mode while typing `buffer` with the cursor before character `cursor`.
pub open spec fn typing(buffer: Seq<char>, cursor: usize, purpose: PathPurpose) -> InputModeView {
    InputModeView::EnteringPath { buffer, cursor, purpose }
}

/// A key while a path is being typed: Esc cancels; Enter hands the path on for its
/// purpose; a character is inserted at the cursor; Backspace and Delete remove the
/// character before or at the cursor; the arrows, Home and End move the cursor by
/// characters.  The cursor counts characters, so any text can be typed; a cursor
/// past the end of the text (which no key puts there) edits nothing.  Anything
/// else changes nothing.
pub open spec fn path_key(buffer: Seq<char>, cursor: usize, purpose: PathPurpose, code: KeyCode) -> (InputModeView, Seq<CommandView>) {
    let stay = typing(buffer, cursor, purpose);
    match code {
        KeyCode::Esc => (InputModeView::Normal, Seq::empty()),
        KeyCode::Enter => (
            InputModeView::Normal,
            seq![match purpose {
                PathPurpose::AddMusicFolder => CommandView::AddMusicFolder { path: buffer },
                PathPurpose::ImportXspf => CommandView::ImportXspf { path: buffer },
            }],
        ),
        KeyCode::Char(c) => if cursor <= buffer.len() {
            (typing(buffer.insert(cursor as int, c), (cursor + 1) as usize, purpose), Seq::empty())
        } else {
            (stay, Seq::empty())
        },
        KeyCode::Backspace => if 0 < cursor <= buffer.len() {
            (typing(buffer.remove(cursor - 1), (cursor - 1) as usize, purpose), Seq::empty())
        } else {
            (stay, Seq::empty())
        },
        KeyCode::Delete => if cursor < buffer.len() {
            (typing(buffer.remove(cursor as int), cursor, purpose), Seq::empty())
        } else {
            (stay, Seq::empty())
        },
        KeyCode::Left => if cursor > 0 { (typing(buffer, (cursor - 1) as usize, purpose), Seq::empty()) } else { (stay, Seq::empty()) },
        KeyCode::Right => if cursor < buffer.len() { (typing(buffer, (cursor + 1) as usize, purpose), Seq::empty()) } else { (stay, Seq::empty()) },
        KeyCode::Home => (typing(buffer, 0, purpose), Seq::empty()),
        KeyCode::End => (typing(buffer, buffer.len() as usize, purpose), Seq::empty()),
        _ => (stay, Seq::empty()),
    }
}

/// Whether a key while typing a path can be handled: the text's length in
/// characters fits below `usize::MAX` (so the cursor can move past its end).
pub open spec fn path_key_safe(buffer: Seq<char>, cursor: usize, code: KeyCode) -> bool {
    buffer.len() < usize::MAX
}

/// Typing a character and then pressing Backspace gives back the text and the
/// cursor one started from.
pub proof fn law_type_then_backspace(buffer: Seq<char>, cursor: usize, purpose: PathPurpose, c: char)
    requires
        path_key_safe(buffer, cursor, KeyCode::Char(c)),
    ensures
        ({
            let (m, cmds) = path_key(buffer, cursor, purpose, KeyCode::Char(c));
            &&& cmds.len() == 0
            &&& m matches InputModeView::EnteringPath { buffer: b2, cursor: c2, purpose: p2 }
                && path_key(b2, c2, p2, KeyCode::Backspace) == (typing(buffer, cursor, purpose), Seq::<CommandView>::empty())
        }),
{
    if cursor <= buffer.len() {
        assert(buffer.insert(cursor as int, c).remove(cursor as int) =~= buffer);
    }
}

/// `buffer` without the character at position `k`.
fn chars_without(cs: &Vec<char>, k: usize) -> (res: String)
    requires
        k < cs@.len(),
    ensures
        res@ == cs@.remove(k as int),
{
    let n = cs.len();
    let mut s = String::new();
    push_chars(&mut s, cs, 0, k);
    push_chars(&mut s, cs, k + 1, n);
    assert(s@ =~= cs@.remove(k as int));
    s
}

/// `buffer` with `c` inserted at position `k`.
fn chars_with(cs: &Vec<char>, k: usize, c: char) -> (res: String)
    requires
        k <= cs@.len(),
    ensures
        res@ == cs@.insert(k as int, c),
{
    let mut s = String::new();
    push_chars(&mut s, cs, 0, k);
    string_push(&mut s, c);
    push_chars(&mut s, cs, k, cs.len());
    assert(s@ =~= cs@.insert(k as int, c));
    s
}

/// A key while typing a path (see `path_key`).
pub fn edit_path(buffer: &String, cursor: usize, purpose: PathPurpose, code: KeyCode) -> (res: (InputMode, Vec<Command>))
    requires
        path_key_safe(buffer@, cursor, code),
    ensures
        (input_view(res.0), commands_view(res.1@)) == path_key(buffer@, cursor, purpose, code),
{
    let cs = chars_of(buffer.as_str());
    let n = cs.len();
    let stay = InputMode::EnteringPath { buffer: buffer.clone(), cursor, purpose };
    match code {
        KeyCode::Esc => (InputMode::Normal, no_commands()),
        KeyCode::Enter => {
            let cmd = match purpose {
                PathPurpose::AddMusicFolder => Command::AddMusicFolder { path: buffer.clone() },
                PathPurpose::ImportXspf => Command::ImportXspf { path: buffer.clone() },
            };
            (InputMode::Normal, one_command(cmd))
        },
        KeyCode::Char(c) => {
            if cursor <= n {
                let b = chars_with(&cs, cursor, c);
                (InputMode::EnteringPath { buffer: b, cursor: cursor + 1, purpose }, no_commands())
            } else {
                (stay, no_commands())
            }
        },
        KeyCode::Backspace => {
            if 0 < cursor && cursor <= n {
                let b = chars_without(&cs, cursor - 1);
                (InputMode::EnteringPath { buffer: b, cursor: cursor - 1, purpose }, no_commands())
            } else {
                (stay, no_commands())
            }
        },
        KeyCode::Delete => {
            if cursor < n {
                let b = chars_without(&cs, cursor);
                (InputMode::EnteringPath { buffer: b, cursor, purpose }, no_commands())
            } else {
                (stay, no_commands())
            }
        },
        KeyCode::Left => {
            if cursor > 0 {
                (InputMode::EnteringPath { buffer: buffer.clone(), cursor: cursor - 1, purpose }, no_commands())
            } else {
                (stay, no_commands())
            }
        },
        KeyCode::Right => {
            if cursor < n {
                (InputMode::EnteringPath { buffer: buffer.clone(), cursor: cursor + 1, purpose }, no_commands())
            } else {
                (stay, no_commands())
            }
        },
        KeyCode::Home => (InputMode::EnteringPath { buffer: buffer.clone(), cursor: 0, purpose }, no_commands()),
        KeyCode::End => (InputMode::EnteringPath { buffer: buffer.clone(), cursor: n, purpose }, no_commands()),
        _ => (stay, no_commands()),
    }
}

// ───────────────────────── the settings page ─────────────────────────

/// The other list of the settings page.
pub open spec fn other_section(s: SettingsSection) -> SettingsSection {
    match s {
        SettingsSection::Folders => SettingsSection::Playlists,
        SettingsSection::Playlists => SettingsSection::Folders,
    }
}

/// Moving the selection of the settings list in use by `delta`.
pub open spec fn section_moved(v: AppView, delta: int) -> AppView {
    match v.settings_section {
        SettingsSection::Folders => AppView {
            settings_folder_state: list_moved(v.settings_folder_state, v.config.music_folders.len(), delta),
            ..v
        },
        SettingsSection::Playlists => AppView {
            settings_xspf_state: list_moved(v.settings_xspf_state, v.config.xspf_playlists.len(), delta),
            ..v
        },
    }
}

/// Whether moving the settings list in use by `delta` stays within a `usize`.
pub open spec fn section_move_fits(v: AppView, delta: int) -> bool {
    match v.settings_section {
        SettingsSection::Folders => move_fits(v.settings_folder_state, delta),
        SettingsSection::Playlists => move_fits(v.settings_xspf_state, delta),
    }
}

/// Starting to type a path for `purpose`.
pub open spec fn typing_started(v: AppView, purpose: PathPurpose) -> AppView {
    AppView { input_mode: typing(Seq::empty(), 0, purpose), ..v }
}

/// A key on the settings page: Esc or F2 close it; Q quits; Tab switches lists;
/// up / down (or K / J) move in the list; A and I start typing a folder or a
/// playlist file to add; D removes the selected entry; L switches the language;
/// Enter rescans everything.
pub open spec fn settings_key(v: AppView, code: KeyCode, now: u128) -> (AppView, Seq<CommandView>) {
    if code == KeyCode::Esc || code == KeyCode::F(2) {
        (settings_toggled(v), Seq::empty())
    } else if code == KeyCode::Char('q') {
        quit_requested(v, now)
    } else if code == KeyCode::Tab {
        (AppView { settings_section: other_section(v.settings_section), ..v }, Seq::empty())
    } else if code == KeyCode::Up || code == KeyCode::Char('k') {
        (section_moved(v, -1), Seq::empty())
    } else if code == KeyCode::Down || code == KeyCode::Char('j') {
        (section_moved(v, 1), Seq::empty())
    } else if code == KeyCode::Char('a') {
        (typing_started(v, PathPurpose::AddMusicFolder), Seq::empty())
    } else if code == KeyCode::Char('i') {
        (typing_started(v, PathPurpose::ImportXspf), Seq::empty())
    } else if code == KeyCode::Char('d') {
        settings_item_removed(v)
    } else if code == KeyCode::Char('l') {
        language_toggled(v)
    } else if code == KeyCode::Enter {
        (v, seq![CommandView::Rescan])
    } else {
        (v, Seq::empty())
    }
}

/// A key in the player: Q or Esc quit; Tab moves the focus; F2 opens the
/// settings; L shows or hides the library; A adds the selected library track to
/// the playlist; Enter acts on the focused panel; Space pauses or resumes; N and P
/// go to the next and previous track; S stops; M changes the play mode; + = and -
/// change the volume; D removes the selected playlist entry; W switches the named
/// playlist; up / down (or K / J) move the selection; left / right seek five
/// seconds, or on the lyrics move five rows.
pub open spec fn player_key(v: AppView, code: KeyCode, now: u128) -> (AppView, Seq<CommandView>) {
    if code == KeyCode::Char('q') || code == KeyCode::Esc {
        quit_requested(v, now)
    } else if code == KeyCode::Tab {
        (focus_cycled(v), Seq::empty())
    } else if code == KeyCode::F(2) {
        (settings_toggled(v), Seq::empty())
    } else if code == KeyCode::Char('l') {
        (library_toggled(v), Seq::empty())
    } else if code == KeyCode::Char('a') && v.focus == Panel::Library {
        (added_to_playlist(v), Seq::empty())
    } else if code == KeyCode::Enter {
        enter_pressed(v, now)
    } else if code == KeyCode::Char(' ') {
        pause_toggled(v, now)
    } else if code == KeyCode::Char('n') {
        next_chosen(v, now)
    } else if code == KeyCode::Char('p') {
        prev_chosen(v, now)
    } else if code == KeyCode::Char('s') {
        stopped(v, now)
    } else if code == KeyCode::Char('m') {
        (AppView { play_mode: next_mode(v.play_mode), ..v }, Seq::empty())
    } else if code == KeyCode::Char('+') || code == KeyCode::Char('=') {
        (v, seq![CommandView::VolumeUp])
    } else if code == KeyCode::Char('-') {
        (v, seq![CommandView::VolumeDown])
    } else if code == KeyCode::Char('d') && v.focus == Panel::Playlist {
        removed_from_playlist(v, now)
    } else if code == KeyCode::Char('w') {
        playlist_cycled(v, now)
    } else if code == KeyCode::Up || code == KeyCode::Char('k') {
        (focus_moved(v, -1), Seq::empty())
    } else if code == KeyCode::Down || code == KeyCode::Char('j') {
        (focus_moved(v, 1), Seq::empty())
    } else if code == KeyCode::Left {
        if v.focus == Panel::Lyrics { (lyrics_moved(v, -5), Seq::empty()) } else { seeked(v, false) }
    } else if code == KeyCode::Right {
        if v.focus == Panel::Lyrics { (lyrics_moved(v, 5), Seq::empty()) } else { seeked(v, true) }
    } else {
        (v, Seq::empty())
    }
}

/// What a key does: a release nothing; while typing a path, see `path_key`;
/// with Control, Ctrl+C quits and nothing else acts; then the settings page or
/// the player (see `settings_key`, `player_key`).
pub open spec fn key_handled(v: AppView, key: KeyInput, now: u128) -> (AppView, Seq<CommandView>) {
    if key.release {
        (v, Seq::empty())
    } else {
        match v.input_mode {
            InputModeView::EnteringPath { buffer, cursor, purpose } => {
                let (m, c) = path_key(buffer, cursor, purpose, key.code);
                (AppView { input_mode: m, ..v }, c)
            },
            InputModeView::Normal => if key.ctrl {
                if key.code == KeyCode::Char('c') { quit_requested(v, now) } else { (v, Seq::empty()) }
            } else if v.show_settings {
                settings_key(v, key.code, now)
            } else {
                player_key(v, key.code, now)
            },
        }
    }
}

/// Whether a key can be handled without a fault: see `path_key_safe` while
/// typing; moving down keeps the selection within a `usize`; seeking forward
/// stays within the longest duration; switching playlists after one at
/// `usize::MAX` is left out.
pub open spec fn key_safe(v: AppView, key: KeyInput) -> bool {
    !key.release ==> match v.input_mode {
        InputModeView::EnteringPath { buffer, cursor, purpose } => path_key_safe(buffer, cursor, key.code),
        InputModeView::Normal => !key.ctrl ==> if v.show_settings {
            (key.code == KeyCode::Down || key.code == KeyCode::Char('j')) ==> section_move_fits(v, 1)
        } else {
            &&& (key.code == KeyCode::Down || key.code == KeyCode::Char('j')) ==> focus_move_fits(v, 1)
            &&& key.code == KeyCode::Right ==> if v.focus == Panel::Lyrics { move_fits(v.lyrics_state, 5) } else { seek_fits(v) }
            &&& key.code == KeyCode::Char('w') ==> v.active_playlist_idx != Some(usize::MAX)
        },
    }
}

impl App {
    /// A key on the settings page (see `settings_key`).
    fn settings_key(&mut self, code: KeyCode, now: u128) -> (cmds: Vec<Command>)
        requires
            (code == KeyCode::Down || code == KeyCode::Char('j')) ==> section_move_fits(old(self)@, 1),
        ensures
            (final(self)@, commands_view(cmds@)) == settings_key(old(self)@, code, now),
    {
        if code == KeyCode::Esc || code == KeyCode::F(2) {
            self.toggle_settings();
            no_commands()
        } else if code == KeyCode::Char('q') {
            self.request_quit(now)
        } else if code == KeyCode::Tab {
            self.settings_section = match self.settings_section {
                SettingsSection::Folders => SettingsSection::Playlists,
                SettingsSection::Playlists => SettingsSection::Folders,
            };
            no_commands()
        } else if code == KeyCode::Up || code == KeyCode::Char('k') || code == KeyCode::Down || code == KeyCode::Char('j') {
            let delta: i32 = if code == KeyCode::Up || code == KeyCode::Char('k') { -1 } else { 1 };
            match self.settings_section {
                SettingsSection::Folders => move_list(&mut self.settings_folder_state, self.config.music_folders.len(), delta),
                SettingsSection::Playlists => move_list(&mut self.settings_xspf_state, self.config.xspf_playlists.len(), delta),
            }
            no_commands()
        } else if code == KeyCode::Char('a') || code == KeyCode::Char('i') {
            let purpose = if code == KeyCode::Char('a') { PathPurpose::AddMusicFolder } else { PathPurpose::ImportXspf };
            self.input_mode = InputMode::EnteringPath { buffer: String::new(), cursor: 0, purpose };
            no_commands()
        } else if code == KeyCode::Char('d') {
            self.remove_settings_item()
        } else if code == KeyCode::Char('l') {
            self.toggle_language()
        } else if code == KeyCode::Enter {
            one_command(Command::Rescan)
        } else {
            no_commands()
        }
    }

    /// A key in the player (see `player_key`).
    fn player_key(&mut self, code: KeyCode, now: u128) -> (cmds: Vec<Command>)
        requires
            (code == KeyCode::Down || code == KeyCode::Char('j')) ==> focus_move_fits(old(self)@, 1),
            code == KeyCode::Right ==> if old(self).focus == Panel::Lyrics { move_fits(old(self).lyrics_state, 5) } else { seek_fits(old(self)@) },
            code == KeyCode::Char('w') ==> old(self).active_playlist_idx != Some(usize::MAX),
        ensures
            (final(self)@, commands_view(cmds@)) == player_key(old(self)@, code, now),
    {
        if code == KeyCode::Char('q') || code == KeyCode::Esc {
            self.request_quit(now)
        } else if code == KeyCode::Tab {
            self.cycle_focus();
            no_commands()
        } else if code == KeyCode::F(2) {
            self.toggle_settings();
            no_commands()
        } else if code == KeyCode::Char('l') {
            self.toggle_library();
            no_commands()
        } else if code == KeyCode::Char('a') && self.focus == Panel::Library {
            self.add_selected_to_playlist();
            no_commands()
        } else if code == KeyCode::Enter {
            self.handle_enter(now)
        } else if code == KeyCode::Char(' ') {
            self.toggle_pause(now)
        } else if code == KeyCode::Char('n') {
            self.next_track(now)
        } else if code == KeyCode::Char('p') {
            self.prev_track(now)
        } else if code == KeyCode::Char('s') {
            self.stop(now)
        } else if code == KeyCode::Char('m') {
            self.toggle_play_mode();
            no_commands()
        } else if code == KeyCode::Char('+') || code == KeyCode::Char('=') {
            self.volume_up()
        } else if code == KeyCode::Char('-') {
            self.volume_down()
        } else if code == KeyCode::Char('d') && self.focus == Panel::Playlist {
            self.remove_from_playlist(now)
        } else if code == KeyCode::Char('w') {
            self.cycle_playlist(now)
        } else if code == KeyCode::Up || code == KeyCode::Char('k') {
            self.move_focus_selection(-1);
            no_commands()
        } else if code == KeyCode::Down || code == KeyCode::Char('j') {
            self.move_focus_selection(1);
            no_commands()
        } else if code == KeyCode::Left {
            if self.focus == Panel::Lyrics {
                self.move_lyrics_selection(-5);
                no_commands()
            } else {
                self.seek(false)
            }
        } else if code == KeyCode::Right {
            if self.focus == Panel::Lyrics {
                self.move_lyrics_selection(5);
                no_commands()
            } else {
                self.seek(true)
            }
        } else {
            no_commands()
        }
    }

    /// Handles a key at time `now` (see `key_handled`); the commands are the
    /// outside work it asks for, in order.
    pub fn handle_key(&mut self, key: KeyInput, now: u128) -> (cmds: Vec<Command>)
        requires
            key_safe(old(self)@, key),
        ensures
            (final(self)@, commands_view(cmds@)) == key_handled(old(self)@, key, now),
    {
        if key.release {
            return no_commands();
        }
        match &self.input_mode {
            InputMode::EnteringPath { buffer, cursor, purpose } => {
                let (m, c) = edit_path(buffer, *cursor, *purpose, key.code);
                self.input_mode = m;
                return c;
            },
            InputMode::Normal => {},
        }
        if key.ctrl {
            if key.code == KeyCode::Char('c') {
                return self.request_quit(now);
            }
            return no_commands();
        }
        if self.show_settings {
            self.settings_key(key.code, now)
        } else {
            self.player_key(key.code, now)
        }
    }
}

// ───────────────────────── the mouse ─────────────────────────

/// The empty rectangle at the origin: an area not drawn yet.
pub open spec fn no_area() -> Rect {
    Rect { x: 0, y: 0, width: 0, height: 0 }
}

/// The point `dx / w` of the way through a duration of `d` nanoseconds, rounded down.
pub open spec fn point_at(d: u128, dx: nat, w: nat) -> u128 {
    ((d * dx) / (w as int)) as u128
}

/// A click on the progress bar seeks to the point under the mouse (where the
/// duration is known); a click on the volume bar sets the volume to the share of
/// the bar left of the mouse.
pub open spec fn bar_clicked(v: AppView, pos: Position) -> (AppView, Seq<CommandView>) {
    if v.progress_area != no_area() && rect_contains(v.progress_area, pos) {
        match v.duration_ns {
            Some(d) => seeked_to(v, point_at(d, (pos.x - v.progress_area.x) as nat, v.progress_area.width as nat)),
            None => (v, Seq::empty()),
        }
    } else if v.volume_area != no_area() && rect_contains(v.volume_area, pos) {
        (v, seq![CommandView::SetVolumeFraction {
            num: (pos.x - v.volume_area.x) as u16,
            den: v.volume_area.width,
        }])
    } else {
        (v, Seq::empty())
    }
}

/// A left click (or drag) at `pos`: on the settings page it selects the row of a
/// list and makes that list the one in use, then acts on the bars; else a click
/// on a panel focuses it and selects the row there (on the playlist, also playing
/// it; on the lyrics, also restarting the wait before they follow the song); else
/// it acts on the bars.
pub open spec fn clicked(v: AppView, pos: Position) -> (AppView, Seq<CommandView>) {
    if v.show_settings {
        let v1 = if rect_contains(v.settings_folder_inner, pos) {
            AppView {
                settings_section: SettingsSection::Folders,
                settings_folder_state: row_selected(v.settings_folder_state, v.settings_folder_inner, pos.y, v.config.music_folders.len()),
                ..v
            }
        } else if rect_contains(v.settings_xspf_inner, pos) {
            AppView {
                settings_section: SettingsSection::Playlists,
                settings_xspf_state: row_selected(v.settings_xspf_state, v.settings_xspf_inner, pos.y, v.config.xspf_playlists.len()),
                ..v
            }
        } else {
            v
        };
        bar_clicked(v1, pos)
    } else if v.library_visible && rect_contains(v.library_inner, pos) {
        (AppView {
            focus: Panel::Library,
            library_state: row_selected(v.library_state, v.library_inner, pos.y, v.library.len()),
            ..v
        }, Seq::empty())
    } else if rect_contains(v.playlist_inner, pos) {
        let v1 = AppView {
            focus: Panel::Playlist,
            playlist_state: row_selected(v.playlist_state, v.playlist_inner, pos.y, v.playlist.len()),
            ..v
        };
        match v1.playlist_state.selected {
            Some(p) => if p < v1.playlist.len() { play_started(v1, v1.playlist[p as int], false) } else { (v1, Seq::empty()) },
            None => (v1, Seq::empty()),
        }
    } else if rect_contains(v.lyrics_inner, pos) {
        let rows: nat = if v.lyric_line_map.len() > 1 { v.lyric_line_map.len() } else { 1 };
        (AppView {
            focus: Panel::Lyrics,
            lyrics_state: row_selected(v.lyrics_state, v.lyrics_inner, pos.y, rows),
            lyrics_idle_ticks: 0,
            ..v
        }, Seq::empty())
    } else {
        bar_clicked(v, pos)
    }
}

/// The wheel at `pos` moves the list under it by `delta` rows: on the settings
/// page a list of it (making it the one in use), else a panel (focusing it).
pub open spec fn scrolled(v: AppView, pos: Position, delta: int) -> AppView {
    if v.show_settings {
        if rect_contains(v.settings_folder_inner, pos) {
            AppView {
                settings_section: SettingsSection::Folders,
                settings_folder_state: list_moved(v.settings_folder_state, v.config.music_folders.len(), delta),
                ..v
            }
        } else if rect_contains(v.settings_xspf_inner, pos) {
            AppView {
                settings_section: SettingsSection::Playlists,
                settings_xspf_state: list_moved(v.settings_xspf_state, v.config.xspf_playlists.len(), delta),
                ..v
            }
        } else {
            v
        }
    } else if v.library_visible && rect_contains(v.library_inner, pos) {
        AppView { focus: Panel::Library, library_state: list_moved(v.library_state, v.library.len(), delta), ..v }
    } else if rect_contains(v.playlist_inner, pos) {
        AppView { focus: Panel::Playlist, playlist_state: list_moved(v.playlist_state, v.playlist.len(), delta), ..v }
    } else if rect_contains(v.lyrics_inner, pos) {
        lyrics_moved(AppView { focus: Panel::Lyrics, ..v }, delta)
    } else {
        v
    }
}

/// What a mouse event does: a left press or drag clicks, the wheel scrolls three rows.
pub open spec fn mouse_handled(v: AppView, m: MouseInput) -> (AppView, Seq<CommandView>) {
    let pos = Position { x: m.column, y: m.row };
    match m.kind {
        MouseKind::LeftDown | MouseKind::LeftDrag => clicked(v, pos),
        MouseKind::ScrollUp => (scrolled(v, pos, -3), Seq::empty()),
        MouseKind::ScrollDown => (scrolled(v, pos, 3), Seq::empty()),
        MouseKind::Other => (v, Seq::empty()),
    }
}

/// Whether scrolling down three rows at `pos` keeps the list's selection within a `usize`.
pub open spec fn scroll_fits(v: AppView, pos: Position) -> bool {
    if v.show_settings {
        if rect_contains(v.settings_folder_inner, pos) {
            move_fits(v.settings_folder_state, 3)
        } else if rect_contains(v.settings_xspf_inner, pos) {
            move_fits(v.settings_xspf_state, 3)
        } else {
            true
        }
    } else if v.library_visible && rect_contains(v.library_inner, pos) {
        move_fits(v.library_state, 3)
    } else if rect_contains(v.playlist_inner, pos) {
        move_fits(v.playlist_state, 3)
    } else if rect_contains(v.lyrics_inner, pos) {
        move_fits(v.lyrics_state, 3)
    } else {
        true
    }
}

/// Whether a mouse event can be handled without a fault (see `scroll_fits`).
pub open spec fn mouse_safe(v: AppView, m: MouseInput) -> bool {
    m.kind == MouseKind::ScrollDown ==> scroll_fits(v, Position { x: m.column, y: m.row })
}

/// `floor(d * dx / w)` is `d / w` whole parts of `dx` and the share of the rest.
proof fn lemma_point_at(d: int, dx: int, w: int)
    requires
        w > 0,
        d >= 0,
        0 <= dx < w,
    ensures
        (d * dx) / w == (d / w) * dx + ((d % w) * dx) / w,
        (d / w) * dx <= d,
        (d * dx) / w <= d,
        (d % w) * dx < w * w,
{
    let q = d / w;
    let r = d % w;
    vstd::arithmetic::div_mod::lemma_fundamental_div_mod(d, w);
    assert(0 <= r < w);
    assert(d * dx == r * dx + (q * dx) * w) by (nonlinear_arith)
        requires
            d == w * q + r,
    ;
    vstd::arithmetic::div_mod::lemma_hoist_over_denominator(r * dx, q * dx, w as nat);
    assert(q >= 0) by (nonlinear_arith)
        requires
            d >= 0,
            w > 0,
            q == d / w,
    ;
    assert(q * dx <= q * w) by (nonlinear_arith)
        requires
            q >= 0,
            dx < w,
    ;
    assert(r * dx < w * w) by (nonlinear_arith)
        requires
            0 <= r < w,
            0 <= dx < w,
    ;
    assert((d * dx) / w <= d) by (nonlinear_arith)
        requires
            w > 0,
            0 <= dx < w,
            d >= 0,
    ;
}

/// `point_at(d, dx, w)`, without overflow.
fn point_at_exec(d: u128, dx: u16, w: u16) -> (res: u128)
    requires
        dx < w,
    ensures
        res == point_at(d, dx as nat, w as nat),
{
    proof { lemma_point_at(d as int, dx as int, w as int); }
    let q = d / (w as u128);
    let r = d % (w as u128);
    assert((w as int) * (w as int) <= 0xFFFF * 0xFFFF) by (nonlinear_arith)
        requires
            0 <= w <= 0xFFFF,
    ;
    q * (dx as u128) + (r * (dx as u128)) / (w as u128)
}

impl App {
    /// A click on the bars (see `bar_clicked`).
    fn handle_bar_clicks(&mut self, pos: Position) -> (cmds: Vec<Command>)
        ensures
            (final(self)@, commands_view(cmds@)) == bar_clicked(old(self)@, pos),
    {
        if !self.progress_area.is_zero() && self.progress_area.contains(pos) {
            let dx = pos.x - self.progress_area.x;
            match self.duration_ns {
                Some(d) => {
                    let t = point_at_exec(d, dx, self.progress_area.width);
                    self.seek_to(t)
                },
                None => no_commands(),
            }
        } else if !self.volume_area.is_zero() && self.volume_area.contains(pos) {
            one_command(Command::SetVolumeFraction { num: pos.x - self.volume_area.x, den: self.volume_area.width })
        } else {
            no_commands()
        }
    }

    /// A left click at `pos` (see `clicked`).
    fn handle_click(&mut self, pos: Position) -> (cmds: Vec<Command>)
        ensures
            (final(self)@, commands_view(cmds@)) == clicked(old(self)@, pos),
    {
        if self.show_settings {
            if self.settings_folder_inner.contains(pos) {
                self.settings_section = SettingsSection::Folders;
                let area = self.settings_folder_inner;
                select_at(&mut self.settings_folder_state, &area, pos.y, self.config.music_folders.len());
            } else if self.settings_xspf_inner.contains(pos) {
                self.settings_section = SettingsSection::Playlists;
                let area = self.settings_xspf_inner;
                select_at(&mut self.settings_xspf_state, &area, pos.y, self.config.xspf_playlists.len());
            }
            return self.handle_bar_clicks(pos);
        }
        if self.library_visible && self.library_inner.contains(pos) {
            self.focus = Panel::Library;
            let area = self.library_inner;
            assert(crate::track::tracks_view(self.library@).len() == self.library@.len());
            select_at(&mut self.library_state, &area, pos.y, self.library.len());
            return no_commands();
        }
        if self.playlist_inner.contains(pos) {
            self.focus = Panel::Playlist;
            let area = self.playlist_inner;
            select_at(&mut self.playlist_state, &area, pos.y, self.playlist.len());
            match self.playlist_state.selected() {
                Some(p) => {
                    if p < self.playlist.len() {
                        let idx = self.playlist[p];
                        return self.play_track(idx);
                    }
                },
                None => {},
            }
            return no_commands();
        }
        if self.lyrics_inner.contains(pos) {
            self.focus = Panel::Lyrics;
            let rows: usize = if self.lyric_line_map.len() > 1 { self.lyric_line_map.len() } else { 1 };
            let area = self.lyrics_inner;
            select_at(&mut self.lyrics_state, &area, pos.y, rows);
            self.lyrics_idle_ticks = 0;
            return no_commands();
        }
        self.handle_bar_clicks(pos)
    }

    /// The wheel at `pos` (see `scrolled`).
    fn handle_scroll(&mut self, pos: Position, delta: i32)
        requires
            delta > 0 ==> scroll_fits(old(self)@, pos),
            delta == 3 || delta == -3,
        ensures
            final(self)@ == scrolled(old(self)@, pos, delta as int),
    {
        if self.show_settings {
            if self.settings_folder_inner.contains(pos) {
                self.settings_section = SettingsSection::Folders;
                move_list(&mut self.settings_folder_state, self.config.music_folders.len(), delta);
            } else if self.settings_xspf_inner.contains(pos) {
                self.settings_section = SettingsSection::Playlists;
                move_list(&mut self.settings_xspf_state, self.config.xspf_playlists.len(), delta);
            }
            return;
        }
        if self.library_visible && self.library_inner.contains(pos) {
            self.focus = Panel::Library;
            assert(crate::track::tracks_view(self.library@).len() == self.library@.len());
            move_list(&mut self.library_state, self.library.len(), delta);
        } else if self.playlist_inner.contains(pos) {
            self.focus = Panel::Playlist;
            move_list(&mut self.playlist_state, self.playlist.len(), delta);
        } else if self.lyrics_inner.contains(pos) {
            self.focus = Panel::Lyrics;
            self.move_lyrics_selection(delta);
        }
    }

    /// Handles a mouse event (see `mouse_handled`); the commands are the outside
    /// work it asks for, in order.
    pub fn handle_mouse(&mut self, mouse: MouseInput) -> (cmds: Vec<Command>)
        requires
            mouse_safe(old(self)@, mouse),
        ensures
            (final(self)@, commands_view(cmds@)) == mouse_handled(old(self)@, mouse),
    {
        let pos = Position { x: mouse.column, y: mouse.row };
        match mouse.kind {
            MouseKind::LeftDown | MouseKind::LeftDrag => self.handle_click(pos),
            MouseKind::ScrollUp => {
                self.handle_scroll(pos, -3);
                no_commands()
            },
            MouseKind::ScrollDown => {
                self.handle_scroll(pos, 3);
                no_commands()
            },
            MouseKind::Other => no_commands(),
        }
    }
}

// ───────────────────────── checking an event first ─────────────────────────

/// Whether a key while typing a path can be handled (see `path_key_safe`).
fn path_key_is_safe(buffer: &String, cursor: usize, code: KeyCode) -> (res: bool)
    ensures
        res == path_key_safe(buffer@, cursor, code),
{
    let cs = chars_of(buffer.as_str());
    cs.len() < usize::MAX
}

/// Whether moving `s` down by `delta` rows stays within a `usize` (see `move_fits`).
fn move_is_safe(s: ListSel, delta: usize) -> (res: bool)
    ensures
        res == move_fits(s, delta as int),
{
    match s.selected {
        Some(c) => c <= usize::MAX - delta,
        None => true,
    }
}

impl App {
    /// Whether `handle_key` can take `key` now (see `key_safe`).
    pub fn key_is_safe(&self, key: KeyInput) -> (res: bool)
        ensures
            res == key_safe(self@, key),
    {
        if key.release {
            return true;
        }
        match &self.input_mode {
            InputMode::EnteringPath { buffer, cursor, purpose } => {
                return path_key_is_safe(buffer, *cursor, key.code);
            },
            InputMode::Normal => {},
        }
        if key.ctrl {
            return true;
        }
        let down = key.code == KeyCode::Down || key.code == KeyCode::Char('j');
        if self.show_settings {
            if down {
                match self.settings_section {
                    SettingsSection::Folders => move_is_safe(self.settings_folder_state, 1),
                    SettingsSection::Playlists => move_is_safe(self.settings_xspf_state, 1),
                }
            } else {
                true
            }
        } else {
            let down_ok = if down {
                match self.focus {
                    Panel::Library => move_is_safe(self.library_state, 1),
                    Panel::Playlist => move_is_safe(self.playlist_state, 1),
                    Panel::Lyrics => move_is_safe(self.lyrics_state, 1),
                }
            } else {
                true
            };
            let right_ok = if key.code == KeyCode::Right {
                if self.focus == Panel::Lyrics {
                    move_is_safe(self.lyrics_state, 5)
                } else {
                    self.elapsed_ns <= 18_446_744_073_709_551_615 * 1_000_000_000 + 999_999_999 - 5_000_000_000
                }
            } else {
                true
            };
            let w_ok = key.code != KeyCode::Char('w') || self.active_playlist_idx != Some(usize::MAX);
            down_ok && right_ok && w_ok
        }
    }

    /// Whether `handle_mouse` can take `mouse` now (see `mouse_safe`).
    pub fn mouse_is_safe(&self, mouse: MouseInput) -> (res: bool)
        ensures
            res == mouse_safe(self@, mouse),
    {
        if mouse.kind != MouseKind::ScrollDown {
            return true;
        }
        let pos = Position { x: mouse.column, y: mouse.row };
        if self.show_settings {
            if self.settings_folder_inner.contains(pos) {
                move_is_safe(self.settings_folder_state, 3)
            } else if self.settings_xspf_inner.contains(pos) {
                move_is_safe(self.settings_xspf_state, 3)
            } else {
                true
            }
        } else if self.library_visible && self.library_inner.contains(pos) {
            move_is_safe(self.library_state, 3)
        } else if self.playlist_inner.contains(pos) {
            move_is_safe(self.playlist_state, 3)
        } else if self.lyrics_inner.contains(pos) {
            move_is_safe(self.lyrics_state, 3)
        } else {
            true
        }
    }
}

/// In the player, N fades out over 200 ms towards the track `next_index` names
/// (nothing where there is none), and P towards the track `prev_index` names.
pub proof fn law_next_and_previous_keys(v: AppView, now: u128)
    requires
        v.input_mode == InputModeView::Normal,
        !v.show_settings,
    ensures
        ({
            let (w, c) = key_handled(v, KeyInput { code: KeyCode::Char('n'), ctrl: false, release: false }, now);
            &&& next_index(v) matches Some(i) ==> c == seq![CommandView::StartFade { fade_in: false }]
                && w.fade == Some(Fade { action: FadeAction::LoadTrack(i), fade_in: false, start_ns: now, duration_ns: 200_000_000 })
            &&& next_index(v) is None ==> c.len() == 0 && w == v
        }),
        ({
            let (w, c) = key_handled(v, KeyInput { code: KeyCode::Char('p'), ctrl: false, release: false }, now);
            &&& prev_index(v) matches Some(i) ==> c == seq![CommandView::StartFade { fade_in: false }]
                && w.fade == Some(Fade { action: FadeAction::LoadTrack(i), fade_in: false, start_ns: now, duration_ns: 200_000_000 })
            &&& prev_index(v) is None ==> c.len() == 0 && w == v
        }),
{
}

} // verus!
