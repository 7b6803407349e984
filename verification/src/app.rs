//! The player's state and the decisions it makes: what a key, a click or a
//! clock tick changes, and which outside work (audio output, files, saved
//! settings) the caller has to carry out next, as a list of `Command`s.
//! Times are in nanoseconds on the caller's monotonic clock.
use vstd::prelude::*;
use crate::config::{Config, ConfigView};
use crate::locale::Locale;
use crate::nav::{ListSel, Rect};
use crate::track::{tracks_view, AudioMeta, LyricLine, PlayMode, PlayerStatus, Track, TrackView};

verus! {

/// The panels that can hold the focus.
#[derive(Clone, Copy, Debug, PartialEq, Eq, Structural)]
pub enum Panel {
    Library,
    Playlist,
    Lyrics,
}

/// The lists of the settings page.
#[derive(Clone, Copy, Debug, PartialEq, Eq, Structural)]
pub enum SettingsSection {
    Folders,
    Playlists,
}

/// What a path being typed in is for.
#[derive(Clone, Copy, Debug, PartialEq, Eq, Structural)]
pub enum PathPurpose {
    AddMusicFolder,
    ImportXspf,
}

/// Whether keys go to the player or to a path being typed in.  `cursor` is a
/// character position in `buffer`.
#[derive(Clone, Debug)]
pub enum InputMode {
    Normal,
    EnteringPath { buffer: String, cursor: usize, purpose: PathPurpose },
}

/// The input mode as plain values.
pub enum InputModeView {
    Normal,
    EnteringPath { buffer: Seq<char>, cursor: usize, purpose: PathPurpose },
}

/// What happens when a volume fade ends.
#[derive(Clone, Copy, Debug, PartialEq, Eq, Structural)]
pub enum FadeAction {
    NoAction,
    Pause,
    Stop,
    LoadTrack(usize),
    Quit,
}

/// A running volume fade: out (from the volume to silence) or in (from silence
/// to the volume), started at `start_ns` and lasting `duration_ns`.
#[derive(Clone, Copy, Debug, PartialEq, Eq, Structural)]
pub struct Fade {
    pub action: FadeAction,
    pub fade_in: bool,
    pub start_ns: u128,
    pub duration_ns: u128,
}

/// Outside work the caller carries out, in order.
#[derive(Clone, Debug)]
pub enum Command {
    /// Stop the audio output and drop what it holds.
    PlayerStop,
    /// Pause the audio output.
    PlayerPause,
    /// Resume the audio output.
    PlayerPlay,
    /// Begin a fade (out: from the volume to 0; in: from 0 to the volume) and set
    /// the output to its starting level.
    StartFade { fade_in: bool },
    /// The fade is over: set the output to its final level.
    EndFade,
    /// Set the output to the volume.
    ApplyVolume,
    /// Raise the volume by 0.05 (at most 1) and apply it.
    VolumeUp,
    /// Lower the volume by 0.05 (at least 0) and apply it.
    VolumeDown,
    /// Set the volume to `num / den` (held within 0 to 1) and apply it.
    SetVolumeFraction { num: u16, den: u16 },
    /// Stop the output, read the lyrics file beside the track and load the
    /// track from its start; then report to `App::finish_load_track`.
    LoadTrack { lib_idx: usize, fade_in: bool },
    /// Stop the output and load the track from `skip_ns`; then report to
    /// `App::finish_seek`.
    SeekLoad { lib_idx: usize, skip_ns: u128 },
    /// Save the settings.
    SaveConfig,
    /// Resolve the path, scan it and report to `App::add_music_folder`.
    AddMusicFolder { path: String },
    /// Resolve the path, read the playlist and report to `App::import_xspf_file`.
    ImportXspf { path: String },
    /// Scan every configured folder and playlist and report to `App::rescan_all`.
    Rescan,
}

/// A command as plain values.
pub enum CommandView {
    PlayerStop,
    PlayerPause,
    PlayerPlay,
    StartFade { fade_in: bool },
    EndFade,
    ApplyVolume,
    VolumeUp,
    VolumeDown,
    SetVolumeFraction { num: u16, den: u16 },
    LoadTrack { lib_idx: usize, fade_in: bool },
    SeekLoad { lib_idx: usize, skip_ns: u128 },
    SaveConfig,
    AddMusicFolder { path: Seq<char> },
    ImportXspf { path: Seq<char> },
    Rescan,
}

/// The plain value of a command.
pub open spec fn command_view(c: Command) -> CommandView {
    match c {
        Command::PlayerStop => CommandView::PlayerStop,
        Command::PlayerPause => CommandView::PlayerPause,
        Command::PlayerPlay => CommandView::PlayerPlay,
        Command::StartFade { fade_in } => CommandView::StartFade { fade_in },
        Command::EndFade => CommandView::EndFade,
        Command::ApplyVolume => CommandView::ApplyVolume,
        Command::VolumeUp => CommandView::VolumeUp,
        Command::VolumeDown => CommandView::VolumeDown,
        Command::SetVolumeFraction { num, den } => CommandView::SetVolumeFraction { num, den },
        Command::LoadTrack { lib_idx, fade_in } => CommandView::LoadTrack { lib_idx, fade_in },
        Command::SeekLoad { lib_idx, skip_ns } => CommandView::SeekLoad { lib_idx, skip_ns },
        Command::SaveConfig => CommandView::SaveConfig,
        Command::AddMusicFolder { path } => CommandView::AddMusicFolder { path: path@ },
        Command::ImportXspf { path } => CommandView::ImportXspf { path: path@ },
        Command::Rescan => CommandView::Rescan,
    }
}

/// The plain values of a list of commands.
pub open spec fn commands_view(v: Seq<Command>) -> Seq<CommandView> {
    Seq::new(v.len(), |i: int| command_view(v[i]))
}

/// The player's whole state.
pub struct App {
    pub library: Vec<Track>,
    pub playlist: Vec<usize>,
    pub current_index: Option<usize>,

    pub status: PlayerStatus,
    pub play_mode: PlayMode,
    pub elapsed_ns: u128,
    pub duration_ns: Option<u128>,

    pub should_quit: bool,
    pub status_message: String,
    pub locale: Locale,
    pub lyrics: Vec<LyricLine>,
    pub current_lyric_index: Option<usize>,
    pub lyrics_idle_ticks: u32,
    pub fade: Option<Fade>,

    pub track_meta: Option<AudioMeta>,

    pub focus: Panel,
    pub library_visible: bool,

    pub library_state: ListSel,
    pub playlist_state: ListSel,
    pub lyrics_state: ListSel,
    /// For each shown row of the lyrics panel, the lyric line it belongs to.
    pub lyric_line_map: Vec<usize>,

    pub library_inner: Rect,
    pub playlist_inner: Rect,
    pub lyrics_inner: Rect,
    pub progress_area: Rect,
    pub volume_area: Rect,

    /// When playback last (re)started, while it runs.
    pub play_start_ns: Option<u128>,
    /// Playing time before `play_start_ns`.
    pub accumulated_ns: u128,

    pub config: Config,
    pub show_settings: bool,
    pub settings_section: SettingsSection,
    pub settings_folder_state: ListSel,
    pub settings_xspf_state: ListSel,
    pub settings_folder_inner: Rect,
    pub settings_xspf_inner: Rect,

    pub input_mode: InputMode,

    /// Named playlists: a name and positions in the library.
    pub saved_playlists: Vec<(String, Vec<usize>)>,
    pub active_playlist_idx: Option<usize>,

    /// The state of the generator that shuffle draws the next track from.
    pub shuffle_state: u64,
}

/// The player's state as plain values.
pub struct AppView {
    pub library: Seq<TrackView>,
    pub playlist: Seq<usize>,
    pub current_index: Option<usize>,
    pub status: PlayerStatus,
    pub play_mode: PlayMode,
    pub elapsed_ns: u128,
    pub duration_ns: Option<u128>,
    pub should_quit: bool,
    pub status_message: Seq<char>,
    pub locale: Locale,
    pub lyrics: Seq<LyricLine>,
    pub current_lyric_index: Option<usize>,
    pub lyrics_idle_ticks: u32,
    pub fade: Option<Fade>,
    pub track_meta: Option<AudioMeta>,
    pub focus: Panel,
    pub library_visible: bool,
    pub library_state: ListSel,
    pub playlist_state: ListSel,
    pub lyrics_state: ListSel,
    pub lyric_line_map: Seq<usize>,
    pub library_inner: Rect,
    pub playlist_inner: Rect,
    pub lyrics_inner: Rect,
    pub progress_area: Rect,
    pub volume_area: Rect,
    pub play_start_ns: Option<u128>,
    pub accumulated_ns: u128,
    pub config: ConfigView,
    pub show_settings: bool,
    pub settings_section: SettingsSection,
    pub settings_folder_state: ListSel,
    pub settings_xspf_state: ListSel,
    pub settings_folder_inner: Rect,
    pub settings_xspf_inner: Rect,
    pub input_mode: InputModeView,
    pub saved_playlists: Seq<(Seq<char>, Seq<usize>)>,
    pub active_playlist_idx: Option<usize>,
    pub shuffle_state: u64,
}

/// The plain value of an input mode.
pub open spec fn input_view(m: InputMode) -> InputModeView {
    match m {
        InputMode::Normal => InputModeView::Normal,
        InputMode::EnteringPath { buffer, cursor, purpose } => InputModeView::EnteringPath { buffer: buffer@, cursor, purpose },
    }
}

/// The plain values of the named playlists.
pub open spec fn saved_view(v: Seq<(String, Vec<usize>)>) -> Seq<(Seq<char>, Seq<usize>)> {
    Seq::new(v.len(), |i: int| (v[i].0@, v[i].1@))
}

impl App {
    /// The state as plain values.
    pub open spec fn view(&self) -> AppView {
        AppView {
            library: tracks_view(self.library@),
            playlist: self.playlist@,
            current_index: self.current_index,
            status: self.status,
            play_mode: self.play_mode,
            elapsed_ns: self.elapsed_ns,
            duration_ns: self.duration_ns,
            should_quit: self.should_quit,
            status_message: self.status_message@,
            locale: self.locale,
            lyrics: self.lyrics@,
            current_lyric_index: self.current_lyric_index,
            lyrics_idle_ticks: self.lyrics_idle_ticks,
            fade: self.fade,
            track_meta: self.track_meta,
            focus: self.focus,
            library_visible: self.library_visible,
            library_state: self.library_state,
            playlist_state: self.playlist_state,
            lyrics_state: self.lyrics_state,
            lyric_line_map: self.lyric_line_map@,
            library_inner: self.library_inner,
            playlist_inner: self.playlist_inner,
            lyrics_inner: self.lyrics_inner,
            progress_area: self.progress_area,
            volume_area: self.volume_area,
            play_start_ns: self.play_start_ns,
            accumulated_ns: self.accumulated_ns,
            config: self.config.view(),
            show_settings: self.show_settings,
            settings_section: self.settings_section,
            settings_folder_state: self.settings_folder_state,
            settings_xspf_state: self.settings_xspf_state,
            settings_folder_inner: self.settings_folder_inner,
            settings_xspf_inner: self.settings_xspf_inner,
            input_mode: input_view(self.input_mode),
            saved_playlists: saved_view(self.saved_playlists@),
            active_playlist_idx: self.active_playlist_idx,
            shuffle_state: self.shuffle_state,
        }
    }
}

} // verus!
