//! The settings page and the named playlists: language, folders, imported
//! playlists, and switching between playlists.
use vstd::prelude::*;
use crate::app::{App, AppView, Command, CommandView, SettingsSection, commands_view};
use crate::config::strings_view;
use crate::locale::{other_lang, pick, Lang, Locale};
use crate::nav::selected_as;
use crate::playback::{no_commands, one_command, stopped};
use crate::text::copy_str;

verus! {

broadcast use vstd::string::group_string_axioms;

/// The positions `0..n`: the playlist of every library track.
pub open spec fn all_positions(n: nat) -> Seq<usize> {
    Seq::new(n, |i: int| i as usize)
}

/// The playlist `0..n`.
pub fn all_positions_vec(n: usize) -> (v: Vec<usize>)
    ensures
        v@ == all_positions(n as nat),
{
    let mut v: Vec<usize> = Vec::new();
    let mut i: usize = 0;
    while i < n
        invariant
            i <= n,
            v@ == all_positions(i as nat),
        decreases n - i,
    {
        v.push(i);
        i = i + 1;
        assert(v@ =~= all_positions(i as nat));
    }
    v
}

/// L: the other language, saved; the message says so in the new language.
pub open spec fn language_toggled(v: AppView) -> (AppView, Seq<CommandView>) {
    let l = other_lang(v.locale.lang);
    (
        AppView {
            locale: Locale { lang: l },
            config: crate::config::ConfigView {
                language: Some(if l == Lang::En { "en"@ } else { "zh"@ }),
                ..v.config
            },
            status_message: pick(l, "Language: English"@, "语言: 中文"@),
            ..v
        },
        seq![CommandView::SaveConfig],
    )
}

/// F2: show or hide the settings page; showing it clears the message.
pub open spec fn settings_toggled(v: AppView) -> AppView {
    if !v.show_settings {
        AppView { show_settings: true, status_message: Seq::empty(), ..v }
    } else {
        AppView { show_settings: false, ..v }
    }
}

/// W: with no named playlist, a hint; else stop, then show the next named
/// playlist, or after the last one the playlist of all tracks.
pub open spec fn playlist_cycled(v: AppView, now: u128) -> (AppView, Seq<CommandView>) {
    if v.saved_playlists.len() == 0 {
        (
            AppView {
                status_message: pick(v.locale.lang, "No saved playlists — import .xspf in Settings (F2)"@,
                    "无已保存的播放列表 — 在设置中导入 .xspf (F2)"@),
                ..v
            },
            Seq::empty(),
        )
    } else {
        let (v1, c) = stopped(v, now);
        let next: int = match v1.active_playlist_idx {
            None => 0,
            Some(i) => i + 1,
        };
        if next >= v1.saved_playlists.len() {
            (
                AppView {
                    active_playlist_idx: None,
                    playlist: all_positions(v1.library.len()),
                    playlist_state: selected_as(v1.playlist_state, Some(0)),
                    status_message: pick(v1.locale.lang, "Playlist: All Tracks"@, "播放列表: 全部曲目"@),
                    ..v1
                },
                c,
            )
        } else {
            let p = v1.saved_playlists[next];
            (
                AppView {
                    active_playlist_idx: Some(next as usize),
                    playlist: p.1,
                    playlist_state: selected_as(v1.playlist_state, if p.1.len() > 0 { Some(0) } else { None }),
                    status_message: pick(v1.locale.lang, "Playlist: "@, "播放列表: "@) + p.0,
                    ..v1
                },
                c,
            )
        }
    }
}

/// D on the settings page: remove the selected folder or playlist from the
/// settings (keeping a selection within the list) and save.
pub open spec fn settings_item_removed(v: AppView) -> (AppView, Seq<CommandView>) {
    match v.settings_section {
        SettingsSection::Folders => match v.settings_folder_state.selected {
            Some(i) => if i < v.config.music_folders.len() {
                let f = v.config.music_folders.remove(i as int);
                let st = if f.len() == 0 {
                    selected_as(v.settings_folder_state, None)
                } else if i >= f.len() {
                    selected_as(v.settings_folder_state, Some((f.len() - 1) as usize))
                } else {
                    v.settings_folder_state
                };
                (
                    AppView {
                        config: crate::config::ConfigView { music_folders: f, ..v.config },
                        settings_folder_state: st,
                        status_message: pick(v.locale.lang, "Music folder removed"@, "已移除音乐文件夹"@),
                        ..v
                    },
                    seq![CommandView::SaveConfig],
                )
            } else {
                (v, Seq::empty())
            },
            None => (v, Seq::empty()),
        },
        SettingsSection::Playlists => match v.settings_xspf_state.selected {
            Some(i) => if i < v.config.xspf_playlists.len() {
                let f = v.config.xspf_playlists.remove(i as int);
                let st = if f.len() == 0 {
                    selected_as(v.settings_xspf_state, None)
                } else if i >= f.len() {
                    selected_as(v.settings_xspf_state, Some((f.len() - 1) as usize))
                } else {
                    v.settings_xspf_state
                };
                (
                    AppView {
                        config: crate::config::ConfigView { xspf_playlists: f, ..v.config },
                        settings_xspf_state: st,
                        status_message: pick(v.locale.lang, "Playlist removed"@, "已移除播放列表"@),
                        ..v
                    },
                    seq![CommandView::SaveConfig],
                )
            } else {
                (v, Seq::empty())
            },
            None => (v, Seq::empty()),
        },
    }
}

/// Removing the string at `i`.
fn remove_string(v: &mut Vec<String>, i: usize)
    requires
        i < old(v)@.len(),
    ensures
        strings_view(final(v)@) == strings_view(old(v)@).remove(i as int),
{
    let ghost o = old(v)@;
    v.remove(i);
    assert(strings_view(v@) =~= strings_view(o).remove(i as int));
}

impl App {
    /// L on the settings page (see `language_toggled`).
    pub fn toggle_language(&mut self) -> (cmds: Vec<Command>)
        ensures
            (final(self)@, commands_view(cmds@)) == language_toggled(old(self)@),
    {
        let new_lang = match self.locale.lang() {
            Lang::En => Lang::ZhCn,
            Lang::ZhCn => Lang::En,
        };
        self.locale = Locale::from_lang(new_lang);
        self.config.language = Some(match new_lang {
            Lang::En => copy_str("en"),
            Lang::ZhCn => copy_str("zh"),
        });
        self.status_message = copy_str(self.locale.language_switched());
        one_command(Command::SaveConfig)
    }

    /// F2 (see `settings_toggled`).
    pub fn toggle_settings(&mut self)
        ensures
            final(self)@ == settings_toggled(old(self)@),
    {
        self.show_settings = !self.show_settings;
        if self.show_settings {
            self.status_message = String::new();
        }
    }

    /// W (see `playlist_cycled`).
    pub fn cycle_playlist(&mut self, now: u128) -> (cmds: Vec<Command>)
        requires
            old(self).active_playlist_idx != Some(usize::MAX),
        ensures
            (final(self)@, commands_view(cmds@)) == playlist_cycled(old(self)@, now),
    {
        if self.saved_playlists.len() == 0 {
            self.status_message = copy_str(self.locale.no_saved_playlists());
            return no_commands();
        }
        let cmds = self.stop(now);
        let next: usize = match self.active_playlist_idx {
            None => 0,
            Some(i) => i + 1,
        };
        if next >= self.saved_playlists.len() {
            self.active_playlist_idx = None;
            self.playlist = crate::settings::all_positions_vec(self.library.len());
            self.playlist_state.select(Some(0));
            self.status_message = copy_str(self.locale.playlist_switched_all());
            return cmds;
        }
        self.active_playlist_idx = Some(next);
        self.playlist = self.saved_playlists[next].1.clone();
        if self.playlist.len() > 0 {
            self.playlist_state.select(Some(0));
        } else {
            self.playlist_state.select(None);
        }
        self.status_message = self.locale.playlist_switched(self.saved_playlists[next].0.as_str());
        cmds
    }

    /// D on the settings page (see `settings_item_removed`).
    pub fn remove_settings_item(&mut self) -> (cmds: Vec<Command>)
        ensures
            (final(self)@, commands_view(cmds@)) == settings_item_removed(old(self)@),
    {
        match self.settings_section {
            SettingsSection::Folders => {
                let idx = match self.settings_folder_state.selected() {
                    Some(i) => if i < self.config.music_folders.len() { i } else { return no_commands() },
                    None => return no_commands(),
                };
                remove_string(&mut self.config.music_folders, idx);
                if self.config.music_folders.len() == 0 {
                    self.settings_folder_state.select(None);
                } else if idx >= self.config.music_folders.len() {
                    self.settings_folder_state.select(Some(self.config.music_folders.len() - 1));
                }
                self.status_message = copy_str(self.locale.msg_folder_removed());
                one_command(Command::SaveConfig)
            },
            SettingsSection::Playlists => {
                let idx = match self.settings_xspf_state.selected() {
                    Some(i) => if i < self.config.xspf_playlists.len() { i } else { return no_commands() },
                    None => return no_commands(),
                };
                remove_string(&mut self.config.xspf_playlists, idx);
                if self.config.xspf_playlists.len() == 0 {
                    self.settings_xspf_state.select(None);
                } else if idx >= self.config.xspf_playlists.len() {
                    self.settings_xspf_state.select(Some(self.config.xspf_playlists.len() - 1));
                }
                self.status_message = copy_str(self.locale.msg_xspf_removed());
                one_command(Command::SaveConfig)
            },
        }
    }
}

/// Pressing F2 twice gives back the state one started from, but for the message,
/// which showing the settings page clears.
pub proof fn law_settings_toggle_twice(v: AppView)
    ensures
        settings_toggled(settings_toggled(v)) == (AppView { status_message: Seq::empty(), ..v }),
{
}

/// Switching the language twice restores the language (and saves it each time).
pub proof fn law_language_toggle_twice(v: AppView)
    ensures
        language_toggled(language_toggled(v).0).0.locale == v.locale,
        language_toggled(v).1 == seq![CommandView::SaveConfig],
{
    crate::locale::law_language_toggle_involution(v.locale.lang);
}

/// The state after pressing W `n` times at `now`.
pub open spec fn cycled_times(v: AppView, now: u128, n: nat) -> AppView
    decreases n,
{
    if n == 0 { v } else { playlist_cycled(cycled_times(v, now, (n - 1) as nat), now).0 }
}

proof fn lemma_cycle_steps(v: AppView, now: u128, k: nat)
    requires
        v.active_playlist_idx is None,
        v.saved_playlists.len() > 0,
        1 <= k <= v.saved_playlists.len(),
        v.saved_playlists.len() <= usize::MAX,
    ensures
        cycled_times(v, now, k).active_playlist_idx == Some((k - 1) as usize),
        cycled_times(v, now, k).saved_playlists == v.saved_playlists,
        cycled_times(v, now, k).library == v.library,
        cycled_times(v, now, k).playlist == v.saved_playlists[k - 1].1,
    decreases k,
{
    let prev = cycled_times(v, now, (k - 1) as nat);
    if k > 1 {
        lemma_cycle_steps(v, now, (k - 1) as nat);
    }
    assert(cycled_times(v, now, k) == playlist_cycled(prev, now).0);
    let v1 = stopped(prev, now).0;
    assert(v1.active_playlist_idx == prev.active_playlist_idx);
    assert(v1.saved_playlists == prev.saved_playlists);
    assert(v1.library == prev.library);
}

/// W walks through the named playlists in order and then back to every track:
/// from the playlist of every track, press `i + 1` shows named playlist `i`, and
/// one press more than there are named playlists shows every track again.
pub proof fn law_playlist_cycle(v: AppView, now: u128)
    requires
        v.active_playlist_idx is None,
        v.saved_playlists.len() > 0,
        v.saved_playlists.len() <= usize::MAX,
    ensures
        forall|i: int| 0 <= i < v.saved_playlists.len() ==> {
            let w = #[trigger] cycled_times(v, now, (i + 1) as nat);
            w.active_playlist_idx == Some(i as usize) && w.playlist == v.saved_playlists[i].1
        },
        cycled_times(v, now, v.saved_playlists.len() + 1).active_playlist_idx is None,
        cycled_times(v, now, v.saved_playlists.len() + 1).playlist == all_positions(v.library.len()),
{
    assert forall|i: int| 0 <= i < v.saved_playlists.len() implies {
        let w = #[trigger] cycled_times(v, now, (i + 1) as nat);
        w.active_playlist_idx == Some(i as usize) && w.playlist == v.saved_playlists[i].1
    } by {
        lemma_cycle_steps(v, now, (i + 1) as nat);
    }
    let n = v.saved_playlists.len();
    lemma_cycle_steps(v, now, n);
    let prev = cycled_times(v, now, n);
    assert(cycled_times(v, now, n + 1) == playlist_cycled(prev, now).0);
    let v1 = stopped(prev, now).0;
    assert(v1.active_playlist_idx == prev.active_playlist_idx);
    assert(v1.saved_playlists == prev.saved_playlists);
    assert(v1.library == prev.library);
}

/// D on the settings page removes the selected folder or playlist file from the
/// settings, leaves the other list alone, and always saves the settings; with no
/// entry selected nothing happens.
pub proof fn law_settings_removal_saves(v: AppView)
    ensures
        ({
            let (w, c) = settings_item_removed(v);
            &&& forall|i: usize| (v.settings_section == SettingsSection::Folders && v.settings_folder_state.selected == Some(i)
                && i < v.config.music_folders.len()) ==> {
                &&& c == seq![CommandView::SaveConfig]
                &&& w.config.music_folders == v.config.music_folders.remove(i as int)
                &&& w.config.xspf_playlists == v.config.xspf_playlists
            }
            &&& forall|i: usize| (v.settings_section == SettingsSection::Playlists && v.settings_xspf_state.selected == Some(i)
                && i < v.config.xspf_playlists.len()) ==> {
                &&& c == seq![CommandView::SaveConfig]
                &&& w.config.xspf_playlists == v.config.xspf_playlists.remove(i as int)
                &&& w.config.music_folders == v.config.music_folders
            }
            &&& (v.settings_section == SettingsSection::Folders && v.settings_folder_state.selected is None)
                ==> c.len() == 0 && w == v
            &&& (v.settings_section == SettingsSection::Playlists && v.settings_xspf_state.selected is None)
                ==> c.len() == 0 && w == v
        }),
{
}

} // verus!
