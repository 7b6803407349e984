//! Display language and every text the interface shows in it.
use vstd::prelude::*;
use crate::text::{chars_of, chars_contain, contains_sub, copy_str, decimal, lowercase, occurs_at, push_decimal, push_str, to_lowercase};
use crate::track::PlayMode;

verus! {

broadcast use vstd::string::group_string_axioms;

/// The interface languages.
#[derive(Clone, Copy, Debug, PartialEq, Eq, Structural)]
pub enum Lang {
    En,
    ZhCn,
}

/// The interface's language setting.
#[derive(Clone, Copy, Debug)]
pub struct Locale {
    pub lang: Lang,
}

/// The text for `l`: `en` in English, `zh` in Chinese.
pub open spec fn pick(l: Lang, en: Seq<char>, zh: Seq<char>) -> Seq<char> {
    match l {
        Lang::En => en,
        Lang::ZhCn => zh,
    }
}

/// `prefix`, the decimal count, `suffix`.
fn counted_text(prefix: &str, count: usize, suffix: &str) -> (res: String)
    ensures
        res@ == prefix@ + decimal(count as nat) + suffix@,
{
    let mut s = copy_str(prefix);
    push_decimal(&mut s, count as u128);
    push_str(&mut s, suffix);
    s
}

/// The other language.
pub open spec fn other_lang(l: Lang) -> Lang {
    match l {
        Lang::En => Lang::ZhCn,
        Lang::ZhCn => Lang::En,
    }
}

/// Switching the language twice gives back the language one started from.
pub proof fn law_language_toggle_involution(l: Lang)
    ensures
        other_lang(other_lang(l)) == l,
        other_lang(l) != l,
{
}

impl Locale {
    /// The current language.
    pub fn lang(&self) -> (l: Lang)
        ensures
            l == self.lang,
    {
        self.lang
    }

    /// The setting for `lang`.
    pub fn from_lang(lang: Lang) -> (res: Self)
        ensures
            res.lang == lang,
    {
        Self { lang }
    }

    /// English.
    pub fn en() -> (res: Self)
        ensures
            res.lang == Lang::En,
    {
        Self { lang: Lang::En }
    }

    /// Simplified Chinese.
    pub fn zh_cn() -> (res: Self)
        ensures
            res.lang == Lang::ZhCn,
    {
        Self { lang: Lang::ZhCn }
    }

    /// Shown in an empty library.
    pub fn no_tracks_hint(&self) -> (res: &str)
        ensures
            res@ == pick(self.lang, " No tracks loaded — run: tui-musicplayer <directory>"@, " 无曲目 — 运行: tui-musicplayer <目录>"@),
    {
        match self.lang {
            Lang::En => " No tracks loaded — run: tui-musicplayer <directory>",
            Lang::ZhCn => " 无曲目 — 运行: tui-musicplayer <目录>",
        }
    }

    /// Label before the play mode.
    pub fn mode_label(&self) -> (res: &str)
        ensures
            res@ == pick(self.lang, "Mode: "@, "模式: "@),
    {
        match self.lang {
            Lang::En => "Mode: ",
            Lang::ZhCn => "模式: ",
        }
    }

    /// Status word while playing.
    pub fn playing(&self) -> (res: &str)
        ensures
            res@ == pick(self.lang, "Playing"@, "播放中"@),
    {
        match self.lang {
            Lang::En => "Playing",
            Lang::ZhCn => "播放中",
        }
    }

    /// Status word while paused.
    pub fn paused(&self) -> (res: &str)
        ensures
            res@ == pick(self.lang, "Paused"@, "已暂停"@),
    {
        match self.lang {
            Lang::En => "Paused",
            Lang::ZhCn => "已暂停",
        }
    }

    /// Status word while stopped.
    pub fn stopped(&self) -> (res: &str)
        ensures
            res@ == pick(self.lang, "Stopped"@, "已停止"@),
    {
        match self.lang {
            Lang::En => "Stopped",
            Lang::ZhCn => "已停止",
        }
    }

    /// Key hint for Space.
    pub fn hint_pause(&self) -> (res: &str)
        ensures
            res@ == pick(self.lang, "Pause "@, "暂停 "@),
    {
        match self.lang {
            Lang::En => "Pause ",
            Lang::ZhCn => "暂停 ",
        }
    }

    /// Key hint for N.
    pub fn hint_next(&self) -> (res: &str)
        ensures
            res@ == pick(self.lang, "Next "@, "下一首 "@),
    {
        match self.lang {
            Lang::En => "Next ",
            Lang::ZhCn => "下一首 ",
        }
    }

    /// Key hint for P.
    pub fn hint_prev(&self) -> (res: &str)
        ensures
            res@ == pick(self.lang, "Prev "@, "上一首 "@),
    {
        match self.lang {
            Lang::En => "Prev ",
            Lang::ZhCn => "上一首 ",
        }
    }

    /// Key hint for S.
    pub fn hint_stop(&self) -> (res: &str)
        ensures
            res@ == pick(self.lang, "Stop "@, "停止 "@),
    {
        match self.lang {
            Lang::En => "Stop ",
            Lang::ZhCn => "停止 ",
        }
    }

    /// Key hint for M.
    pub fn hint_mode(&self) -> (res: &str)
        ensures
            res@ == pick(self.lang, "Mode "@, "模式 "@),
    {
        match self.lang {
            Lang::En => "Mode ",
            Lang::ZhCn => "模式 ",
        }
    }

    /// Key hint for Q.
    pub fn hint_quit(&self) -> (res: &str)
        ensures
            res@ == pick(self.lang, "Quit"@, "退出"@),
    {
        match self.lang {
            Lang::En => "Quit",
            Lang::ZhCn => "退出",
        }
    }

    /// Prefix of a playback error message.
    pub fn error_prefix(&self) -> (res: &str)
        ensures
            res@ == pick(self.lang, "Error"@, "错误"@),
    {
        match self.lang {
            Lang::En => "Error",
            Lang::ZhCn => "错误",
        }
    }

    /// Prefix of a seek error message.
    pub fn seek_error(&self) -> (res: &str)
        ensures
            res@ == pick(self.lang, "Seek error"@, "跳转错误"@),
    {
        match self.lang {
            Lang::En => "Seek error",
            Lang::ZhCn => "跳转错误",
        }
    }

    /// Shown when no track is loaded.
    pub fn info_no_track(&self) -> (res: &str)
        ensures
            res@ == pick(self.lang, "No track loaded"@, "未加载曲目"@),
    {
        match self.lang {
            Lang::En => "No track loaded",
            Lang::ZhCn => "未加载曲目",
        }
    }

    /// Shown in an empty playlist.
    pub fn playlist_empty_hint(&self) -> (res: &str)
        ensures
            res@ == pick(self.lang, "Press A in Library to add tracks"@, "在音乐库中按 A 添加曲目"@),
    {
        match self.lang {
            Lang::En => "Press A in Library to add tracks",
            Lang::ZhCn => "在音乐库中按 A 添加曲目",
        }
    }

    /// Title of the lyrics panel.
    pub fn lyrics_title(&self) -> (res: &str)
        ensures
            res@ == pick(self.lang, " Lyrics "@, " 歌词 "@),
    {
        match self.lang {
            Lang::En => " Lyrics ",
            Lang::ZhCn => " 歌词 ",
        }
    }

    /// Shown when a track has no lyrics.
    pub fn no_lyrics(&self) -> (res: &str)
        ensures
            res@ == pick(self.lang, "(no .lrc file)"@, "(无歌词文件)"@),
    {
        match self.lang {
            Lang::En => "(no .lrc file)",
            Lang::ZhCn => "(无歌词文件)",
        }
    }

    /// Status message: the entered path does not exist.
    pub fn msg_path_not_found(&self) -> (res: &str)
        ensures
            res@ == pick(self.lang, "Path not found"@, "路径不存在"@),
    {
        match self.lang {
            Lang::En => "Path not found",
            Lang::ZhCn => "路径不存在",
        }
    }

    /// Status message: a music folder was added.
    pub fn msg_folder_added(&self) -> (res: &str)
        ensures
            res@ == pick(self.lang, "Music folder added"@, "已添加音乐文件夹"@),
    {
        match self.lang {
            Lang::En => "Music folder added",
            Lang::ZhCn => "已添加音乐文件夹",
        }
    }

    /// Status message: the entered path is not an .xspf file.
    pub fn msg_not_xspf(&self) -> (res: &str)
        ensures
            res@ == pick(self.lang, "Not an .xspf file"@, "不是 .xspf 文件"@),
    {
        match self.lang {
            Lang::En => "Not an .xspf file",
            Lang::ZhCn => "不是 .xspf 文件",
        }
    }

    /// Status message: an XSPF playlist was imported.
    pub fn msg_xspf_imported(&self) -> (res: &str)
        ensures
            res@ == pick(self.lang, "Playlist imported"@, "已导入播放列表"@),
    {
        match self.lang {
            Lang::En => "Playlist imported",
            Lang::ZhCn => "已导入播放列表",
        }
    }

    /// Status message: a music folder was removed.
    pub fn msg_folder_removed(&self) -> (res: &str)
        ensures
            res@ == pick(self.lang, "Music folder removed"@, "已移除音乐文件夹"@),
    {
        match self.lang {
            Lang::En => "Music folder removed",
            Lang::ZhCn => "已移除音乐文件夹",
        }
    }

    /// Status message: an XSPF playlist was removed.
    pub fn msg_xspf_removed(&self) -> (res: &str)
        ensures
            res@ == pick(self.lang, "Playlist removed"@, "已移除播放列表"@),
    {
        match self.lang {
            Lang::En => "Playlist removed",
            Lang::ZhCn => "已移除播放列表",
        }
    }

    /// Status message: back to the playlist of all tracks.
    pub fn playlist_switched_all(&self) -> (res: &str)
        ensures
            res@ == pick(self.lang, "Playlist: All Tracks"@, "播放列表: 全部曲目"@),
    {
        match self.lang {
            Lang::En => "Playlist: All Tracks",
            Lang::ZhCn => "播放列表: 全部曲目",
        }
    }

    /// Status message: there is no named playlist to switch to.
    pub fn no_saved_playlists(&self) -> (res: &str)
        ensures
            res@ == pick(self.lang, "No saved playlists — import .xspf in Settings (F2)"@, "无已保存的播放列表 — 在设置中导入 .xspf (F2)"@),
    {
        match self.lang {
            Lang::En => "No saved playlists — import .xspf in Settings (F2)",
            Lang::ZhCn => "无已保存的播放列表 — 在设置中导入 .xspf (F2)",
        }
    }

    /// Status message after a language switch, in the new language.
    pub fn language_switched(&self) -> (res: &str)
        ensures
            res@ == pick(self.lang, "Language: English"@, "语言: 中文"@),
    {
        match self.lang {
            Lang::En => "Language: English",
            Lang::ZhCn => "语言: 中文",
        }
    }

    /// Title of the settings page.
    pub fn settings_title(&self) -> (res: &str)
        ensures
            res@ == pick(self.lang, " Settings "@, " 设置 "@),
    {
        match self.lang {
            Lang::En => " Settings ",
            Lang::ZhCn => " 设置 ",
        }
    }

    /// Label of the language line.
    pub fn language_label(&self) -> (res: &str)
        ensures
            res@ == pick(self.lang, "Language"@, "语言"@),
    {
        match self.lang {
            Lang::En => "Language",
            Lang::ZhCn => "语言",
        }
    }

    /// Name of the current language.
    pub fn language_value(&self) -> (res: &str)
        ensures
            res@ == pick(self.lang, "English"@, "中文"@),
    {
        match self.lang {
            Lang::En => "English",
            Lang::ZhCn => "中文",
        }
    }

    /// Key hint for L on the settings page.
    pub fn language_toggle_hint(&self) -> (res: &str)
        ensures
            res@ == pick(self.lang, "Toggle language"@, "切换语言"@),
    {
        match self.lang {
            Lang::En => "Toggle language",
            Lang::ZhCn => "切换语言",
        }
    }

    /// Shown when no music folder is configured.
    pub fn settings_no_folders(&self) -> (res: &str)
        ensures
            res@ == pick(self.lang, "No music folders — press A to add"@, "无音乐文件夹 — 按 A 添加"@),
    {
        match self.lang {
            Lang::En => "No music folders — press A to add",
            Lang::ZhCn => "无音乐文件夹 — 按 A 添加",
        }
    }

    /// Shown when no XSPF playlist is configured.
    pub fn settings_no_xspf(&self) -> (res: &str)
        ensures
            res@ == pick(self.lang, "No playlists — press I to import"@, "无播放列表 — 按 I 导入"@),
    {
        match self.lang {
            Lang::En => "No playlists — press I to import",
            Lang::ZhCn => "无播放列表 — 按 I 导入",
        }
    }

    /// Prompt when entering a folder path.
    pub fn input_prompt_folder(&self) -> (res: &str)
        ensures
            res@ == pick(self.lang, "Music folder path:"@, "音乐文件夹路径:"@),
    {
        match self.lang {
            Lang::En => "Music folder path:",
            Lang::ZhCn => "音乐文件夹路径:",
        }
    }

    /// Prompt when entering an XSPF path.
    pub fn input_prompt_xspf(&self) -> (res: &str)
        ensures
            res@ == pick(self.lang, "XSPF file path:"@, "XSPF 文件路径:"@),
    {
        match self.lang {
            Lang::En => "XSPF file path:",
            Lang::ZhCn => "XSPF 文件路径:",
        }
    }

    /// Hint under the path prompt.
    pub fn input_confirm_hint(&self) -> (res: &str)
        ensures
            res@ == pick(self.lang, "Enter: confirm  Esc: cancel"@, "Enter: 确认  Esc: 取消"@),
    {
        match self.lang {
            Lang::En => "Enter: confirm  Esc: cancel",
            Lang::ZhCn => "Enter: 确认  Esc: 取消",
        }
    }

    /// Key hint for A on the settings page.
    pub fn settings_hint_add_folder(&self) -> (res: &str)
        ensures
            res@ == pick(self.lang, "Add folder"@, "添加文件夹"@),
    {
        match self.lang {
            Lang::En => "Add folder",
            Lang::ZhCn => "添加文件夹",
        }
    }

    /// Key hint for I on the settings page.
    pub fn settings_hint_import_xspf(&self) -> (res: &str)
        ensures
            res@ == pick(self.lang, "Import XSPF"@, "导入 XSPF"@),
    {
        match self.lang {
            Lang::En => "Import XSPF",
            Lang::ZhCn => "导入 XSPF",
        }
    }

    /// Key hint for D on the settings page.
    pub fn settings_hint_remove(&self) -> (res: &str)
        ensures
            res@ == pick(self.lang, "Remove"@, "移除"@),
    {
        match self.lang {
            Lang::En => "Remove",
            Lang::ZhCn => "移除",
        }
    }

    /// Key hint for Enter on the settings page.
    pub fn settings_hint_rescan(&self) -> (res: &str)
        ensures
            res@ == pick(self.lang, "Rescan"@, "重新扫描"@),
    {
        match self.lang {
            Lang::En => "Rescan",
            Lang::ZhCn => "重新扫描",
        }
    }

    /// Key hint for Esc on the settings page.
    pub fn settings_hint_back(&self) -> (res: &str)
        ensures
            res@ == pick(self.lang, "Back"@, "返回"@),
    {
        match self.lang {
            Lang::En => "Back",
            Lang::ZhCn => "返回",
        }
    }

    /// Key hint for W.
    pub fn playlist_switch_hint(&self) -> (res: &str)
        ensures
            res@ == pick(self.lang, "Playlists "@, "播放列表 "@),
    {
        match self.lang {
            Lang::En => "Playlists ",
            Lang::ZhCn => "播放列表 ",
        }
    }

    /// Key hint for F2.
    pub fn settings_key_hint(&self) -> (res: &str)
        ensures
            res@ == pick(self.lang, "Settings "@, "设置 "@),
    {
        match self.lang {
            Lang::En => "Settings ",
            Lang::ZhCn => "设置 ",
        }
    }

    /// Arrow-key hint outside the lyrics panel.
    pub fn seek_hint(&self) -> (res: &str)
        ensures
            res@ == pick(self.lang, "←→:Seek ±5s"@, "←→:快进/退 5秒"@),
    {
        match self.lang {
            Lang::En => "←→:Seek ±5s",
            Lang::ZhCn => "←→:快进/退 5秒",
        }
    }

    /// Arrow-key hint in the lyrics panel.
    pub fn lyrics_scroll_hint(&self) -> (res: &str)
        ensures
            res@ == pick(self.lang, "←→:Scroll  Enter:Seek"@, "←→:滚动  Enter:跳转"@),
    {
        match self.lang {
            Lang::En => "←→:Scroll  Enter:Seek",
            Lang::ZhCn => "←→:滚动  Enter:跳转",
        }
    }

    /// Enter hint in the library.
    pub fn enter_add(&self) -> (res: &str)
        ensures
            res@ == pick(self.lang, "Add"@, "添加"@),
    {
        match self.lang {
            Lang::En => "Add",
            Lang::ZhCn => "添加",
        }
    }

    /// Enter hint in the playlist.
    pub fn enter_play(&self) -> (res: &str)
        ensures
            res@ == pick(self.lang, "Play"@, "播放"@),
    {
        match self.lang {
            Lang::En => "Play",
            Lang::ZhCn => "播放",
        }
    }

    /// Enter hint in the lyrics panel.
    pub fn enter_seek(&self) -> (res: &str)
        ensures
            res@ == pick(self.lang, "Seek"@, "跳转"@),
    {
        match self.lang {
            Lang::En => "Seek",
            Lang::ZhCn => "跳转",
        }
    }

    /// Title of the playlist panel with its number of tracks.
    pub fn playlist_title(&self, count: usize) -> (res: String)
        ensures
            res@ == pick(self.lang, " Playlist ("@ + decimal(count as nat) + " tracks) "@,
                " 播放列表 ("@ + decimal(count as nat) + " 首) "@),
    {
        match self.lang {
            Lang::En => counted_text(" Playlist (", count, " tracks) "),
            Lang::ZhCn => counted_text(" 播放列表 (", count, " 首) "),
        }
    }

    /// Title of the library panel with its number of tracks.
    pub fn library_title(&self, count: usize) -> (res: String)
        ensures
            res@ == pick(self.lang, " Library ("@ + decimal(count as nat) + " tracks) "@,
                " 音乐库 ("@ + decimal(count as nat) + " 首) "@),
    {
        match self.lang {
            Lang::En => counted_text(" Library (", count, " tracks) "),
            Lang::ZhCn => counted_text(" 音乐库 (", count, " 首) "),
        }
    }

    /// Title of the music folder list with its length.
    pub fn music_folders_title(&self, count: usize) -> (res: String)
        ensures
            res@ == pick(self.lang, " Music Folders ("@ + decimal(count as nat) + ") "@,
                " 音乐文件夹 ("@ + decimal(count as nat) + ") "@),
    {
        match self.lang {
            Lang::En => counted_text(" Music Folders (", count, ") "),
            Lang::ZhCn => counted_text(" 音乐文件夹 (", count, ") "),
        }
    }

    /// Title of the XSPF list with its length.
    pub fn xspf_playlists_title(&self, count: usize) -> (res: String)
        ensures
            res@ == pick(self.lang, " XSPF Playlists ("@ + decimal(count as nat) + ") "@,
                " XSPF 播放列表 ("@ + decimal(count as nat) + ") "@),
    {
        match self.lang {
            Lang::En => counted_text(" XSPF Playlists (", count, ") "),
            Lang::ZhCn => counted_text(" XSPF 播放列表 (", count, ") "),
        }
    }

    /// Status message after a rescan, with the number of tracks.
    pub fn msg_rescanned(&self, count: usize) -> (res: String)
        ensures
            res@ == pick(self.lang, "Rescanned: "@ + decimal(count as nat) + " tracks"@,
                "已重新扫描: "@ + decimal(count as nat) + " 首"@),
    {
        match self.lang {
            Lang::En => counted_text("Rescanned: ", count, " tracks"),
            Lang::ZhCn => counted_text("已重新扫描: ", count, " 首"),
        }
    }

    /// Title of the playlist panel while a named playlist is shown.
    pub fn playlist_title_named(&self, name: &str, count: usize) -> (res: String)
        ensures
            res@ == " "@ + name@ + pick(self.lang, " ("@ + decimal(count as nat) + " tracks) "@,
                " ("@ + decimal(count as nat) + " 首) "@),
    {
        let mut s = copy_str(" ");
        push_str(&mut s, name);
        let tail = match self.lang {
            Lang::En => counted_text(" (", count, " tracks) "),
            Lang::ZhCn => counted_text(" (", count, " 首) "),
        };
        let ghost s0 = s@;
        push_str(&mut s, tail.as_str());
        assert(s@ =~= " "@ + name@ + tail@);
        s
    }

    /// Status message after switching to the named playlist `name`.
    pub fn playlist_switched(&self, name: &str) -> (res: String)
        ensures
            res@ == pick(self.lang, "Playlist: "@, "播放列表: "@) + name@,
    {
        let mut s = match self.lang {
            Lang::En => copy_str("Playlist: "),
            Lang::ZhCn => copy_str("播放列表: "),
        };
        push_str(&mut s, name);
        s
    }

    /// The short name of a play mode.
    pub fn mode_name(&self, mode: &PlayMode) -> (res: &str)
        ensures
            res@ == mode_text(self.lang, *mode),
    {
        match self.lang {
            Lang::En => match mode {
                PlayMode::Sequential => "Seq",
                PlayMode::Shuffle => "Shuffle",
                PlayMode::RepeatOne => "Repeat 1",
                PlayMode::RepeatAll => "Repeat All",
            },
            Lang::ZhCn => match mode {
                PlayMode::Sequential => "顺序",
                PlayMode::Shuffle => "随机",
                PlayMode::RepeatOne => "单曲循环",
                PlayMode::RepeatAll => "列表循环",
            },
        }
    }
}

/// The short name of play mode `m` in language `l`.
pub open spec fn mode_text(l: Lang, m: PlayMode) -> Seq<char> {
    match m {
        PlayMode::Sequential => pick(l, "Seq"@, "顺序"@),
        PlayMode::Shuffle => pick(l, "Shuffle"@, "随机"@),
        PlayMode::RepeatOne => pick(l, "Repeat 1"@, "单曲循环"@),
        PlayMode::RepeatAll => pick(l, "Repeat All"@, "列表循环"@),
    }
}

/// The language a locale string (such as the value of `LANG`) asks for: Chinese, the
/// default, where none is set (the string is empty) or where its lower-case form
/// starts with "zh" or holds "zh_cn" or "zh-cn"; else English.
pub open spec fn lang_of_env(value: Seq<char>) -> Lang {
    let l = lowercase(value);
    if value.len() == 0 {
        Lang::ZhCn
    } else if occurs_at(l, "zh"@, 0) || contains_sub(l, "zh_cn"@) || contains_sub(l, "zh-cn"@) {
        Lang::ZhCn
    } else {
        Lang::En
    }
}

/// The locale that an environment locale string selects (see `lang_of_env`).
/// The caller reads `LANG`, `LC_ALL` or `LC_MESSAGES` (the first that is set, else "").
pub fn detect_locale(env_value: &str) -> (res: Locale)
    ensures
        res.lang == lang_of_env(env_value@),
{
    if env_value.is_empty() {
        return Locale::zh_cn();
    }
    let lower = to_lowercase(env_value);
    let l = chars_of(lower.as_str());
    let zh = chars_of("zh");
    let zh_u = chars_of("zh_cn");
    let zh_h = chars_of("zh-cn");
    if crate::text::chars_occur_at(&l, &zh, 0) || chars_contain(&l, &zh_u) || chars_contain(&l, &zh_h) {
        Locale::zh_cn()
    } else {
        Locale::en()
    }
}

/// The locale a saved language setting names: "en" English, "zh" Chinese, anything else none.
pub fn locale_from_setting(setting: &Option<String>) -> (res: Option<Locale>)
    ensures
        res == (match setting {
            Some(s) => if s@ == "en"@ { Some(Locale { lang: Lang::En }) }
                else if s@ == "zh"@ { Some(Locale { lang: Lang::ZhCn }) } else { None },
            None => None,
        }),
{
    match setting {
        Some(s) => {
            if crate::text::str_eq(s.as_str(), "en") {
                Some(Locale::en())
            } else if crate::text::str_eq(s.as_str(), "zh") {
                Some(Locale::zh_cn())
            } else {
                None
            }
        },
        None => None,
    }
}

} // verus!
