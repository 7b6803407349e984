use tui_musicplayer::config::Config;
use tui_musicplayer::display::{format_duration, truncate, wrap_text};
use tui_musicplayer::locale::{detect_locale, locale_from_setting, Lang, Locale};
use tui_musicplayer::track::{is_audio_file, AudioMeta, PlayMode, Track};

const SEC: u128 = 1_000_000_000;

#[test]
fn play_mode_cycles_through_four_modes() {
    let m = PlayMode::Sequential;
    assert_eq!(m.next(), PlayMode::Shuffle);
    assert_eq!(m.next().next(), PlayMode::RepeatOne);
    assert_eq!(m.next().next().next(), PlayMode::RepeatAll);
    assert_eq!(m.next().next().next().next(), PlayMode::Sequential);
}

#[test]
fn track_from_path_takes_stem_and_upper_extension() {
    let t = Track::from_path("/music/My Song.mp3".to_string(), Some(2048));
    assert_eq!(t.title, "My Song");
    assert_eq!(t.format, "MP3");
    assert_eq!(t.artist, "");
    assert_eq!(t.file_size, Some(2048));
    assert!(t.duration_ns.is_none());
    assert!(t.bitrate.is_none());
    let n = Track::from_path("/music/noext".to_string(), None);
    assert_eq!(n.format, "?");
    assert_eq!(n.title, "noext");
}

#[test]
fn display_title_joins_artist_and_title() {
    let mut t = Track::from_path("/a/b.flac".to_string(), None);
    assert_eq!(t.display_title(), "b");
    t.artist = "Band".to_string();
    assert_eq!(t.display_title(), "Band - b");
    assert_eq!(t.file_stem(), "b");
}

#[test]
fn track_duration_text() {
    let mut t = Track::from_path("/a/b.ogg".to_string(), None);
    assert_eq!(t.format_duration(), "--:--");
    t.duration_ns = Some(125 * SEC + 999_999_999);
    assert_eq!(t.format_duration(), "02:05");
    t.duration_ns = Some(3600 * 2 * SEC);
    assert_eq!(t.format_duration(), "120:00");
}

#[test]
fn track_size_text_matches_one_decimal_formatting() {
    let mut t = Track::from_path("/a/b.ogg".to_string(), None);
    assert_eq!(t.format_size(), "?");
    t.file_size = Some(512);
    assert_eq!(t.format_size(), "512 B");
    t.file_size = Some(1536);
    assert_eq!(t.format_size(), "1.5 KB");
    t.file_size = Some(1280);
    assert_eq!(t.format_size(), "1.2 KB");
    t.file_size = Some(3 * 1024 * 1024 + 300 * 1024);
    assert_eq!(t.format_size(), "3.3 MB");
    for s in [1024u64, 1075, 1100, 2047, 5000, 99_999, 1_048_575, 1_048_576, 7_654_321, 123_456_789] {
        t.file_size = Some(s);
        let expected = if s < 1024 * 1024 {
            format!("{:.1} KB", s as f64 / 1024.0)
        } else {
            format!("{:.1} MB", s as f64 / (1024.0 * 1024.0))
        };
        assert_eq!(t.format_size(), expected, "size {}", s);
    }
}

#[test]
fn track_channels_text() {
    let mut t = Track::from_path("/a/b.ogg".to_string(), None);
    assert_eq!(t.format_channels(), "?");
    t.channels = Some(2);
    assert_eq!(t.format_channels(), "Stereo");
    t.channels = Some(1);
    assert_eq!(t.format_channels(), "Mono");
    t.channels = Some(6);
    assert_eq!(t.format_channels(), "6 ch");
}

#[test]
fn audio_files_are_recognised_by_extension() {
    assert!(is_audio_file("/x/a.mp3"));
    assert!(is_audio_file("/x/a.FLAC"));
    assert!(is_audio_file("song.Opus"));
    assert!(is_audio_file("b.aif"));
    assert!(!is_audio_file("/x/a.txt"));
    assert!(!is_audio_file("/x/noext"));
    assert!(!is_audio_file("/x/list.xspf"));
}

#[test]
fn duration_text_in_minutes_and_seconds() {
    assert_eq!(format_duration(0), "00:00");
    assert_eq!(format_duration(59 * SEC + 1), "00:59");
    assert_eq!(format_duration(61 * SEC), "01:01");
    assert_eq!(format_duration(100 * 60 * SEC), "100:00");
}

#[test]
fn truncate_cuts_with_ellipsis() {
    assert_eq!(truncate("abcdef", 4), "abc…");
    assert_eq!(truncate("abcd", 4), "abcd");
    assert_eq!(truncate("", 0), "");
    assert_eq!(truncate("音乐播放器", 3), "音…");
}

#[test]
fn truncate_counts_terminal_columns() {
    // wide characters take two columns each
    assert_eq!(truncate("音乐音乐", 4), "音…");
    assert_eq!(truncate("音乐", 4), "音乐");
    assert_eq!(truncate("a音乐", 4), "a音…");
    assert_eq!(truncate("ééé", 3), "ééé");
}

#[test]
fn wrap_text_breaks_at_spaces_or_width() {
    assert_eq!(wrap_text("hello world foo", 5), vec!["hello", "world", "foo"]);
    assert_eq!(wrap_text("ab cd ef", 5), vec!["ab", "cd ef"]);
    assert_eq!(wrap_text("short", 10), vec!["short"]);
    assert_eq!(wrap_text("anything", 0), vec!["anything"]);
    assert_eq!(wrap_text("", 4), Vec::<String>::new());
}

#[test]
fn wrap_text_counts_terminal_columns() {
    assert_eq!(wrap_text("音乐音乐", 4), vec!["音乐", "音乐"]);
    assert_eq!(wrap_text("ééé", 2), vec!["éé", "é"]);
    assert_eq!(wrap_text("我爱\u{3000}音乐", 5), vec!["我爱", "音乐"]);
    // a character wider than the row gets a row of its own
    assert_eq!(wrap_text("音乐", 1), vec!["音", "乐"]);
}

#[test]
fn wrapped_rows_fit_the_width() {
    let rows = wrap_text("a bb ccc dddd eeeee ffffff", 4);
    for r in &rows {
        assert!(r.chars().count() <= 4, "row {:?}", r);
    }
    assert_eq!(rows.concat().replace(' ', ""), "abbcccddddeeeeeffffff");
}

#[test]
fn locale_texts_in_both_languages() {
    let en = Locale::en();
    let zh = Locale::zh_cn();
    assert_eq!(en.lang(), Lang::En);
    assert_eq!(zh.lang(), Lang::ZhCn);
    assert_eq!(en.playing(), "Playing");
    assert_eq!(zh.playing(), "播放中");
    assert_eq!(en.library_title(5), " Library (5 tracks) ");
    assert_eq!(zh.playlist_title(3), " 播放列表 (3 首) ");
    assert_eq!(en.playlist_title_named("Rock", 2), " Rock (2 tracks) ");
    assert_eq!(en.msg_rescanned(12), "Rescanned: 12 tracks");
    assert_eq!(en.mode_name(&PlayMode::RepeatOne), "Repeat 1");
    assert_eq!(zh.mode_name(&PlayMode::Shuffle), "随机");
    assert_eq!(Locale::from_lang(Lang::ZhCn).lang(), Lang::ZhCn);
}

#[test]
fn locale_detection_from_environment() {
    assert_eq!(detect_locale("zh_CN.UTF-8").lang(), Lang::ZhCn);
    assert_eq!(detect_locale("ZH").lang(), Lang::ZhCn);
    assert_eq!(detect_locale("en_US.UTF-8").lang(), Lang::En);
    assert_eq!(detect_locale("").lang(), Lang::ZhCn);
    assert_eq!(locale_from_setting(&Some("zh".to_string())).map(|l| l.lang()), Some(Lang::ZhCn));
    assert_eq!(locale_from_setting(&Some("en".to_string())).map(|l| l.lang()), Some(Lang::En));
    assert!(locale_from_setting(&None).is_none());
}

#[test]
fn audio_meta_is_plain_data() {
    let m = AudioMeta { duration_ns: Some(3 * SEC), sample_rate: 44100, channels: 2 };
    let c = m;
    assert_eq!(c.sample_rate, 44100);
}

#[test]
fn settings_list_each_path_once() {
    let mut c = Config::new();
    assert!(c.add_music_folder("/m".to_string()));
    assert!(!c.add_music_folder("/m".to_string()));
    assert!(c.add_music_folder("/n".to_string()));
    assert_eq!(c.music_folders, vec!["/m".to_string(), "/n".to_string()]);
    assert!(c.add_xspf_playlist("/p.xspf".to_string()));
    assert!(!c.add_xspf_playlist("/p.xspf".to_string()));
    assert_eq!(c.xspf_playlists.len(), 1);
    let d = Config::default();
    assert!(d.music_folders.is_empty() && d.language.is_none() && d.audio_host.is_none());
}
