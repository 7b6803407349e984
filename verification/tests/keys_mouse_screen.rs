use tui_musicplayer::app::{App, Command, InputMode, Panel, PathPurpose, SettingsSection};
use tui_musicplayer::config::Config;
use tui_musicplayer::devices::{device_choice, device_entries, hosts_to_query, HostReport};
use tui_musicplayer::input::{edit_path, KeyCode, KeyInput, MouseInput, MouseKind};
use tui_musicplayer::loading::FileEntry;
use tui_musicplayer::locale::Locale;
use tui_musicplayer::nav::{centered_rect, move_list, select_at, ListSel, Position, Rect};
use tui_musicplayer::startup::SearchSource;
use tui_musicplayer::track::{AudioMeta, LyricLine, PlayMode, PlayerStatus};

const SEC: u128 = 1_000_000_000;

fn key(code: KeyCode) -> KeyInput {
    KeyInput { code, ctrl: false, release: false }
}

fn app3() -> App {
    let files = vec![
        FileEntry { path: "/m/a.mp3".to_string(), size: Some(2_000_000) },
        FileEntry { path: "/m/b.mp3".to_string(), size: Some(1536) },
        FileEntry { path: "/m/c.mp3".to_string(), size: None },
    ];
    let src = SearchSource {
        path: "/m".to_string(),
        one_time: false,
        is_dir: true,
        is_file: false,
        file_size: None,
        listed: None,
        scanned: Some(files),
    };
    App::new(vec![src], Config::new(), Locale::en())
}

fn press(app: &mut App, code: KeyCode) -> Vec<Command> {
    let k = key(code);
    assert!(app.key_is_safe(k));
    app.handle_key(k, 0)
}

#[test]
fn list_moves_stop_at_the_ends() {
    let mut s = ListSel::new();
    move_list(&mut s, 3, 1);
    assert_eq!(s.selected, Some(1));
    move_list(&mut s, 3, 10);
    assert_eq!(s.selected, Some(2));
    move_list(&mut s, 3, -5);
    assert_eq!(s.selected, Some(0));
    let mut e = ListSel::new();
    move_list(&mut e, 0, 1);
    assert_eq!(e.selected, None);
}

#[test]
fn clicks_select_the_row_under_the_mouse() {
    let area = Rect { x: 2, y: 5, width: 20, height: 10 };
    let mut s = ListSel { offset: 4, selected: None };
    select_at(&mut s, &area, 7, 10);
    assert_eq!(s.selected, Some(6));
    select_at(&mut s, &area, 14, 10);
    assert_eq!(s.selected, Some(6));
    assert!(area.contains(Position { x: 2, y: 5 }));
    assert!(!area.contains(Position { x: 22, y: 5 }));
    let c = centered_rect(Rect { x: 0, y: 0, width: 100, height: 40 }, 60, 5);
    assert_eq!(c, Rect { x: 20, y: 17, width: 60, height: 5 });
}

#[test]
fn released_keys_do_nothing() {
    let mut app = app3();
    let k = KeyInput { code: KeyCode::Char('q'), ctrl: false, release: true };
    assert!(app.handle_key(k, 0).is_empty());
    assert!(!app.should_quit);
}

#[test]
fn control_c_quits_and_other_control_keys_do_nothing() {
    let mut app = app3();
    let other = KeyInput { code: KeyCode::Char('m'), ctrl: true, release: false };
    assert!(app.handle_key(other, 0).is_empty());
    assert_eq!(app.play_mode, PlayMode::Sequential);
    let cc = KeyInput { code: KeyCode::Char('c'), ctrl: true, release: false };
    app.handle_key(cc, 0);
    assert!(app.should_quit);
}

#[test]
fn player_keys() {
    let mut app = app3();
    press(&mut app, KeyCode::Char('m'));
    assert_eq!(app.play_mode, PlayMode::Shuffle);
    press(&mut app, KeyCode::Tab);
    assert_eq!(app.focus, Panel::Lyrics);
    press(&mut app, KeyCode::Tab);
    assert_eq!(app.focus, Panel::Playlist);
    press(&mut app, KeyCode::Char('l'));
    assert!(app.library_visible);
    assert_eq!(app.focus, Panel::Library);
    press(&mut app, KeyCode::Down);
    assert_eq!(app.library_state.selected, Some(1));
    assert!(matches!(press(&mut app, KeyCode::Char('+')).as_slice(), [Command::VolumeUp]));
    assert!(matches!(press(&mut app, KeyCode::Char('-')).as_slice(), [Command::VolumeDown]));
    press(&mut app, KeyCode::Char('l'));
    assert!(!app.library_visible);
    assert_eq!(app.focus, Panel::Playlist);
    let c = press(&mut app, KeyCode::Char(' '));
    assert!(matches!(c.as_slice(), [Command::LoadTrack { lib_idx: 0, fade_in: false }]));
    assert!(matches!(press(&mut app, KeyCode::F(2)).as_slice(), []));
    assert!(app.show_settings);
}

#[test]
fn playlist_editing_keys() {
    let mut app = app3();
    press(&mut app, KeyCode::Char('d'));
    assert_eq!(app.playlist, vec![1, 2]);
    assert_eq!(app.playlist_state.selected, Some(0));
    press(&mut app, KeyCode::Char('l'));
    press(&mut app, KeyCode::Char('a'));
    assert_eq!(app.playlist, vec![1, 2, 0]);
    press(&mut app, KeyCode::Enter);
    assert_eq!(app.playlist, vec![1, 2, 0]);
    press(&mut app, KeyCode::Tab);
    press(&mut app, KeyCode::Down);
    press(&mut app, KeyCode::Down);
    press(&mut app, KeyCode::Down);
    assert_eq!(app.playlist_state.selected, Some(2));
    press(&mut app, KeyCode::Char('d'));
    assert_eq!(app.playlist, vec![1, 2]);
    assert_eq!(app.playlist_state.selected, Some(1));
}

#[test]
fn typing_a_folder_path_in_the_settings() {
    let mut app = app3();
    press(&mut app, KeyCode::F(2));
    press(&mut app, KeyCode::Tab);
    assert_eq!(app.settings_section, SettingsSection::Playlists);
    press(&mut app, KeyCode::Tab);
    press(&mut app, KeyCode::Char('a'));
    assert!(matches!(app.input_mode, InputMode::EnteringPath { purpose: PathPurpose::AddMusicFolder, .. }));
    press(&mut app, KeyCode::Char('é'));
    press(&mut app, KeyCode::Home);
    press(&mut app, KeyCode::Char('a'));
    press(&mut app, KeyCode::End);
    press(&mut app, KeyCode::Char('b'));
    if let InputMode::EnteringPath { buffer, cursor, .. } = &app.input_mode {
        assert_eq!(buffer, "aéb");
        assert_eq!(*cursor, 3);
    } else {
        panic!("still typing");
    }
    press(&mut app, KeyCode::Backspace);
    press(&mut app, KeyCode::Home);
    press(&mut app, KeyCode::Delete);
    press(&mut app, KeyCode::End);
    if let InputMode::EnteringPath { buffer, cursor, .. } = &app.input_mode {
        assert_eq!(buffer, "é");
        assert_eq!(*cursor, 1);
    } else {
        panic!("still typing");
    }
    let c = press(&mut app, KeyCode::Enter);
    assert!(matches!(c.as_slice(), [Command::AddMusicFolder { path }] if path == "é"));
    assert!(matches!(app.input_mode, InputMode::Normal));
    let r = press(&mut app, KeyCode::Enter);
    assert!(matches!(r.as_slice(), [Command::Rescan]));
}

#[test]
fn typing_then_backspace_gives_back_the_text() {
    let b = "añb".to_string();
    for cursor in [0usize, 1, 3, 4] {
        let (m, _) = edit_path(&b, cursor, PathPurpose::ImportXspf, KeyCode::Char('€'));
        if let InputMode::EnteringPath { buffer, cursor: c2, purpose } = m {
            let (back, cmds) = edit_path(&buffer, c2, purpose, KeyCode::Backspace);
            assert!(cmds.is_empty());
            match back {
                InputMode::EnteringPath { buffer, cursor: c3, .. } => {
                    assert_eq!(buffer, b);
                    assert_eq!(c3, cursor);
                }
                InputMode::Normal => panic!("left typing"),
            }
        } else {
            panic!("left typing");
        }
    }
}

#[test]
fn typing_after_a_multibyte_character() {
    let mut app = App::new(vec![], Config::new(), Locale::en());
    app.input_mode = InputMode::EnteringPath { buffer: String::new(), cursor: 0, purpose: PathPurpose::AddMusicFolder };
    press(&mut app, KeyCode::Char('é'));
    assert!(app.key_is_safe(key(KeyCode::Char('x'))));
    press(&mut app, KeyCode::Char('x'));
    match &app.input_mode {
        InputMode::EnteringPath { buffer, cursor, purpose: PathPurpose::AddMusicFolder } => {
            assert_eq!(buffer, "éx");
            assert_eq!(*cursor, 2);
        }
        _ => panic!("still typing"),
    }
    press(&mut app, KeyCode::Left);
    press(&mut app, KeyCode::Backspace);
    press(&mut app, KeyCode::Char('ñ'));
    match &app.input_mode {
        InputMode::EnteringPath { buffer, cursor, .. } => {
            assert_eq!(buffer, "ñx");
            assert_eq!(*cursor, 1);
        }
        _ => panic!("still typing"),
    }
}

#[test]
fn unsafe_edits_are_detected_before_handling() {
    let mut app = app3();
    app.input_mode = InputMode::EnteringPath { buffer: "é".to_string(), cursor: 1, purpose: PathPurpose::AddMusicFolder };
    assert!(app.key_is_safe(key(KeyCode::Char('x'))));
    assert!(app.key_is_safe(key(KeyCode::Delete)));
    assert!(app.key_is_safe(key(KeyCode::Backspace)));
    app.input_mode = InputMode::Normal;
    app.active_playlist_idx = Some(usize::MAX);
    assert!(!app.key_is_safe(key(KeyCode::Char('w'))));
}

#[test]
fn escape_cancels_typing() {
    let mut app = app3();
    app.input_mode = InputMode::EnteringPath { buffer: "abc".to_string(), cursor: 3, purpose: PathPurpose::ImportXspf };
    assert!(press(&mut app, KeyCode::Esc).is_empty());
    assert!(matches!(app.input_mode, InputMode::Normal));
    assert!(!app.should_quit);
}

#[test]
fn arrows_seek_or_scroll_the_lyrics() {
    let mut app = app3();
    app.current_index = Some(0);
    app.status = PlayerStatus::Playing;
    app.elapsed_ns = 10 * SEC;
    let c = press(&mut app, KeyCode::Left);
    assert!(matches!(c.as_slice(), [Command::SeekLoad { lib_idx: 0, skip_ns }] if *skip_ns == 5 * SEC));
    app.focus = Panel::Lyrics;
    app.lyrics = vec![
        LyricLine { timestamp_ns: SEC, text: "one".to_string() },
        LyricLine { timestamp_ns: 2 * SEC, text: "two".to_string() },
    ];
    app.lyric_line_map = vec![0, 0, 1, 1, 1, 1, 1, 1];
    press(&mut app, KeyCode::Right);
    assert_eq!(app.lyrics_state.selected, Some(5));
    press(&mut app, KeyCode::Right);
    assert_eq!(app.lyrics_state.selected, Some(7));
    let e = press(&mut app, KeyCode::Enter);
    assert!(matches!(e.as_slice(), [Command::SeekLoad { lib_idx: 0, skip_ns }] if *skip_ns == 2 * SEC));
    assert_eq!(app.current_lyric_index, Some(1));
}

#[test]
fn mouse_clicks_play_seek_and_set_volume() {
    let mut app = app3();
    app.playlist_inner = Rect { x: 1, y: 2, width: 30, height: 10 };
    let click = MouseInput { kind: MouseKind::LeftDown, column: 5, row: 4 };
    assert!(app.mouse_is_safe(click));
    let c = app.handle_mouse(click);
    assert!(matches!(c.as_slice(), [Command::LoadTrack { lib_idx: 2, fade_in: false }]));
    assert_eq!(app.playlist_state.selected, Some(2));
    app.current_index = Some(2);
    app.status = PlayerStatus::Playing;
    app.duration_ns = Some(200 * SEC);
    app.progress_area = Rect { x: 10, y: 30, width: 100, height: 1 };
    let seek = app.handle_mouse(MouseInput { kind: MouseKind::LeftDown, column: 35, row: 30 });
    assert!(matches!(seek.as_slice(), [Command::SeekLoad { lib_idx: 2, skip_ns }] if *skip_ns == 50 * SEC));
    app.volume_area = Rect { x: 16, y: 31, width: 18, height: 1 };
    let vol = app.handle_mouse(MouseInput { kind: MouseKind::LeftDrag, column: 25, row: 31 });
    assert!(matches!(vol.as_slice(), [Command::SetVolumeFraction { num: 9, den: 18 }]));
    let down = MouseInput { kind: MouseKind::ScrollDown, column: 5, row: 4 };
    app.playlist_state.selected = Some(0);
    app.handle_mouse(down);
    assert_eq!(app.playlist_state.selected, Some(2));
    app.handle_mouse(MouseInput { kind: MouseKind::ScrollUp, column: 5, row: 4 });
    assert_eq!(app.playlist_state.selected, Some(0));
    assert_eq!(app.focus, Panel::Playlist);
}

#[test]
fn screen_rows_and_titles() {
    let mut app = app3();
    app.playlist = vec![2, 0];
    assert_eq!(app.library_rows(), vec!["✓  1. a", "   2. b", "✓  3. c"]);
    app.current_index = Some(0);
    app.status = PlayerStatus::Paused;
    assert!(app.playlist_is_consistent());
    assert_eq!(app.playlist_rows(), vec!["  1. c", "⏸ 2. a"]);
    assert_eq!(app.playlist_heading(), " Playlist (2 tracks) ");
    app.playlist = vec![7];
    assert!(!app.playlist_is_consistent());
}

#[test]
fn the_track_card() {
    let mut app = app3();
    assert!(app.now_playing().is_none());
    let meta = AudioMeta { duration_ns: Some(65 * SEC), sample_rate: 44100, channels: 2 };
    app.finish_load_track(0, false, None, Ok(meta), 0);
    let (title, sub, badge) = app.now_playing().unwrap();
    assert_eq!(title, "a");
    assert_eq!(sub, "a");
    assert_eq!(badge, "MP3 · 246 kbps · 44100 Hz · 1.9 MB │ 01:05");
}

#[test]
fn the_player_bar() {
    let mut app = app3();
    assert_eq!(app.status_text(), "■ Stopped");
    assert_eq!(app.position_text(), "-/-");
    assert_eq!(app.time_text(), " 00:00 / --:-- ");
    assert_eq!(app.progress_text(40), "░".repeat(10));
    app.current_index = Some(1);
    app.status = PlayerStatus::Playing;
    app.duration_ns = Some(100 * SEC);
    app.elapsed_ns = 25 * SEC;
    assert_eq!(app.status_text(), "▶ Playing");
    assert_eq!(app.position_text(), "2/3");
    assert_eq!(app.time_text(), " 00:25 / 01:40 ");
    assert_eq!(app.progress_text(70), format!("{}{}", "█".repeat(5), "░".repeat(15)));
    app.elapsed_ns = 300 * SEC;
    assert_eq!(app.progress_text(70), "█".repeat(20));
    assert_eq!(app.arrows_text(), "←→:Seek ±5s");
    app.focus = Panel::Lyrics;
    assert_eq!(app.arrows_text(), "←→:Scroll  Enter:Seek");
}

#[test]
fn the_key_hints() {
    let mut app = app3();
    let hints = app.key_hints();
    assert_eq!(hints.len(), 13);
    assert_eq!(hints[1], (" Enter ".to_string(), "Play  ".to_string()));
    assert_eq!(hints[12], (" Q ".to_string(), "Quit".to_string()));
    app.show_settings = true;
    let s = app.key_hints();
    assert_eq!(s.len(), 7);
    assert_eq!(s[1], (" A ".to_string(), "Add folder  ".to_string()));
    assert_eq!(s[6], (" Esc ".to_string(), "Back".to_string()));
}

#[test]
fn the_settings_page_and_prompt() {
    let mut app = app3();
    assert_eq!(app.folder_rows(), vec!["/m".to_string()]);
    assert!(app.xspf_rows().is_empty());
    assert_eq!(app.language_line(), " Language: English  |  L Toggle language");
    assert!(app.prompt_lines().is_none());
    app.input_mode = InputMode::EnteringPath { buffer: "añb".to_string(), cursor: 1, purpose: PathPurpose::ImportXspf };
    let (q, t, h) = app.prompt_lines().unwrap();
    assert_eq!(q, " XSPF file path: ");
    assert_eq!(t, "> a█ñb");
    app.input_mode = InputMode::EnteringPath { buffer: "añb".to_string(), cursor: 2, purpose: PathPurpose::ImportXspf };
    assert_eq!(app.prompt_lines().unwrap().1, "> añ█b");
    assert_eq!(h, " Enter: confirm  Esc: cancel");
    app.input_mode = InputMode::EnteringPath { buffer: "añb".to_string(), cursor: 4, purpose: PathPurpose::AddMusicFolder };
    assert_eq!(app.prompt_lines().unwrap().1, "> añb█");
}

#[test]
fn lyrics_are_wrapped_and_mapped_to_their_lines() {
    let mut app = app3();
    app.lyrics = vec![
        LyricLine { timestamp_ns: SEC, text: "hello world".to_string() },
        LyricLine { timestamp_ns: 2 * SEC, text: "x".to_string() },
    ];
    app.current_lyric_index = Some(1);
    let rows = app.layout_lyrics(9);
    assert_eq!(
        rows,
        vec![("hello".to_string(), false), ("world".to_string(), false), ("x".to_string(), true)]
    );
    assert_eq!(app.lyric_line_map, vec![0, 0, 1]);
}

#[test]
fn audio_devices_are_listed_by_host() {
    let hosts = hosts_to_query(vec!["ALSA".to_string()], "JACK".to_string());
    assert_eq!(hosts, vec!["ALSA".to_string(), "JACK".to_string()]);
    let same = hosts_to_query(vec!["ALSA".to_string()], "ALSA".to_string());
    assert_eq!(same, vec!["ALSA".to_string()]);
    let reports = vec![
        HostReport { host: "ALSA".to_string(), devices: Some(vec!["hw0".to_string(), "hw1".to_string()]), default_device: None },
        HostReport { host: "JACK".to_string(), devices: Some(vec![]), default_device: Some("system".to_string()) },
        HostReport { host: "Pulse".to_string(), devices: None, default_device: Some("x".to_string()) },
    ];
    let list = device_entries(&reports, Some("hw1"));
    assert_eq!(
        list,
        vec![
            ("ALSA".to_string(), "hw0".to_string(), false),
            ("ALSA".to_string(), "hw1".to_string(), true),
            ("JACK".to_string(), "system".to_string(), false),
        ]
    );
    assert_eq!(device_choice(Some("hw1")), Some("hw1".to_string()));
    assert_eq!(device_choice(Some("")), None);
    assert_eq!(device_choice(None), None);
}
