use tui_musicplayer::app::{App, Command, FadeAction, InputMode, Panel, PathPurpose, SettingsSection};
use tui_musicplayer::config::Config;
use tui_musicplayer::library::{contains_path, find_last_path, sorted_tracks};
use tui_musicplayer::loading::{scan_tracks, FileEntry};
use tui_musicplayer::locale::Locale;
use tui_musicplayer::startup::{search_paths, SearchSource};
use tui_musicplayer::track::{AudioMeta, PlayMode, PlayerStatus, Track};

const SEC: u128 = 1_000_000_000;
const MS: u128 = 1_000_000;

fn entry(p: &str) -> FileEntry {
    FileEntry { path: p.to_string(), size: Some(1000) }
}

fn folder(path: &str, files: &[&str]) -> SearchSource {
    SearchSource {
        path: path.to_string(),
        one_time: false,
        is_dir: true,
        is_file: false,
        file_size: None,
        listed: None,
        scanned: Some(files.iter().map(|f| entry(f)).collect()),
    }
}

fn playlist_file(path: &str, files: &[&str]) -> SearchSource {
    SearchSource {
        path: path.to_string(),
        one_time: false,
        is_dir: false,
        is_file: true,
        file_size: Some(10),
        listed: Some(files.iter().map(|f| entry(f)).collect()),
        scanned: None,
    }
}

fn paths(app: &App) -> Vec<String> {
    app.library.iter().map(|t| t.path.clone()).collect()
}

fn sample_app() -> App {
    App::new(
        vec![
            folder("/music", &["/music/b.mp3", "/music/A.flac", "/music/cover.jpg"]),
            playlist_file("/lists/Rock.xspf", &["/music/b.mp3", "/other/c.ogg", "/other/notes.txt"]),
        ],
        Config::new(),
        Locale::en(),
    )
}

#[test]
fn search_paths_prefer_command_line_then_settings_then_system_folder() {
    let mut cfg = Config::new();
    assert_eq!(search_paths(vec![], &cfg, "/home/me/Music".to_string()), vec!["/home/me/Music".to_string()]);
    cfg.music_folders.push("/m".to_string());
    cfg.xspf_playlists.push("/p.xspf".to_string());
    assert_eq!(search_paths(vec![], &cfg, "/sys".to_string()), vec!["/m".to_string(), "/p.xspf".to_string()]);
    assert_eq!(search_paths(vec!["/x.mp3".to_string()], &cfg, "/sys".to_string()), vec!["/x.mp3".to_string()]);
}

#[test]
fn scanning_keeps_audio_files_sorted_by_stem() {
    let files = vec![entry("/m/zeta.mp3"), entry("/m/Alpha.FLAC"), entry("/m/readme.md"), entry("/m/beta.ogg")];
    let tracks = scan_tracks(&files);
    let names: Vec<String> = tracks.iter().map(|t| t.title.clone()).collect();
    assert_eq!(names, vec!["Alpha", "beta", "zeta"]);
}

#[test]
fn sorting_is_stable_for_equal_keys() {
    let v = vec![
        Track::from_path("/x/Same.mp3".to_string(), None),
        Track::from_path("/a/aaa.mp3".to_string(), None),
        Track::from_path("/y/same.flac".to_string(), None),
    ];
    let s = sorted_tracks(&v);
    let p: Vec<String> = s.iter().map(|t| t.path.clone()).collect();
    assert_eq!(p, vec!["/a/aaa.mp3", "/x/Same.mp3", "/y/same.flac"]);
}

#[test]
fn path_lookup_finds_last_position() {
    let v = vec![
        Track::from_path("/a.mp3".to_string(), None),
        Track::from_path("/b.mp3".to_string(), None),
        Track::from_path("/a.mp3".to_string(), None),
    ];
    assert_eq!(find_last_path(&v, "/a.mp3"), Some(2));
    assert_eq!(find_last_path(&v, "/c.mp3"), None);
    assert!(contains_path(&v, "/b.mp3"));
    assert!(!contains_path(&v, "/z.mp3"));
}

#[test]
fn startup_builds_library_playlists_and_settings() {
    let app = sample_app();
    assert_eq!(paths(&app), vec!["/music/A.flac", "/music/b.mp3", "/other/c.ogg"]);
    assert_eq!(app.playlist, vec![0, 1, 2]);
    assert_eq!(app.library_state.selected, Some(0));
    assert_eq!(app.playlist_state.selected, Some(0));
    assert_eq!(app.saved_playlists.len(), 1);
    assert_eq!(app.saved_playlists[0].0, "Rock");
    assert_eq!(app.saved_playlists[0].1, vec![1, 2]);
    assert_eq!(app.config.music_folders, vec!["/music".to_string()]);
    assert_eq!(app.settings_folder_state.selected, Some(0));
    assert_eq!(app.settings_xspf_state.selected, None);
    assert_eq!(app.status, PlayerStatus::Stopped);
    assert_eq!(app.focus, Panel::Playlist);
    assert!(!app.library_visible);
    assert_eq!(app.library_count(), 3);
    assert_eq!(app.playlist_count(), 3);
}

#[test]
fn startup_with_nothing_found_is_empty() {
    let app = App::new(vec![], Config::new(), Locale::zh_cn());
    assert!(app.library.is_empty());
    assert_eq!(app.library_state.selected, None);
    assert!(app.config.music_folders.is_empty());
    assert!(app.current_track().is_none());
    assert_eq!(app.current_playlist_position(), None);
}

#[test]
fn startup_takes_a_single_audio_file() {
    let src = SearchSource {
        path: "/d/song.MP3".to_string(),
        one_time: false,
        is_dir: false,
        is_file: true,
        file_size: Some(77),
        listed: None,
        scanned: None,
    };
    let app = App::new(vec![src], Config::new(), Locale::en());
    assert_eq!(paths(&app), vec!["/d/song.MP3"]);
    assert_eq!(app.library[0].file_size, Some(77));
    assert!(app.config.music_folders.is_empty());
}

#[test]
fn adding_a_folder_merges_and_saves() {
    let mut app = sample_app();
    let cmds = app.add_music_folder(
        "/new".to_string(),
        true,
        Some(vec![entry("/new/0first.mp3"), entry("/music/b.mp3")]),
    );
    assert!(matches!(cmds.as_slice(), [Command::SaveConfig]));
    assert_eq!(app.config.music_folders, vec!["/music".to_string(), "/new".to_string()]);
    assert_eq!(paths(&app), vec!["/new/0first.mp3", "/music/A.flac", "/music/b.mp3", "/other/c.ogg"]);
    assert_eq!(app.playlist, vec![0, 1, 2, 3]);
    assert_eq!(app.status_message, "Music folder added");
    let again = app.add_music_folder("/new".to_string(), true, Some(vec![entry("/new/x.mp3")]));
    assert!(again.is_empty());
    assert_eq!(app.library.len(), 4);
    let missing = app.add_music_folder("/nope".to_string(), false, None);
    assert!(missing.is_empty());
    assert_eq!(app.status_message, "Path not found");
}

#[test]
fn adding_tracks_twice_changes_nothing() {
    let mut app = sample_app();
    let tracks = vec![Track::from_path("/z/new.mp3".to_string(), None)];
    app.merge_tracks(&tracks);
    let once = paths(&app);
    app.merge_tracks(&tracks);
    assert_eq!(paths(&app), once);
    assert_eq!(once.len(), 4);
}

#[test]
fn importing_a_playlist_file() {
    let mut app = sample_app();
    let not_xspf = app.import_xspf_file("/l/list.m3u".to_string(), true, Ok(vec![]));
    assert!(not_xspf.is_empty());
    assert_eq!(app.status_message, "Not an .xspf file");
    let missing = app.import_xspf_file("/l/gone.xspf".to_string(), false, Ok(vec![]));
    assert!(missing.is_empty());
    assert_eq!(app.status_message, "Path not found");
    let cmds = app.import_xspf_file(
        "/l/Chill.xspf".to_string(),
        true,
        Ok(vec![entry("/c/x.mp3"), entry("/c/x.mp3"), entry("/music/A.flac"), entry("/c/doc.pdf")]),
    );
    assert!(matches!(cmds.as_slice(), [Command::SaveConfig]));
    assert_eq!(app.config.xspf_playlists, vec!["/l/Chill.xspf".to_string()]);
    assert_eq!(app.settings_xspf_state.selected, Some(0));
    let last = app.saved_playlists.last().unwrap();
    assert_eq!(last.0, "Chill");
    let p = paths(&app);
    assert_eq!(p.iter().filter(|x| x.as_str() == "/c/x.mp3").count(), 2);
    let x_last = p.iter().rposition(|x| x == "/c/x.mp3").unwrap();
    let a = p.iter().position(|x| x == "/music/A.flac").unwrap();
    assert_eq!(last.1, vec![x_last, x_last, a]);
    assert_eq!(app.status_message, "Playlist imported");
    let dup = app.import_xspf_file("/l/Chill.xspf".to_string(), true, Ok(vec![]));
    assert!(dup.is_empty());
    assert_eq!(app.config.xspf_playlists.len(), 1);
}

#[test]
fn importing_a_broken_playlist_lists_it_without_saving() {
    let mut app = sample_app();
    let cmds = app.import_xspf_file("/l/bad.xspf".to_string(), true, Err("Invalid XML in: /l/bad.xspf".to_string()));
    assert!(cmds.is_empty());
    assert_eq!(app.status_message, "XSPF error: Invalid XML in: /l/bad.xspf");
    assert_eq!(app.config.xspf_playlists, vec!["/l/bad.xspf".to_string()]);
    assert_eq!(app.saved_playlists.len(), 1);
}

#[test]
fn rescanning_rebuilds_the_library() {
    let mut app = sample_app();
    app.current_index = Some(1);
    let folders = vec![Some(vec![entry("/music/b.mp3"), entry("/music/b.mp3"), entry("/music/d.wav")]), None];
    let lists = vec![Some(vec![entry("/music/d.wav"), entry("/e/e.mp3")])];
    let cmds = app.rescan_all(5 * SEC, &folders, &lists);
    assert!(matches!(cmds.as_slice(), [Command::PlayerStop]));
    assert_eq!(paths(&app), vec!["/music/b.mp3", "/music/d.wav", "/e/e.mp3"]);
    assert_eq!(app.playlist, vec![0, 1, 2]);
    assert_eq!(app.current_index, None);
    assert_eq!(app.status_message, "Rescanned: 3 tracks");
    // the named playlist keeps the files still there: b.mp3 stays, c.ogg is gone
    assert_eq!(app.saved_playlists[0].0, "Rock");
    assert_eq!(app.saved_playlists[0].1, vec![0]);
    let empty = app.rescan_all(6 * SEC, &vec![], &vec![]);
    assert!(matches!(empty.as_slice(), [Command::PlayerStop]));
    assert!(app.library.is_empty());
    assert_eq!(app.playlist_state.selected, None);
    assert!(app.saved_playlists[0].1.is_empty());
}

#[test]
fn adding_a_folder_keeps_named_playlists_and_the_current_track_on_their_files() {
    let mut app = sample_app();
    app.current_index = Some(1);
    assert_eq!(app.library[1].path, "/music/b.mp3");
    app.add_music_folder("/new".to_string(), true, Some(vec![entry("/new/0first.mp3")]));
    assert_eq!(paths(&app), vec!["/new/0first.mp3", "/music/A.flac", "/music/b.mp3", "/other/c.ogg"]);
    assert_eq!(app.current_index, Some(2));
    assert_eq!(app.playlist_state.selected, Some(2));
    assert_eq!(app.saved_playlists[0].1, vec![2, 3]);
    let named: Vec<&str> = app.saved_playlists[0].1.iter().map(|&i| app.library[i].path.as_str()).collect();
    assert_eq!(named, vec!["/music/b.mp3", "/other/c.ogg"]);
}

#[test]
fn merging_and_rescanning_keep_the_active_named_playlist() {
    let mut app = sample_app();
    app.active_playlist_idx = Some(0);
    app.saved_playlists[0].1.push(9);
    app.merge_tracks(&vec![Track::from_path("/new/0first.mp3".to_string(), None)]);
    assert_eq!(app.active_playlist_idx, Some(0));
    // entries follow their files; one past the library's end stays as it was
    assert_eq!(app.saved_playlists[0].1, vec![2, 3, 9]);
    app.rescan_all(SEC, &vec![Some(vec![entry("/music/b.mp3")])], &vec![]);
    assert_eq!(app.active_playlist_idx, Some(0));
    assert_eq!(app.saved_playlists[0].1, vec![0]);
}

#[test]
fn shuffle_picks_differ_between_generator_states() {
    let mut app = sample_app();
    app.current_index = Some(0);
    app.play_mode = PlayMode::Shuffle;
    app.seed_shuffle(11066951453180645397);
    assert_eq!(app.compute_next_lib_index(), Some(1));
    app.seed_shuffle(14714348890532040725);
    assert_eq!(app.compute_next_lib_index(), Some(2));
}

#[test]
fn one_time_places_are_not_remembered() {
    let mut src = folder("/tmp/album", &["/tmp/album/a.mp3"]);
    src.one_time = true;
    let app = App::new(vec![src], Config::new(), Locale::en());
    assert_eq!(paths(&app), vec!["/tmp/album/a.mp3"]);
    assert!(app.config.music_folders.is_empty());
    let kept = App::new(vec![folder("/home/me/Music", &[])], Config::new(), Locale::en());
    assert_eq!(kept.config.music_folders, vec!["/home/me/Music".to_string()]);
}

#[test]
fn shuffle_plays_another_track_drawn_at_random() {
    let mut app = sample_app();
    app.current_index = Some(0);
    app.play_mode = PlayMode::Shuffle;
    let mut seen = std::collections::HashSet::new();
    for seed in 0..40u64 {
        app.seed_shuffle(seed);
        let next = app.compute_next_lib_index().unwrap();
        assert_ne!(next, 0);
        assert!(next < 3);
        seen.insert(next);
    }
    assert_eq!(seen.len(), 2);
    app.seed_shuffle(7);
    app.status = PlayerStatus::Playing;
    let first = app.compute_next_lib_index();
    let c = app.next_track(SEC);
    assert!(matches!(c.as_slice(), [Command::StartFade { fade_in: false }]));
    assert_eq!(app.fade.unwrap().action, FadeAction::LoadTrack(first.unwrap()));
    assert_ne!(app.shuffle_state, 7);
    // one track only: nothing else to play
    app.playlist = vec![0];
    assert_eq!(app.compute_next_lib_index(), None);
}

#[test]
fn lyrics_selection_follows_whether_lyrics_were_read() {
    let mut app = sample_app();
    let meta = AudioMeta { duration_ns: Some(10 * SEC), sample_rate: 44100, channels: 2 };
    app.finish_load_track(0, false, None, Ok(meta), 0);
    assert!(app.lyrics.is_empty());
    assert_eq!(app.current_lyric_index, None);
    assert_eq!(app.lyrics_state.selected, None);
    app.finish_load_track(1, false, Some("[00:01]one".to_string()), Ok(meta), 0);
    assert_eq!(app.lyrics.len(), 1);
    assert_eq!(app.lyrics_state.selected, Some(0));
}

#[test]
fn playing_loads_then_runs() {
    let mut app = sample_app();
    let cmds = app.play_selected();
    assert!(matches!(cmds.as_slice(), [Command::LoadTrack { lib_idx: 0, fade_in: false }]));
    let meta = AudioMeta { duration_ns: Some(200 * SEC), sample_rate: 44100, channels: 2 };
    let done = app.finish_load_track(0, false, Some("[00:01.00]one\n[00:05.00]five".to_string()), Ok(meta), 10 * SEC);
    assert!(matches!(done.as_slice(), [Command::PlayerPlay, Command::ApplyVolume]));
    assert_eq!(app.status, PlayerStatus::Playing);
    assert_eq!(app.current_index, Some(0));
    assert_eq!(app.duration_ns, Some(200 * SEC));
    assert_eq!(app.library[0].sample_rate, Some(44100));
    assert_eq!(app.library[0].bitrate, Some(0));
    assert_eq!(app.lyrics.len(), 2);
    let tick = app.update(16 * SEC, false);
    assert!(tick.is_empty());
    assert_eq!(app.elapsed_ns, 6 * SEC);
    assert_eq!(app.current_lyric_index, Some(1));
}

#[test]
fn a_failed_load_reports_the_error() {
    let mut app = sample_app();
    let cmds = app.finish_load_track(1, true, None, Err("Unsupported audio format".to_string()), 0);
    assert!(cmds.is_empty());
    assert_eq!(app.status_message, "Error: Unsupported audio format");
    assert_eq!(app.status, PlayerStatus::Stopped);
    assert!(app.lyrics.is_empty());
}

#[test]
fn pausing_fades_out_then_pauses() {
    let mut app = sample_app();
    let meta = AudioMeta { duration_ns: None, sample_rate: 48000, channels: 1 };
    app.finish_load_track(0, false, None, Ok(meta), 0);
    let c = app.toggle_pause(2 * SEC);
    assert!(matches!(c.as_slice(), [Command::StartFade { fade_in: false }]));
    assert!(app.update_fade(2 * SEC + 100 * MS).is_empty());
    let end = app.update_fade(2 * SEC + 250 * MS);
    assert!(matches!(end.as_slice(), [Command::EndFade, Command::PlayerPause]));
    assert_eq!(app.status, PlayerStatus::Paused);
    assert_eq!(app.accumulated_ns, 2 * SEC + 250 * MS);
    let resume = app.toggle_pause(3 * SEC);
    assert!(matches!(resume.as_slice(), [Command::PlayerPlay, Command::StartFade { fade_in: true }]));
    assert_eq!(app.status, PlayerStatus::Playing);
}

#[test]
fn next_and_previous_follow_the_play_mode() {
    let mut app = sample_app();
    app.current_index = Some(2);
    app.status = PlayerStatus::Playing;
    assert_eq!(app.compute_next_lib_index(), None);
    app.play_mode = PlayMode::RepeatAll;
    assert_eq!(app.compute_next_lib_index(), Some(0));
    app.play_mode = PlayMode::RepeatOne;
    assert_eq!(app.compute_next_lib_index(), Some(2));
    app.play_mode = PlayMode::Sequential;
    assert_eq!(app.compute_prev_lib_index(), Some(1));
    app.elapsed_ns = 4 * SEC;
    assert_eq!(app.compute_prev_lib_index(), Some(2));
    let c = app.next_track(SEC);
    assert!(c.is_empty());
    let p = app.prev_track(SEC);
    assert!(matches!(p.as_slice(), [Command::StartFade { fade_in: false }]));
    assert_eq!(app.fade.unwrap().action, FadeAction::LoadTrack(2));
    let end = app.update_fade(SEC + 200 * MS);
    assert!(matches!(end.as_slice(), [Command::EndFade, Command::PlayerStop, Command::LoadTrack { lib_idx: 2, fade_in: true }]));
}

#[test]
fn seeking_stays_within_the_track() {
    let mut app = sample_app();
    assert!(app.seek(true).is_empty());
    app.current_index = Some(0);
    app.status = PlayerStatus::Playing;
    app.duration_ns = Some(7 * SEC);
    app.elapsed_ns = 4 * SEC;
    let c = app.seek(true);
    assert!(matches!(c.as_slice(), [Command::SeekLoad { lib_idx: 0, skip_ns }] if *skip_ns == 7 * SEC));
    let b = app.seek(false);
    assert!(matches!(b.as_slice(), [Command::SeekLoad { lib_idx: 0, skip_ns }] if *skip_ns == 2 * SEC));
    let ok = app.finish_seek(Ok(()), 9 * SEC);
    assert!(matches!(ok.as_slice(), [Command::PlayerPlay]));
    let bad = app.finish_seek(Err("boom".to_string()), 9 * SEC);
    assert!(bad.is_empty());
    assert_eq!(app.status_message, "Seek error: boom");
}

#[test]
fn stopping_and_quitting() {
    let mut app = sample_app();
    let s = app.stop(0);
    assert!(matches!(s.as_slice(), [Command::PlayerStop]));
    let q = app.request_quit(0);
    assert!(q.is_empty());
    assert!(app.should_quit);
    let mut playing = sample_app();
    playing.status = PlayerStatus::Playing;
    let f = playing.request_quit(SEC);
    assert!(matches!(f.as_slice(), [Command::StartFade { fade_in: false }]));
    let end = playing.update_fade(SEC + 300 * MS);
    assert!(matches!(end.as_slice(), [Command::EndFade, Command::PlayerStop]));
    assert!(playing.should_quit);
}

#[test]
fn a_finished_track_advances() {
    let mut app = sample_app();
    let meta = AudioMeta { duration_ns: Some(3 * SEC), sample_rate: 44100, channels: 2 };
    app.finish_load_track(0, false, None, Ok(meta), 0);
    let c = app.update(5 * SEC, true);
    assert!(matches!(c.as_slice(), [Command::StartFade { fade_in: false }]));
    assert_eq!(app.elapsed_ns, 3 * SEC);
    assert_eq!(app.fade.unwrap().action, FadeAction::LoadTrack(1));
}

#[test]
fn switching_named_playlists_cycles_back_to_all_tracks() {
    let mut app = sample_app();
    let c = app.cycle_playlist(0);
    assert!(matches!(c.as_slice(), [Command::PlayerStop]));
    assert_eq!(app.active_playlist_idx, Some(0));
    assert_eq!(app.playlist, vec![1, 2]);
    assert_eq!(app.status_message, "Playlist: Rock");
    app.cycle_playlist(0);
    assert_eq!(app.active_playlist_idx, None);
    assert_eq!(app.playlist, vec![0, 1, 2]);
    assert_eq!(app.status_message, "Playlist: All Tracks");
    let mut none = App::new(vec![], Config::new(), Locale::en());
    assert!(none.cycle_playlist(0).is_empty());
    assert_eq!(none.status_message, "No saved playlists — import .xspf in Settings (F2)");
}

#[test]
fn settings_language_and_removal() {
    let mut app = sample_app();
    let c = app.toggle_language();
    assert!(matches!(c.as_slice(), [Command::SaveConfig]));
    assert_eq!(app.config.language, Some("zh".to_string()));
    assert_eq!(app.status_message, "语言: 中文");
    app.toggle_language();
    assert_eq!(app.config.language, Some("en".to_string()));
    app.toggle_settings();
    assert!(app.show_settings);
    assert_eq!(app.status_message, "");
    app.settings_section = SettingsSection::Folders;
    let r = app.remove_settings_item();
    assert!(matches!(r.as_slice(), [Command::SaveConfig]));
    assert!(app.config.music_folders.is_empty());
    assert_eq!(app.settings_folder_state.selected, None);
    assert!(app.remove_settings_item().is_empty());
    app.toggle_settings();
    assert!(!app.show_settings);
}

#[test]
fn input_mode_starts_normal() {
    let app = sample_app();
    assert!(matches!(app.input_mode, InputMode::Normal));
    let _ = PathPurpose::AddMusicFolder;
}

#[test]
fn rescanning_the_configured_sources_gives_the_startup_library() {
    let mut app = sample_app();
    let start = paths(&app);
    let folders = vec![Some(vec![entry("/music/b.mp3"), entry("/music/A.flac"), entry("/music/cover.jpg")])];
    let lists = vec![Some(vec![entry("/music/b.mp3"), entry("/other/c.ogg"), entry("/other/notes.txt")])];
    app.rescan_all(0, &folders, &lists);
    assert_eq!(paths(&app), start);
    for (_, idx) in &app.saved_playlists {
        assert!(idx.iter().all(|&i| i < app.library.len()));
    }
}
