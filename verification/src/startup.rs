//! The player's first state: the places to load from, the library and named
//! playlists they give, and the settings they complete.
use vstd::prelude::*;
use crate::app::{App, AppView, InputMode, InputModeView, Panel, SettingsSection, saved_view};
use crate::config::{strings_view, Config, ConfigView};
use crate::library::sort_tracks;
use crate::loading::{
    append_unique, audio_tracks, audio_tracks_of, gathered, is_xspf_path,
    opt_entries, playlist_name, playlist_name_of, positions_in, positions_of, scan_result,
    scan_tracks, xspf_path, FileEntry,
};
use crate::locale::Locale;
use crate::nav::{ListSel, Rect};
use crate::settings::{all_positions, all_positions_vec};
use crate::track::{
    is_audio_file, is_audio_path, new_track, track_view, tracks_view, PlayMode, PlayerStatus, Track,
    TrackView,
};

verus! {

broadcast use vstd::string::group_string_axioms;

/// The places to load at start: the paths given on the command line; else the
/// configured folders and then playlists; else the system's music folder.
pub open spec fn search_paths_of(cli: Seq<Seq<char>>, cfg: ConfigView, system_dir: Seq<char>) -> Seq<Seq<char>> {
    if cli.len() > 0 {
        cli
    } else if cfg.music_folders.len() + cfg.xspf_playlists.len() > 0 {
        cfg.music_folders + cfg.xspf_playlists
    } else {
        seq![system_dir]
    }
}

/// A copy of a list of strings.
fn copy_strings(v: &Vec<String>, out: &mut Vec<String>)
    ensures
        strings_view(final(out)@) == strings_view(old(out)@) + strings_view(v@),
{
    let ghost o = strings_view(out@);
    let ghost sv = strings_view(v@);
    let mut i: usize = 0;
    while i < v.len()
        invariant
            i <= v@.len() == sv.len(),
            sv == strings_view(v@),
            strings_view(out@) == o + sv.take(i as int),
        decreases v@.len() - i,
    {
        let ghost before = out@;
        out.push(v[i].clone());
        assert(strings_view(out@) =~= strings_view(before).push(sv[i as int]));
        assert(sv.take(i + 1) =~= sv.take(i as int).push(sv[i as int]));
        assert(strings_view(out@) =~= o + sv.take(i + 1));
        i = i + 1;
    }
    assert(sv.take(i as int) =~= sv);
}

/// The places to load at start (see `search_paths_of`); `system_dir` is the
/// system's music folder.
pub fn search_paths(cli: Vec<String>, config: &Config, system_dir: String) -> (res: Vec<String>)
    ensures
        strings_view(res@) == search_paths_of(strings_view(cli@), config@, system_dir@),
{
    if cli.len() > 0 {
        return cli;
    }
    let mut p: Vec<String> = Vec::new();
    assert(strings_view(p@) =~= Seq::<Seq<char>>::empty());
    copy_strings(&config.music_folders, &mut p);
    copy_strings(&config.xspf_playlists, &mut p);
    assert(strings_view(p@) =~= config@.music_folders + config@.xspf_playlists);
    if p.len() == 0 {
        let mut q: Vec<String> = Vec::new();
        q.push(system_dir);
        assert(strings_view(q@) =~= seq![system_dir@]);
        q
    } else {
        p
    }
}

/// What the file system says of one place to load from at start: whether it is
/// a folder or a file, the file's size, the files a playlist file names that
/// exist (`listed`, `None` where it could not be read), the files found under
/// a folder (`scanned`), and whether it was named for one-time play (on the
/// command line), in which case it is never remembered in the settings.
pub struct SearchSource {
    pub path: String,
    pub one_time: bool,
    pub is_dir: bool,
    pub is_file: bool,
    pub file_size: Option<u64>,
    pub listed: Option<Vec<FileEntry>>,
    pub scanned: Option<Vec<FileEntry>>,
}

/// A place to load from, as plain values.
pub struct SourceView {
    pub path: Seq<char>,
    pub one_time: bool,
    pub is_dir: bool,
    pub is_file: bool,
    pub file_size: Option<u64>,
    pub listed: Option<Seq<(Seq<char>, Option<u64>)>>,
    pub scanned: Option<Seq<(Seq<char>, Option<u64>)>>,
}

/// The plain value of a place to load from.
pub open spec fn source_view(s: SearchSource) -> SourceView {
    SourceView {
        path: s.path@,
        one_time: s.one_time,
        is_dir: s.is_dir,
        is_file: s.is_file,
        file_size: s.file_size,
        listed: opt_entries(s.listed),
        scanned: opt_entries(s.scanned),
    }
}

/// The plain values of places to load from.
pub open spec fn sources_view(s: Seq<SearchSource>) -> Seq<SourceView> {
    Seq::new(s.len(), |i: int| source_view(s[i]))
}

/// The tracks a place gives: a playlist file (by its ".xspf" extension) its
/// audio files; a folder its scanned audio files; an audio file itself.
pub open spec fn source_tracks(s: SourceView) -> Seq<TrackView> {
    if xspf_path(s.path) {
        match s.listed {
            Some(es) => audio_tracks(es),
            None => Seq::empty(),
        }
    } else if s.is_dir {
        match s.scanned {
            Some(es) => scan_result(es),
            None => Seq::empty(),
        }
    } else if s.is_file && is_audio_path(s.path) {
        seq![new_track(s.path, s.file_size)]
    } else {
        Seq::empty()
    }
}

/// The tracks of each place.
pub open spec fn sources_tracks(srcs: Seq<SourceView>) -> Seq<Seq<TrackView>> {
    Seq::new(srcs.len(), |i: int| source_tracks(srcs[i]))
}

/// The library at start: the tracks of the places in order, without repeating a
/// path, sorted.
pub open spec fn startup_library(srcs: Seq<SourceView>) -> Seq<TrackView> {
    sort_tracks(gathered(Seq::empty(), sources_tracks(srcs)))
}

/// The playlist files among the places that name audio files: name and tracks.
pub open spec fn startup_imports(srcs: Seq<SourceView>) -> Seq<(Seq<char>, Seq<TrackView>)>
    decreases srcs.len(),
{
    if srcs.len() == 0 {
        Seq::empty()
    } else {
        let r = startup_imports(srcs.drop_last());
        let s = srcs.last();
        if xspf_path(s.path) && s.listed is Some && audio_tracks(s.listed->0).len() > 0 {
            r.push((playlist_name(s.path), audio_tracks(s.listed->0)))
        } else {
            r
        }
    }
}

/// The named playlists of `imports` in `lib`: those with a track in it.
pub open spec fn startup_saved(lib: Seq<TrackView>, imports: Seq<(Seq<char>, Seq<TrackView>)>) -> Seq<(Seq<char>, Seq<usize>)>
    decreases imports.len(),
{
    if imports.len() == 0 {
        Seq::empty()
    } else {
        let r = startup_saved(lib, imports.drop_last());
        let idx = positions_of(lib, imports.last().1);
        if idx.len() > 0 { r.push((imports.last().0, idx)) } else { r }
    }
}

/// The folders among the places, but for those named for one-time play.
pub open spec fn dir_paths(srcs: Seq<SourceView>) -> Seq<Seq<char>>
    decreases srcs.len(),
{
    if srcs.len() == 0 {
        Seq::empty()
    } else {
        let r = dir_paths(srcs.drop_last());
        if srcs.last().is_dir && !srcs.last().one_time { r.push(srcs.last().path) } else { r }
    }
}

/// The settings at start: where none lists a folder, the folders among the places
/// (those named for one-time play left out).
pub open spec fn startup_config(cfg: ConfigView, srcs: Seq<SourceView>) -> ConfigView {
    if cfg.music_folders.len() == 0 && srcs.len() > 0 {
        ConfigView { music_folders: cfg.music_folders + dir_paths(srcs), ..cfg }
    } else {
        cfg
    }
}

/// The shuffle generator's state until the player seeds it (see `App::seed_shuffle`).
pub const SHUFFLE_START: u64 = 0x853c_49e6_748f_ea9b;

/// A list selection on the first row where the list has one.
pub open spec fn first_row(len: nat) -> ListSel {
    ListSel { offset: 0, selected: if len > 0 { Some(0) } else { None } }
}

/// The player's first state, loaded from the places `srcs`.
pub open spec fn startup(srcs: Seq<SourceView>, cfg: ConfigView, locale: Locale) -> AppView {
    let lib = startup_library(srcs);
    let c = startup_config(cfg, srcs);
    let zero = Rect { x: 0, y: 0, width: 0, height: 0 };
    AppView {
        library: lib,
        playlist: all_positions(lib.len()),
        current_index: None,
        status: PlayerStatus::Stopped,
        play_mode: PlayMode::Sequential,
        elapsed_ns: 0,
        duration_ns: None,
        should_quit: false,
        status_message: Seq::empty(),
        locale,
        lyrics: Seq::empty(),
        current_lyric_index: None,
        lyrics_idle_ticks: 0,
        fade: None,
        track_meta: None,
        focus: Panel::Playlist,
        library_visible: false,
        library_state: first_row(lib.len()),
        playlist_state: first_row(lib.len()),
        lyrics_state: ListSel { offset: 0, selected: None },
        lyric_line_map: Seq::empty(),
        library_inner: zero,
        playlist_inner: zero,
        lyrics_inner: zero,
        progress_area: zero,
        volume_area: zero,
        play_start_ns: None,
        accumulated_ns: 0,
        config: c,
        show_settings: false,
        settings_section: SettingsSection::Folders,
        settings_folder_state: first_row(c.music_folders.len()),
        settings_xspf_state: first_row(c.xspf_playlists.len()),
        settings_folder_inner: zero,
        settings_xspf_inner: zero,
        input_mode: InputModeView::Normal,
        saved_playlists: startup_saved(lib, startup_imports(srcs)),
        active_playlist_idx: None,
        shuffle_state: SHUFFLE_START,
    }
}

/// A copy of a list of tracks.
fn copy_tracks(v: &Vec<Track>) -> (res: Vec<Track>)
    ensures
        tracks_view(res@) == tracks_view(v@),
{
    let ghost tv = tracks_view(v@);
    let mut res: Vec<Track> = Vec::new();
    let mut i: usize = 0;
    while i < v.len()
        invariant
            i <= v@.len() == tv.len(),
            tv == tracks_view(v@),
            tracks_view(res@) == tv.take(i as int),
        decreases v@.len() - i,
    {
        let t = v[i].duplicate();
        let ghost before = res@;
        res.push(t);
        assert(tracks_view(res@) =~= tracks_view(before).push(track_view(t)));
        assert(tv.take(i + 1) =~= tv.take(i as int).push(tv[i as int]));
        i = i + 1;
    }
    assert(tv.take(i as int) =~= tv);
    res
}

/// The tracks one place gives (see `source_tracks`).
fn tracks_of_source(s: &SearchSource) -> (res: Vec<Track>)
    ensures
        tracks_view(res@) == source_tracks(source_view(*s)),
{
    if is_xspf_path(s.path.as_str()) {
        match &s.listed {
            Some(files) => audio_tracks_of(files),
            None => {
                let v: Vec<Track> = Vec::new();
                assert(tracks_view(v@) =~= Seq::<TrackView>::empty());
                v
            },
        }
    } else if s.is_dir {
        match &s.scanned {
            Some(files) => scan_tracks(files),
            None => {
                let v: Vec<Track> = Vec::new();
                assert(tracks_view(v@) =~= Seq::<TrackView>::empty());
                v
            },
        }
    } else if s.is_file && is_audio_file(s.path.as_str()) {
        let t = Track::from_path(s.path.clone(), s.file_size);
        let mut v: Vec<Track> = Vec::new();
        v.push(t);
        assert(tracks_view(v@) =~= seq![new_track(s.path@, s.file_size)]);
        v
    } else {
        let v: Vec<Track> = Vec::new();
        assert(tracks_view(v@) =~= Seq::<TrackView>::empty());
        v
    }
}

impl App {
    /// The player's first state (see `startup`): `sources` says, for each place
    /// `search_paths` gave, in order, what the file system holds there.
    pub fn new(sources: Vec<SearchSource>, config: Config, locale: Locale) -> (app: App)
        ensures
            app@ == startup(sources_view(sources@), config@, locale),
    {
        let ghost srcs = sources_view(sources@);
        let ghost st = sources_tracks(srcs);
        let mut gathered_lib: Vec<Track> = Vec::new();
        let mut imports: Vec<(String, Vec<Track>)> = Vec::new();
        let mut dirs: Vec<String> = Vec::new();
        let mut i: usize = 0;
        assert(st.take(0) =~= Seq::<Seq<TrackView>>::empty());
        assert(tracks_view(gathered_lib@) =~= Seq::<TrackView>::empty());
        assert(srcs.take(0) =~= Seq::<SourceView>::empty());
        assert(strings_view(dirs@) =~= Seq::<Seq<char>>::empty());
        while i < sources.len()
            invariant
                i <= sources@.len() == srcs.len() == st.len(),
                srcs == sources_view(sources@),
                st == sources_tracks(srcs),
                tracks_view(gathered_lib@) == gathered(Seq::empty(), st.take(i as int)),
                Seq::new(imports@.len(), |k: int| (imports@[k].0@, tracks_view(imports@[k].1@)))
                    == startup_imports(srcs.take(i as int)),
                strings_view(dirs@) == dir_paths(srcs.take(i as int)),
            decreases sources@.len() - i,
        {
            let ghost sv = srcs[i as int];
            assert(st.take(i + 1).drop_last() =~= st.take(i as int));
            assert(st.take(i + 1).last() == st[i as int]);
            assert(srcs.take(i + 1).drop_last() =~= srcs.take(i as int));
            assert(srcs.take(i + 1).last() == sv);
            let ts = tracks_of_source(&sources[i]);
            append_unique(&mut gathered_lib, &ts);
            let ghost old_imports = imports@;
            if is_xspf_path(sources[i].path.as_str()) && sources[i].listed.is_some() && ts.len() > 0 {
                let name = playlist_name_of(sources[i].path.as_str());
                let copy = copy_tracks(&ts);
                imports.push((name, copy));
                assert(Seq::new(imports@.len(), |k: int| (imports@[k].0@, tracks_view(imports@[k].1@)))
                    =~= Seq::new(old_imports.len(), |k: int| (old_imports[k].0@, tracks_view(old_imports[k].1@)))
                        .push((playlist_name(sv.path), audio_tracks(sv.listed->0))));
            }
            let ghost old_dirs = dirs@;
            if sources[i].is_dir && !sources[i].one_time {
                dirs.push(sources[i].path.clone());
                assert(strings_view(dirs@) =~= strings_view(old_dirs).push(sv.path));
            }
            i = i + 1;
        }
        assert(st.take(i as int) =~= st);
        assert(srcs.take(i as int) =~= srcs);
        let library = crate::library::sorted_tracks(&gathered_lib);
        proof { crate::library::lemma_sort_tracks_len(gathered(Seq::empty(), st)); }
        assert(tracks_view(library@).len() == library@.len());
        let playlist = all_positions_vec(library.len());

        let ghost imp = startup_imports(srcs);
        let ghost lv = tracks_view(library@);
        let mut saved_playlists: Vec<(String, Vec<usize>)> = Vec::new();
        let mut k: usize = 0;
        assert(imp.take(0) =~= Seq::<(Seq<char>, Seq<TrackView>)>::empty());
        assert(saved_view(saved_playlists@) =~= Seq::<(Seq<char>, Seq<usize>)>::empty());
        while k < imports.len()
            invariant
                k <= imports@.len() == imp.len(),
                Seq::new(imports@.len(), |j: int| (imports@[j].0@, tracks_view(imports@[j].1@))) == imp,
                lv == tracks_view(library@),
                saved_view(saved_playlists@) == startup_saved(lv, imp.take(k as int)),
            decreases imports@.len() - k,
        {
            assert(imp.take(k + 1).drop_last() =~= imp.take(k as int));
            assert(imp.take(k + 1).last() == imp[k as int]);
            assert(imp[k as int] == (imports@[k as int].0@, tracks_view(imports@[k as int].1@)));
            let idx = positions_in(&library, &imports[k].1);
            if idx.len() > 0 {
                let ghost before = saved_playlists@;
                let name = imports[k].0.clone();
                saved_playlists.push((name, idx));
                assert(saved_view(saved_playlists@) =~= saved_view(before).push((imp[k as int].0, idx@)));
            }
            k = k + 1;
        }
        assert(imp.take(k as int) =~= imp);

        let mut config = config;
        let ghost c0 = config@;
        if config.music_folders.len() == 0 && sources.len() > 0 {
            copy_strings(&dirs, &mut config.music_folders);
        }
        assert(config@ == startup_config(c0, srcs));

        let mut library_state = ListSel::new();
        let mut playlist_state = ListSel::new();
        if library.len() > 0 {
            library_state.select(Some(0));
            playlist_state.select(Some(0));
        }
        let mut folder_state = ListSel::new();
        if config.music_folders.len() > 0 {
            folder_state.select(Some(0));
        }
        let mut xspf_state = ListSel::new();
        if config.xspf_playlists.len() > 0 {
            xspf_state.select(Some(0));
        }
        App {
            library,
            playlist,
            current_index: None,
            status: PlayerStatus::Stopped,
            play_mode: PlayMode::Sequential,
            elapsed_ns: 0,
            duration_ns: None,
            should_quit: false,
            status_message: String::new(),
            locale,
            lyrics: Vec::new(),
            current_lyric_index: None,
            lyrics_idle_ticks: 0,
            fade: None,
            track_meta: None,
            focus: Panel::Playlist,
            library_visible: false,
            library_state,
            playlist_state,
            lyrics_state: ListSel::new(),
            lyric_line_map: Vec::new(),
            library_inner: Rect::zero(),
            playlist_inner: Rect::zero(),
            lyrics_inner: Rect::zero(),
            progress_area: Rect::zero(),
            volume_area: Rect::zero(),
            play_start_ns: None,
            accumulated_ns: 0,
            config,
            show_settings: false,
            settings_section: SettingsSection::Folders,
            settings_folder_state: folder_state,
            settings_xspf_state: xspf_state,
            settings_folder_inner: Rect::zero(),
            settings_xspf_inner: Rect::zero(),
            input_mode: InputMode::Normal,
            saved_playlists,
            active_playlist_idx: None,
            shuffle_state: SHUFFLE_START,
        }
    }
}

/// The library at start never lists a path twice, and is in order of its keys.
pub proof fn law_startup_library(srcs: Seq<SourceView>)
    ensures
        crate::loading::paths_distinct(startup_library(srcs)),
        crate::library::keys_sorted(startup_library(srcs)),
{
    crate::loading::lemma_gathered_sorted_distinct(sources_tracks(srcs));
    crate::library::law_sort_tracks_sorted_permutation(gathered(Seq::empty(), sources_tracks(srcs)));
}

/// A rescan rebuilds the library the player starts with: where the places loaded
/// at start give the tracks of the configured folders and then of the configured
/// playlist files, as the scans and reads handed to the rescan give them, both
/// libraries are the same.
pub proof fn law_rescan_matches_startup(
    srcs: Seq<SourceView>,
    folders: Seq<Option<Seq<(Seq<char>, Option<u64>)>>>,
    lists: Seq<Option<Seq<(Seq<char>, Option<u64>)>>>,
)
    requires
        sources_tracks(srcs) == crate::loading::folder_lists(folders) + crate::loading::playlist_lists(lists),
    ensures
        startup_library(srcs) == crate::loading::rescanned_library(folders, lists),
{
    crate::loading::lemma_gathered_concat(
        Seq::empty(),
        crate::loading::folder_lists(folders),
        crate::loading::playlist_lists(lists),
    );
}

/// Whether every position of every named playlist is below `n`.
pub open spec fn names_library_tracks(saved: Seq<(Seq<char>, Seq<usize>)>, n: nat) -> bool {
    forall|k: int, m: int| 0 <= k < saved.len() && 0 <= m < saved[k].1.len() ==> #[trigger] saved[k].1[m] < n
}

/// The named playlists at start only name library tracks.
pub proof fn law_startup_playlists_in_library(srcs: Seq<SourceView>)
    ensures
        names_library_tracks(startup_saved(startup_library(srcs), startup_imports(srcs)), startup_library(srcs).len()),
{
    lemma_saved_in_library(startup_library(srcs), startup_imports(srcs));
}

proof fn lemma_saved_in_library(lib: Seq<TrackView>, imports: Seq<(Seq<char>, Seq<TrackView>)>)
    ensures
        names_library_tracks(startup_saved(lib, imports), lib.len()),
    decreases imports.len(),
{
    if imports.len() > 0 {
        lemma_saved_in_library(lib, imports.drop_last());
        crate::loading::law_positions_in_library(lib, imports.last().1);
        let r = startup_saved(lib, imports.drop_last());
        let t = startup_saved(lib, imports);
        assert forall|k: int, m: int| 0 <= k < t.len() && 0 <= m < t[k].1.len() implies #[trigger] t[k].1[m] < lib.len() by {
            if k < r.len() {
                assert(t[k] == r[k]);
                assert(r[k].1[m] < lib.len());
            } else {
                let idx = positions_of(lib, imports.last().1);
                assert(t[k].1 == idx);
                assert(idx[m] < lib.len());
            }
        }
    }
}

/// Places named for one-time play are not remembered: where every place loaded at
/// start was named so, the settings at start are the ones given.
pub proof fn law_one_time_not_saved(cfg: ConfigView, srcs: Seq<SourceView>)
    requires
        forall|i: int| 0 <= i < srcs.len() ==> (#[trigger] srcs[i]).one_time,
    ensures
        startup_config(cfg, srcs) == cfg,
{
    lemma_dir_paths_one_time(srcs);
    assert(cfg.music_folders + Seq::<Seq<char>>::empty() =~= cfg.music_folders);
}

proof fn lemma_dir_paths_one_time(srcs: Seq<SourceView>)
    requires
        forall|i: int| 0 <= i < srcs.len() ==> (#[trigger] srcs[i]).one_time,
    ensures
        dir_paths(srcs) == Seq::<Seq<char>>::empty(),
    decreases srcs.len(),
{
    if srcs.len() > 0 {
        let p = srcs.drop_last();
        assert forall|i: int| 0 <= i < p.len() implies (#[trigger] p[i]).one_time by {
            assert(p[i] == srcs[i]);
        }
        lemma_dir_paths_one_time(p);
        assert(srcs.last().one_time);
    }
}

} // verus!
