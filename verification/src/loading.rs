//! Filling the library: tracks from scanned folders and imported playlists,
//! merged without repeating a path, kept sorted, and the named playlists that
//! point into it.
use vstd::prelude::*;
use crate::app::{App, AppView, Command, CommandView, commands_view};
use crate::config::{strings_view, ConfigView};
use crate::locale::pick;
use crate::playback::{no_commands, one_command, stopped, timing_reset};
use crate::text::{copy_str, decimal, push_str, str_eq};
use crate::track::{extension_of, file_stem_of, path_extension, path_file_stem};
use crate::library::{
    contains_path, find_last_path, has_path, last_index_of_path, lemma_last_index_has_path, sort_tracks,
    sorted_tracks,
};
use crate::nav::{selected_as, ListSel};
use crate::settings::{all_positions, all_positions_vec};
use crate::track::{is_audio_file, is_audio_path, new_track, track_view, tracks_view, Track, TrackView};

verus! {

broadcast use vstd::string::group_string_axioms;

/// A file found on disk: its path and, where it could be read, its size in bytes.
#[derive(Clone, Debug)]
pub struct FileEntry {
    pub path: String,
    pub size: Option<u64>,
}

/// The plain values of found files: path and size.
pub open spec fn entries_view(s: Seq<FileEntry>) -> Seq<(Seq<char>, Option<u64>)> {
    Seq::new(s.len(), |i: int| (s[i].path@, s[i].size))
}

/// The tracks of the audio files among `es`, in their order.
pub open spec fn audio_tracks(es: Seq<(Seq<char>, Option<u64>)>) -> Seq<TrackView>
    decreases es.len(),
{
    if es.len() == 0 {
        Seq::empty()
    } else {
        let r = audio_tracks(es.drop_last());
        let e = es.last();
        if is_audio_path(e.0) { r.push(new_track(e.0, e.1)) } else { r }
    }
}

/// What scanning a folder whose files are `es` gives: its audio tracks, sorted.
pub open spec fn scan_result(es: Seq<(Seq<char>, Option<u64>)>) -> Seq<TrackView> {
    sort_tracks(audio_tracks(es))
}

/// The tracks of `new` whose path `lib` does not hold, in their order.
pub open spec fn fresh_tracks(lib: Seq<TrackView>, new: Seq<TrackView>) -> Seq<TrackView>
    decreases new.len(),
{
    if new.len() == 0 {
        Seq::empty()
    } else {
        let r = fresh_tracks(lib, new.drop_last());
        if has_path(lib, new.last().path) { r } else { r.push(new.last()) }
    }
}

/// The positions in `lib` of the tracks of `tracks`, each the last position with
/// that path; tracks whose path `lib` lacks are left out.
pub open spec fn positions_of(lib: Seq<TrackView>, tracks: Seq<TrackView>) -> Seq<usize>
    decreases tracks.len(),
{
    if tracks.len() == 0 {
        Seq::empty()
    } else {
        let r = positions_of(lib, tracks.drop_last());
        match last_index_of_path(lib, tracks.last().path) {
            Some(i) => r.push(i as usize),
            None => r,
        }
    }
}

/// The playlist position of library track `c` in the playlist `0..n`.
pub open spec fn position_in_all(c: Option<usize>, n: nat) -> Option<usize> {
    match c {
        Some(i) => if i < n { Some(i) } else { None },
        None => None,
    }
}

/// The library after adding `new` (see `tracks_merged`).
#[verifier::opaque]
pub open spec fn merged_library(lib: Seq<TrackView>, new: Seq<TrackView>) -> Seq<TrackView> {
    let added = fresh_tracks(lib, new);
    if added.len() == 0 { lib } else { sort_tracks(lib + added) }
}

/// The tracks at positions `ps` of `lib`, in order (positions past its end left out).
pub open spec fn tracks_at(lib: Seq<TrackView>, ps: Seq<usize>) -> Seq<TrackView>
    decreases ps.len(),
{
    if ps.len() == 0 {
        Seq::empty()
    } else {
        let r = tracks_at(lib, ps.drop_last());
        if ps.last() < lib.len() { r.push(lib[ps.last() as int]) } else { r }
    }
}

/// The named playlists of `saved`, which point into `old`, pointed into `new`:
/// each position follows its track's path (a track that `new` lacks is left out).
pub open spec fn saved_remapped(
    old: Seq<TrackView>,
    new: Seq<TrackView>,
    saved: Seq<(Seq<char>, Seq<usize>)>,
) -> Seq<(Seq<char>, Seq<usize>)> {
    Seq::new(saved.len(), |k: int| (saved[k].0, positions_of(new, tracks_at(old, saved[k].1))))
}

/// Where the track at position `p` of `old` stands in `new`, found by its path;
/// a position past the end of `old`, or of a track `new` lacks, stays as it is.
pub open spec fn position_followed(old: Seq<TrackView>, new: Seq<TrackView>, p: usize) -> usize {
    if p < old.len() {
        match last_index_of_path(new, old[p as int].path) {
            Some(j) => j as usize,
            None => p,
        }
    } else {
        p
    }
}

/// The named playlists of `saved`, which point into `old`, with each position
/// following its track into `new` (see `position_followed`).
pub open spec fn saved_followed(
    old: Seq<TrackView>,
    new: Seq<TrackView>,
    saved: Seq<(Seq<char>, Seq<usize>)>,
) -> Seq<(Seq<char>, Seq<usize>)> {
    Seq::new(saved.len(), |k: int| (saved[k].0, Seq::new(saved[k].1.len(), |m: int| position_followed(old, new, saved[k].1[m]))))
}

/// Where the track at position `c` of `old` stands in `new`, found by its path.
pub open spec fn index_remapped(old: Seq<TrackView>, new: Seq<TrackView>, c: Option<usize>) -> Option<usize> {
    match c {
        Some(i) => if i < old.len() {
            match last_index_of_path(new, old[i as int].path) {
                Some(j) => Some(j as usize),
                None => None,
            }
        } else {
            None
        },
        None => None,
    }
}

/// Adding `new` to the library: the tracks with a path the library lacks are
/// added.  Where there are any, the library is sorted again; the current track
/// and the named playlists' entries follow their tracks' paths into it; the
/// playlist becomes every track, with the current track selected.
pub open spec fn tracks_merged(v: AppView, new: Seq<TrackView>) -> AppView {
    if fresh_tracks(v.library, new).len() == 0 {
        v
    } else {
        let lib = merged_library(v.library, new);
        let cur = index_remapped(v.library, lib, v.current_index);
        AppView {
            library: lib,
            playlist: all_positions(lib.len()),
            current_index: cur,
            playlist_state: selected_as(v.playlist_state, position_in_all(cur, lib.len())),
            saved_playlists: saved_followed(v.library, lib, v.saved_playlists),
            ..v
        }
    }
}

/// The tracks of the audio files among `files`, in their order.
pub fn audio_tracks_of(files: &Vec<FileEntry>) -> (res: Vec<Track>)
    ensures
        tracks_view(res@) == audio_tracks(entries_view(files@)),
{
    let ghost ev = entries_view(files@);
    let mut res: Vec<Track> = Vec::new();
    let mut i: usize = 0;
    assert(ev.take(0) =~= Seq::<(Seq<char>, Option<u64>)>::empty());
    assert(tracks_view(res@) =~= Seq::<TrackView>::empty());
    while i < files.len()
        invariant
            i <= files@.len() == ev.len(),
            ev == entries_view(files@),
            tracks_view(res@) == audio_tracks(ev.take(i as int)),
        decreases files@.len() - i,
    {
        assert(ev.take(i + 1).drop_last() =~= ev.take(i as int));
        assert(ev.take(i + 1).last() == ev[i as int]);
        if is_audio_file(files[i].path.as_str()) {
            let t = Track::from_path(files[i].path.clone(), files[i].size);
            let ghost before = res@;
            res.push(t);
            assert(tracks_view(res@) =~= tracks_view(before).push(track_view(t)));
        }
        i = i + 1;
    }
    assert(ev.take(i as int) =~= ev);
    res
}

/// Scanning a folder whose files are `files`: its audio tracks, sorted by file stem.
pub fn scan_tracks(files: &Vec<FileEntry>) -> (res: Vec<Track>)
    ensures
        tracks_view(res@) == scan_result(entries_view(files@)),
{
    let tracks = audio_tracks_of(files);
    sorted_tracks(&tracks)
}

/// The tracks of `new` whose path `lib` does not hold.
fn fresh_of(lib: &Vec<Track>, new: &Vec<Track>) -> (res: Vec<Track>)
    ensures
        tracks_view(res@) == fresh_tracks(tracks_view(lib@), tracks_view(new@)),
{
    let ghost lv = tracks_view(lib@);
    let ghost nv = tracks_view(new@);
    let mut res: Vec<Track> = Vec::new();
    let mut i: usize = 0;
    assert(nv.take(0) =~= Seq::<TrackView>::empty());
    assert(tracks_view(res@) =~= Seq::<TrackView>::empty());
    while i < new.len()
        invariant
            i <= new@.len() == nv.len(),
            nv == tracks_view(new@),
            lv == tracks_view(lib@),
            tracks_view(res@) == fresh_tracks(lv, nv.take(i as int)),
        decreases new@.len() - i,
    {
        assert(nv.take(i + 1).drop_last() =~= nv.take(i as int));
        assert(nv.take(i + 1).last() == nv[i as int]);
        proof { lemma_last_index_has_path(lv, nv[i as int].path); }
        if find_last_path(lib, new[i].path.as_str()).is_none() {
            let t = new[i].duplicate();
            let ghost before = res@;
            res.push(t);
            assert(tracks_view(res@) =~= tracks_view(before).push(track_view(t)));
        }
        i = i + 1;
    }
    assert(nv.take(i as int) =~= nv);
    res
}

/// The positions in `lib` of the tracks of `tracks` (see `positions_of`).
pub fn positions_in(lib: &Vec<Track>, tracks: &Vec<Track>) -> (res: Vec<usize>)
    ensures
        res@ == positions_of(tracks_view(lib@), tracks_view(tracks@)),
{
    let ghost lv = tracks_view(lib@);
    let ghost nv = tracks_view(tracks@);
    let mut res: Vec<usize> = Vec::new();
    let mut i: usize = 0;
    assert(nv.take(0) =~= Seq::<TrackView>::empty());
    while i < tracks.len()
        invariant
            i <= tracks@.len() == nv.len(),
            nv == tracks_view(tracks@),
            lv == tracks_view(lib@),
            res@ == positions_of(lv, nv.take(i as int)),
        decreases tracks@.len() - i,
    {
        assert(nv.take(i + 1).drop_last() =~= nv.take(i as int));
        assert(nv.take(i + 1).last() == nv[i as int]);
        match find_last_path(lib, tracks[i].path.as_str()) {
            Some(p) => { res.push(p); },
            None => {},
        }
        i = i + 1;
    }
    assert(nv.take(i as int) =~= nv);
    res
}

/// The tracks at positions `ps` of `lib` (see `tracks_at`).
fn tracks_at_of(lib: &Vec<Track>, ps: &Vec<usize>) -> (res: Vec<Track>)
    ensures
        tracks_view(res@) == tracks_at(tracks_view(lib@), ps@),
{
    let ghost lv = tracks_view(lib@);
    let mut res: Vec<Track> = Vec::new();
    let mut i: usize = 0;
    assert(ps@.take(0) =~= Seq::<usize>::empty());
    assert(tracks_view(res@) =~= Seq::<TrackView>::empty());
    while i < ps.len()
        invariant
            i <= ps@.len(),
            lv == tracks_view(lib@),
            tracks_view(res@) == tracks_at(lv, ps@.take(i as int)),
        decreases ps@.len() - i,
    {
        assert(ps@.take(i + 1).drop_last() =~= ps@.take(i as int));
        assert(ps@.take(i + 1).last() == ps@[i as int]);
        if ps[i] < lib.len() {
            let t = lib[ps[i]].duplicate();
            let ghost before = res@;
            res.push(t);
            assert(tracks_view(res@) =~= tracks_view(before).push(track_view(t)));
        }
        i = i + 1;
    }
    assert(ps@.take(i as int) =~= ps@);
    res
}

/// The named playlists pointed from `old` into `new` (see `saved_remapped`).
fn remap_saved(old: &Vec<Track>, new: &Vec<Track>, saved: &Vec<(String, Vec<usize>)>) -> (res: Vec<(String, Vec<usize>)>)
    ensures
        crate::app::saved_view(res@) == saved_remapped(tracks_view(old@), tracks_view(new@), crate::app::saved_view(saved@)),
{
    let ghost sv = crate::app::saved_view(saved@);
    let ghost want = saved_remapped(tracks_view(old@), tracks_view(new@), sv);
    let mut res: Vec<(String, Vec<usize>)> = Vec::new();
    let mut k: usize = 0;
    while k < saved.len()
        invariant
            k <= saved@.len() == sv.len() == want.len(),
            sv == crate::app::saved_view(saved@),
            want == saved_remapped(tracks_view(old@), tracks_view(new@), sv),
            crate::app::saved_view(res@) == want.take(k as int),
        decreases saved@.len() - k,
    {
        let ts = tracks_at_of(old, &saved[k].1);
        let ps = positions_in(new, &ts);
        let name = saved[k].0.clone();
        let ghost before = res@;
        res.push((name, ps));
        assert(crate::app::saved_view(res@) =~= crate::app::saved_view(before).push((sv[k as int].0, ps@)));
        assert(want.take(k + 1) =~= want.take(k as int).push(want[k as int]));
        k = k + 1;
    }
    assert(want.take(k as int) =~= want);
    res
}

/// The named playlists with each position following its track from `old` into
/// `new` (see `saved_followed`).
fn follow_saved(old: &Vec<Track>, new: &Vec<Track>, saved: &Vec<(String, Vec<usize>)>) -> (res: Vec<(String, Vec<usize>)>)
    ensures
        crate::app::saved_view(res@) == saved_followed(tracks_view(old@), tracks_view(new@), crate::app::saved_view(saved@)),
{
    let ghost ov = tracks_view(old@);
    let ghost nv = tracks_view(new@);
    let ghost sv = crate::app::saved_view(saved@);
    let ghost want = saved_followed(ov, nv, sv);
    let mut res: Vec<(String, Vec<usize>)> = Vec::new();
    let mut k: usize = 0;
    while k < saved.len()
        invariant
            k <= saved@.len() == sv.len() == want.len(),
            ov == tracks_view(old@),
            nv == tracks_view(new@),
            sv == crate::app::saved_view(saved@),
            want == saved_followed(ov, nv, sv),
            crate::app::saved_view(res@) == want.take(k as int),
        decreases saved@.len() - k,
    {
        let ps = &saved[k].1;
        let mut out: Vec<usize> = Vec::new();
        let mut m: usize = 0;
        while m < ps.len()
            invariant
                m <= ps@.len(),
                ov == tracks_view(old@),
                nv == tracks_view(new@),
                out@ == Seq::new(m as nat, |i: int| position_followed(ov, nv, ps@[i])),
            decreases ps@.len() - m,
        {
            let p = ps[m];
            let q = if p < old.len() {
                match find_last_path(new, old[p].path.as_str()) {
                    Some(j) => j,
                    None => p,
                }
            } else {
                p
            };
            out.push(q);
            assert(out@ =~= Seq::new((m + 1) as nat, |i: int| position_followed(ov, nv, ps@[i])));
            m = m + 1;
        }
        let name = saved[k].0.clone();
        let ghost before = res@;
        assert(out@ =~= want[k as int].1);
        res.push((name, out));
        assert(crate::app::saved_view(res@) =~= crate::app::saved_view(before).push(want[k as int]));
        assert(want.take(k + 1) =~= want.take(k as int).push(want[k as int]));
        k = k + 1;
    }
    assert(want.take(k as int) =~= want);
    res
}

/// Where the track at position `c` of `old` stands in `new` (see `index_remapped`).
fn remap_index(old: &Vec<Track>, new: &Vec<Track>, c: Option<usize>) -> (res: Option<usize>)
    ensures
        res == index_remapped(tracks_view(old@), tracks_view(new@), c),
{
    match c {
        Some(i) => if i < old.len() {
            find_last_path(new, old[i].path.as_str())
        } else {
            None
        },
        None => None,
    }
}

impl App {
    /// Adds `new_tracks` to the library (see `tracks_merged`).
    pub fn merge_tracks(&mut self, new_tracks: &Vec<Track>)
        ensures
            final(self)@ == tracks_merged(old(self)@, tracks_view(new_tracks@)),
    {
        reveal(merged_library);
        let added = fresh_of(&self.library, new_tracks);
        if added.len() == 0 {
            return;
        }
        let ghost lv = tracks_view(self.library@);
        let mut combined: Vec<Track> = Vec::new();
        let mut i: usize = 0;
        while i < self.library.len()
            invariant
                i <= self.library@.len(),
                lv == tracks_view(self.library@),
                tracks_view(combined@) == lv.take(i as int),
            decreases self.library@.len() - i,
        {
            let t = self.library[i].duplicate();
            let ghost before = combined@;
            combined.push(t);
            assert(tracks_view(combined@) =~= tracks_view(before).push(track_view(t)));
            assert(lv.take(i + 1) =~= lv.take(i as int).push(lv[i as int]));
            assert(tracks_view(combined@) =~= lv.take(i + 1));
            i = i + 1;
        }
        let ghost av = tracks_view(added@);
        let mut j: usize = 0;
        while j < added.len()
            invariant
                j <= added@.len(),
                av == tracks_view(added@),
                tracks_view(combined@) == lv + av.take(j as int),
            decreases added@.len() - j,
        {
            let t = added[j].duplicate();
            let ghost before = combined@;
            combined.push(t);
            assert(tracks_view(combined@) =~= tracks_view(before).push(track_view(t)));
            assert(av.take(j + 1) =~= av.take(j as int).push(av[j as int]));
            assert(tracks_view(combined@) =~= lv + av.take(j + 1));
            j = j + 1;
        }
        assert(av.take(j as int) =~= av);
        let lib = sorted_tracks(&combined);
        proof { crate::library::lemma_sort_tracks_len(lv + av); }
        assert(tracks_view(lib@).len() == lib@.len());
        let cur = remap_index(&self.library, &lib, self.current_index);
        let saved = follow_saved(&self.library, &lib, &self.saved_playlists);
        self.library = lib;
        self.playlist = all_positions_vec(self.library.len());
        self.current_index = cur;
        self.saved_playlists = saved;
        let pos = match cur {
            Some(c) => if c < self.library.len() { Some(c) } else { None },
            None => None,
        };
        self.playlist_state.select(pos);
    }
}

/// Whether the path's extension is exactly "xspf".
pub open spec fn xspf_path(path: Seq<char>) -> bool {
    extension_of(path) == Some("xspf"@)
}

/// Whether the path's extension is exactly "xspf".
pub fn is_xspf_path(path: &str) -> (res: bool)
    ensures
        res == xspf_path(path@),
{
    match path_extension(path) {
        Some(e) => {
            proof { reveal_strlit("xspf"); }
            str_eq(e.as_str(), "xspf")
        },
        None => false,
    }
}

/// The name of the playlist a file holds: its file stem, or "Playlist".
pub open spec fn playlist_name(path: Seq<char>) -> Seq<char> {
    match file_stem_of(path) {
        Some(s) => s,
        None => "Playlist"@,
    }
}

/// The name of the playlist the file at `path` holds (see `playlist_name`).
pub fn playlist_name_of(path: &str) -> (res: String)
    ensures
        res@ == playlist_name(path@),
{
    match path_file_stem(path) {
        Some(s) => s,
        None => copy_str("Playlist"),
    }
}

/// Whether `s` is one of the strings of `v`.
fn strings_contain(v: &Vec<String>, s: &str) -> (res: bool)
    ensures
        res == strings_view(v@).contains(s@),
{
    let ghost sv = strings_view(v@);
    let mut i: usize = 0;
    while i < v.len()
        invariant
            i <= v@.len() == sv.len(),
            sv == strings_view(v@),
            forall|k: int| 0 <= k < i ==> sv[k] != s@,
        decreases v@.len() - i,
    {
        if str_eq(v[i].as_str(), s) {
            assert(sv[i as int] == s@);
            return true;
        }
        i = i + 1;
    }
    false
}

/// Appends `s` to `v`.
fn push_string(v: &mut Vec<String>, s: String)
    ensures
        strings_view(final(v)@) == strings_view(old(v)@).push(s@),
{
    let ghost o = v@;
    v.push(s);
    assert(strings_view(v@) =~= strings_view(o).push(s@));
}

/// Adding a music folder at `path` (already resolved), which is a folder where
/// `is_dir`; `scan` is what scanning it found (`None` where that failed).  A
/// missing folder or one already listed only sets a message; else the folder is
/// listed and saved and its tracks merged into the library.
pub open spec fn folder_added(
    v: AppView,
    path: Seq<char>,
    is_dir: bool,
    scan: Option<Seq<(Seq<char>, Option<u64>)>>,
) -> (AppView, Seq<CommandView>) {
    let added_msg = pick(v.locale.lang, "Music folder added"@, "已添加音乐文件夹"@);
    if !is_dir {
        (AppView { status_message: pick(v.locale.lang, "Path not found"@, "路径不存在"@), ..v }, Seq::empty())
    } else if v.config.music_folders.contains(path) {
        (AppView { status_message: added_msg, ..v }, Seq::empty())
    } else {
        let v1 = AppView {
            config: ConfigView { music_folders: v.config.music_folders.push(path), ..v.config },
            ..v
        };
        let v2 = match scan {
            Some(es) => tracks_merged(v1, scan_result(es)),
            None => v1,
        };
        let v3 = if v2.config.music_folders.len() == 1 {
            AppView { settings_folder_state: selected_as(v2.settings_folder_state, Some(0)), ..v2 }
        } else {
            v2
        };
        (AppView { status_message: added_msg, ..v3 }, seq![CommandView::SaveConfig])
    }
}

/// Importing the playlist file at `path` (already resolved), which exists where
/// `exists`; `parsed` is what reading it gave: the files it names that exist, or
/// the error.  A file that is not .xspf, missing or already imported only sets a
/// message.  Else the file is listed; on an error the message says so and nothing
/// is saved; else its audio files join the library, a named playlist of them is
/// added, and the settings are saved.
pub open spec fn xspf_imported(
    v: AppView,
    path: Seq<char>,
    exists: bool,
    parsed: Result<Seq<(Seq<char>, Option<u64>)>, Seq<char>>,
) -> (AppView, Seq<CommandView>) {
    let imported_msg = pick(v.locale.lang, "Playlist imported"@, "已导入播放列表"@);
    if !xspf_path(path) {
        (AppView { status_message: pick(v.locale.lang, "Not an .xspf file"@, "不是 .xspf 文件"@), ..v }, Seq::empty())
    } else if !exists {
        (AppView { status_message: pick(v.locale.lang, "Path not found"@, "路径不存在"@), ..v }, Seq::empty())
    } else if v.config.xspf_playlists.contains(path) {
        (AppView { status_message: imported_msg, ..v }, Seq::empty())
    } else {
        xspf_listed(v, path, parsed)
    }
}

/// Importing a new playlist file (see `xspf_imported`).
pub open spec fn xspf_listed(
    v: AppView,
    path: Seq<char>,
    parsed: Result<Seq<(Seq<char>, Option<u64>)>, Seq<char>>,
) -> (AppView, Seq<CommandView>) {
    let v1 = AppView {
        config: ConfigView { xspf_playlists: v.config.xspf_playlists.push(path), ..v.config },
        ..v
    };
    match parsed {
        Err(e) => (AppView { status_message: "XSPF error: "@ + e, ..v1 }, Seq::empty()),
        Ok(es) => {
            let tracks = audio_tracks(es);
            let v2 = tracks_merged(v1, tracks);
            let v3 = AppView {
                saved_playlists: v2.saved_playlists.push((playlist_name(path), positions_of(v2.library, tracks))),
                ..v2
            };
            let v4 = if v3.config.xspf_playlists.len() == 1 {
                AppView { settings_xspf_state: selected_as(v3.settings_xspf_state, Some(0)), ..v3 }
            } else {
                v3
            };
            (AppView { status_message: pick(v.locale.lang, "Playlist imported"@, "已导入播放列表"@), ..v4 }, seq![CommandView::SaveConfig])
        },
    }
}

/// The plain values of a list of found files, where there is one.
pub open spec fn opt_entries(o: Option<Vec<FileEntry>>) -> Option<Seq<(Seq<char>, Option<u64>)>> {
    match o {
        Some(v) => Some(entries_view(v@)),
        None => None,
    }
}

impl App {
    /// Adds a music folder (see `folder_added`).
    #[verifier::rlimit(60)]
    pub fn add_music_folder(&mut self, path: String, is_dir: bool, scan: Option<Vec<FileEntry>>) -> (cmds: Vec<Command>)
        ensures
            (final(self)@, commands_view(cmds@)) == folder_added(old(self)@, path@, is_dir, opt_entries(scan)),
    {
        if !is_dir {
            self.status_message = copy_str(self.locale.msg_path_not_found());
            return no_commands();
        }
        if strings_contain(&self.config.music_folders, path.as_str()) {
            self.status_message = copy_str(self.locale.msg_folder_added());
            return no_commands();
        }
        let ghost v0 = self@;
        let ghost p = path@;
        push_string(&mut self.config.music_folders, path);
        let ghost v1 = AppView {
            config: ConfigView { music_folders: v0.config.music_folders.push(p), ..v0.config },
            ..v0
        };
        assert(self@ == v1);
        let ghost sc = opt_entries(scan);
        match scan {
            Some(files) => {
                let tracks = scan_tracks(&files);
                self.merge_tracks(&tracks);
                assert(self@ == tracks_merged(v1, scan_result(entries_view(files@))));
            },
            None => {},
        }
        let ghost v2 = match sc {
            Some(es) => tracks_merged(v1, scan_result(es)),
            None => v1,
        };
        assert(self@ == v2);
        if self.config.music_folders.len() == 1 {
            self.settings_folder_state.select(Some(0));
        }
        let ghost v3 = if v2.config.music_folders.len() == 1 {
            AppView { settings_folder_state: selected_as(v2.settings_folder_state, Some(0)), ..v2 }
        } else {
            v2
        };
        assert(self@ == v3);
        self.status_message = copy_str(self.locale.msg_folder_added());
        assert(self@ == AppView { status_message: pick(v0.locale.lang, "Music folder added"@, "已添加音乐文件夹"@), ..v3 });
        one_command(Command::SaveConfig)
    }

    /// Imports a playlist file (see `xspf_imported`).
    pub fn import_xspf_file(&mut self, path: String, exists: bool, parsed: Result<Vec<FileEntry>, String>) -> (cmds: Vec<Command>)
        ensures
            (final(self)@, commands_view(cmds@)) == xspf_imported(old(self)@, path@, exists,
                match parsed { Ok(v) => Ok(entries_view(v@)), Err(e) => Err(e@) }),
    {
        if !is_xspf_path(path.as_str()) {
            self.status_message = copy_str(self.locale.msg_not_xspf());
            return no_commands();
        }
        if !exists {
            self.status_message = copy_str(self.locale.msg_path_not_found());
            return no_commands();
        }
        if strings_contain(&self.config.xspf_playlists, path.as_str()) {
            self.status_message = copy_str(self.locale.msg_xspf_imported());
            return no_commands();
        }
        self.import_new_xspf(path, parsed)
    }

    /// Imports a playlist file not yet listed (see `xspf_listed`).
    fn import_new_xspf(&mut self, path: String, parsed: Result<Vec<FileEntry>, String>) -> (cmds: Vec<Command>)
        ensures
            (final(self)@, commands_view(cmds@)) == xspf_listed(old(self)@, path@,
                match parsed { Ok(v) => Ok(entries_view(v@)), Err(e) => Err(e@) }),
    {
        let name = playlist_name_of(path.as_str());
        let ghost v0 = self@;
        let ghost p = path@;
        push_string(&mut self.config.xspf_playlists, path);
        let ghost v1 = AppView {
            config: ConfigView { xspf_playlists: v0.config.xspf_playlists.push(p), ..v0.config },
            ..v0
        };
        assert(self@ == v1);
        match parsed {
            Err(e) => {
                let mut msg = copy_str("XSPF error: ");
                push_str(&mut msg, e.as_str());
                self.status_message = msg;
                no_commands()
            },
            Ok(files) => {
                let tracks = audio_tracks_of(&files);
                let ghost tv = tracks_view(tracks@);
                self.merge_tracks(&tracks);
                let ghost v2 = self@;
                assert(v2 == tracks_merged(v1, tv));
                let indices = positions_in(&self.library, &tracks);
                let ghost entry = (name@, indices@);
                let ghost before = self.saved_playlists@;
                self.saved_playlists.push((name, indices));
                assert(crate::app::saved_view(self.saved_playlists@) =~= crate::app::saved_view(before).push(entry));
                assert(self@ == AppView { saved_playlists: v2.saved_playlists.push((playlist_name(p), positions_of(v2.library, tv))), ..v2 });
                if self.config.xspf_playlists.len() == 1 {
                    self.settings_xspf_state.select(Some(0));
                }
                self.status_message = copy_str(self.locale.msg_xspf_imported());
                one_command(Command::SaveConfig)
            },
        }
    }
}

/// `acc` with the tracks of `new` added in order, each only where no track of the
/// list so far has its path.
pub open spec fn unique_append(acc: Seq<TrackView>, new: Seq<TrackView>) -> Seq<TrackView>
    decreases new.len(),
{
    if new.len() == 0 {
        acc
    } else {
        let r = unique_append(acc, new.drop_last());
        if has_path(r, new.last().path) { r } else { r.push(new.last()) }
    }
}

/// `acc` with the tracks of each list of `lists` added in turn by `unique_append`.
pub open spec fn gathered(acc: Seq<TrackView>, lists: Seq<Seq<TrackView>>) -> Seq<TrackView>
    decreases lists.len(),
{
    if lists.len() == 0 {
        acc
    } else {
        unique_append(gathered(acc, lists.drop_last()), lists.last())
    }
}

/// The plain values of the reports for several sources (`None` where one failed).
pub open spec fn reports_view(s: Seq<Option<Vec<FileEntry>>>) -> Seq<Option<Seq<(Seq<char>, Option<u64>)>>> {
    Seq::new(s.len(), |i: int| opt_entries(s[i]))
}

/// The tracks each folder scan gives (none where the scan failed).
pub open spec fn folder_lists(scans: Seq<Option<Seq<(Seq<char>, Option<u64>)>>>) -> Seq<Seq<TrackView>> {
    Seq::new(scans.len(), |i: int| match scans[i] { Some(es) => scan_result(es), None => Seq::empty() })
}

/// The tracks each playlist file gives: its audio files (none where it could not be read).
pub open spec fn playlist_lists(files: Seq<Option<Seq<(Seq<char>, Option<u64>)>>>) -> Seq<Seq<TrackView>> {
    Seq::new(files.len(), |i: int| match files[i] { Some(es) => audio_tracks(es), None => Seq::empty() })
}

/// The library a rescan builds: the tracks of each configured folder (`folders`,
/// as scanned) and then of each configured playlist (`lists`, the files each
/// names that exist), without repeating a path, sorted.
pub open spec fn rescanned_library(
    folders: Seq<Option<Seq<(Seq<char>, Option<u64>)>>>,
    lists: Seq<Option<Seq<(Seq<char>, Option<u64>)>>>,
) -> Seq<TrackView> {
    sort_tracks(gathered(gathered(Seq::empty(), folder_lists(folders)), playlist_lists(lists)))
}

/// R on the settings page: stop, rebuild the library from the configured
/// folders and playlists (see `rescanned_library`), point the named playlists at
/// the same files in it (a file that is gone is left out), forget the current
/// track and its lyrics, show every track, and say how many there are.
pub open spec fn rescanned(
    v: AppView,
    now: u128,
    folders: Seq<Option<Seq<(Seq<char>, Option<u64>)>>>,
    lists: Seq<Option<Seq<(Seq<char>, Option<u64>)>>>,
) -> (AppView, Seq<CommandView>) {
    let (v1, c) = stopped(v, now);
    let lib = rescanned_library(folders, lists);
    let sel: Option<usize> = if lib.len() > 0 { Some(0) } else { None };
    (
        timing_reset(AppView {
            library: lib,
            playlist: all_positions(lib.len()),
            current_index: None,
            saved_playlists: saved_remapped(v.library, lib, v.saved_playlists),
            lyrics: Seq::empty(),
            current_lyric_index: None,
            track_meta: None,
            library_state: selected_as(v1.library_state, sel),
            playlist_state: selected_as(v1.playlist_state, sel),
            status_message: pick(v1.locale.lang, "Rescanned: "@ + decimal(lib.len()) + " tracks"@,
                "已重新扫描: "@ + decimal(lib.len()) + " 首"@),
            ..v1
        }),
        c,
    )
}

/// Adds to `lib` the tracks of `new` whose path it lacks so far (see `unique_append`).
pub fn append_unique(lib: &mut Vec<Track>, new: &Vec<Track>)
    ensures
        tracks_view(final(lib)@) == unique_append(tracks_view(old(lib)@), tracks_view(new@)),
{
    let ghost acc = tracks_view(lib@);
    let ghost nv = tracks_view(new@);
    let mut i: usize = 0;
    assert(nv.take(0) =~= Seq::<TrackView>::empty());
    while i < new.len()
        invariant
            i <= new@.len() == nv.len(),
            nv == tracks_view(new@),
            tracks_view(lib@) == unique_append(acc, nv.take(i as int)),
        decreases new@.len() - i,
    {
        assert(nv.take(i + 1).drop_last() =~= nv.take(i as int));
        assert(nv.take(i + 1).last() == nv[i as int]);
        if !contains_path(lib, new[i].path.as_str()) {
            let t = new[i].duplicate();
            let ghost before = lib@;
            lib.push(t);
            assert(tracks_view(lib@) =~= tracks_view(before).push(track_view(t)));
        }
        i = i + 1;
    }
    assert(nv.take(i as int) =~= nv);
}

/// The library a rescan builds (see `rescanned_library`).
pub fn rescan_library(folders: &Vec<Option<Vec<FileEntry>>>, lists: &Vec<Option<Vec<FileEntry>>>) -> (res: Vec<Track>)
    ensures
        tracks_view(res@) == rescanned_library(reports_view(folders@), reports_view(lists@)),
{
    let ghost fl = folder_lists(reports_view(folders@));
    let ghost pl = playlist_lists(reports_view(lists@));
    let mut lib: Vec<Track> = Vec::new();
    let mut i: usize = 0;
    assert(fl.take(0) =~= Seq::<Seq<TrackView>>::empty());
    assert(tracks_view(lib@) =~= Seq::<TrackView>::empty());
    while i < folders.len()
        invariant
            i <= folders@.len() == fl.len(),
            fl == folder_lists(reports_view(folders@)),
            tracks_view(lib@) == gathered(Seq::empty(), fl.take(i as int)),
        decreases folders@.len() - i,
    {
        assert(fl.take(i + 1).drop_last() =~= fl.take(i as int));
        assert(fl.take(i + 1).last() == fl[i as int]);
        match &folders[i] {
            Some(files) => {
                let ts = scan_tracks(files);
                append_unique(&mut lib, &ts);
            },
            None => {
                assert(unique_append(tracks_view(lib@), Seq::<TrackView>::empty()) == tracks_view(lib@));
            },
        }
        i = i + 1;
    }
    assert(fl.take(i as int) =~= fl);
    let ghost first = tracks_view(lib@);
    let mut j: usize = 0;
    assert(pl.take(0) =~= Seq::<Seq<TrackView>>::empty());
    while j < lists.len()
        invariant
            j <= lists@.len() == pl.len(),
            pl == playlist_lists(reports_view(lists@)),
            tracks_view(lib@) == gathered(first, pl.take(j as int)),
        decreases lists@.len() - j,
    {
        assert(pl.take(j + 1).drop_last() =~= pl.take(j as int));
        assert(pl.take(j + 1).last() == pl[j as int]);
        match &lists[j] {
            Some(files) => {
                let ts = audio_tracks_of(files);
                append_unique(&mut lib, &ts);
            },
            None => {
                assert(unique_append(tracks_view(lib@), Seq::<TrackView>::empty()) == tracks_view(lib@));
            },
        }
        j = j + 1;
    }
    assert(pl.take(j as int) =~= pl);
    sorted_tracks(&lib)
}

impl App {
    /// R on the settings page, once the caller scanned each configured folder
    /// (`folders`, in order) and read each configured playlist (`lists`, the files
    /// each names that exist) (see `rescanned`).
    pub fn rescan_all(
        &mut self,
        now: u128,
        folders: &Vec<Option<Vec<FileEntry>>>,
        lists: &Vec<Option<Vec<FileEntry>>>,
    ) -> (cmds: Vec<Command>)
        ensures
            (final(self)@, commands_view(cmds@)) == rescanned(old(self)@, now, reports_view(folders@), reports_view(lists@)),
    {
        let cmds = self.stop(now);
        let lib = rescan_library(folders, lists);
        proof { crate::library::lemma_sort_tracks_len(
            gathered(gathered(Seq::empty(), folder_lists(reports_view(folders@))), playlist_lists(reports_view(lists@)))); }
        assert(tracks_view(lib@).len() == lib@.len());
        let saved = remap_saved(&self.library, &lib, &self.saved_playlists);
        self.saved_playlists = saved;
        self.library = lib;
        self.playlist = all_positions_vec(self.library.len());
        self.current_index = None;
        self.lyrics = Vec::new();
        self.current_lyric_index = None;
        self.track_meta = None;
        self.reset_timing();
        if self.library.len() > 0 {
            self.library_state.select(Some(0));
            self.playlist_state.select(Some(0));
        } else {
            self.library_state.select(None);
            self.playlist_state.select(None);
        }
        self.status_message = self.locale.msg_rescanned(self.library.len());
        cmds
    }
}

// ───────────────────────── laws of merging ─────────────────────────

/// A path held by either part is held by the two together.
proof fn lemma_has_path_concat(a: Seq<TrackView>, b: Seq<TrackView>, p: Seq<char>)
    ensures
        has_path(a, p) || has_path(b, p) ==> has_path(a + b, p),
{
    if has_path(a, p) {
        let i = choose|i: int| 0 <= i < a.len() && (#[trigger] a[i]).path == p;
        assert((a + b)[i] == a[i]);
    } else if has_path(b, p) {
        let i = choose|i: int| 0 <= i < b.len() && (#[trigger] b[i]).path == p;
        assert((a + b)[a.len() + i] == b[i]);
    }
}

/// Lists holding the same tracks hold the same paths.
proof fn lemma_has_path_same_tracks(s: Seq<TrackView>, t: Seq<TrackView>, p: Seq<char>)
    requires
        s.to_multiset() == t.to_multiset(),
        has_path(s, p),
    ensures
        has_path(t, p),
{
    broadcast use vstd::seq_lib::group_to_multiset_ensures;
    let i = choose|i: int| 0 <= i < s.len() && (#[trigger] s[i]).path == p;
    assert(s.contains(s[i]));
    assert(s.to_multiset().count(s[i]) > 0);
    assert(t.contains(s[i]));
}

/// Every track of `new` has its path in `lib` or among the tracks added from it.
proof fn lemma_fresh_covers(lib: Seq<TrackView>, new: Seq<TrackView>, i: int)
    requires
        0 <= i < new.len(),
    ensures
        has_path(lib + fresh_tracks(lib, new), new[i].path),
    decreases new.len(),
{
    let r = fresh_tracks(lib, new.drop_last());
    if i < new.len() - 1 {
        lemma_fresh_covers(lib, new.drop_last(), i);
        assert(new.drop_last()[i] == new[i]);
        let p = new[i].path;
        if !has_path(lib, new.last().path) {
            let q = choose|q: int| 0 <= q < (lib + r).len() && (#[trigger] (lib + r)[q]).path == p;
            assert((lib + r.push(new.last()))[q] == (lib + r)[q]);
        }
    } else {
        lemma_has_path_concat(lib, fresh_tracks(lib, new), new[i].path);
        if !has_path(lib, new.last().path) {
            let f = fresh_tracks(lib, new);
            assert(f[f.len() - 1] == new.last());
        }
    }
}

/// Where `lib` holds the path of every track of `new`, nothing is added.
proof fn lemma_fresh_none(lib: Seq<TrackView>, new: Seq<TrackView>)
    requires
        forall|i: int| 0 <= i < new.len() ==> has_path(lib, (#[trigger] new[i]).path),
    ensures
        fresh_tracks(lib, new).len() == 0,
    decreases new.len(),
{
    if new.len() > 0 {
        assert forall|i: int| 0 <= i < new.drop_last().len() implies has_path(lib, (#[trigger] new.drop_last()[i]).path) by {
            assert(new.drop_last()[i] == new[i]);
        }
        lemma_fresh_none(lib, new.drop_last());
        assert(has_path(lib, new[new.len() - 1].path));
    }
}

/// Adding the same tracks a second time changes nothing: the library then holds
/// every path they have.
pub proof fn law_merge_idempotent(v: AppView, new: Seq<TrackView>)
    ensures
        tracks_merged(tracks_merged(v, new), new) == tracks_merged(v, new),
        forall|i: int| 0 <= i < new.len() ==> has_path(tracks_merged(v, new).library, (#[trigger] new[i]).path),
{
    reveal(merged_library);
    let added = fresh_tracks(v.library, new);
    let v1 = tracks_merged(v, new);
    let all = v.library + added;
    assert forall|i: int| 0 <= i < new.len() implies has_path(v1.library, (#[trigger] new[i]).path) by {
        lemma_fresh_covers(v.library, new, i);
        if added.len() == 0 {
            assert(all =~= v.library);
        } else {
            crate::library::law_sort_tracks_sorted_permutation(all);
            lemma_has_path_same_tracks(all, v1.library, new[i].path);
        }
    }
    lemma_fresh_none(v1.library, new);
    if added.len() == 0 {
        assert(v1 == v);
    }
}

/// Whether no two tracks of the list share a path.
pub open spec fn paths_distinct(s: Seq<TrackView>) -> bool {
    forall|i: int, j: int| 0 <= i < j < s.len() ==> (#[trigger] s[i]).path != (#[trigger] s[j]).path
}

/// Adding tracks by `unique_append` keeps paths distinct.
proof fn lemma_unique_append_distinct(acc: Seq<TrackView>, new: Seq<TrackView>)
    requires
        paths_distinct(acc),
    ensures
        paths_distinct(unique_append(acc, new)),
    decreases new.len(),
{
    if new.len() > 0 {
        lemma_unique_append_distinct(acc, new.drop_last());
        let r = unique_append(acc, new.drop_last());
        if !has_path(r, new.last().path) {
            let t = r.push(new.last());
            assert forall|i: int, j: int| 0 <= i < j < t.len() implies (#[trigger] t[i]).path != (#[trigger] t[j]).path by {
                if j == t.len() - 1 {
                    assert(t[i] == r[i]);
                    if t[i].path == new.last().path {
                        assert(has_path(r, new.last().path));
                    }
                } else {
                    assert(t[i] == r[i] && t[j] == r[j]);
                }
            }
        }
    }
}

/// Gathering lists by `unique_append` keeps paths distinct.
proof fn lemma_gathered_distinct(acc: Seq<TrackView>, lists: Seq<Seq<TrackView>>)
    requires
        paths_distinct(acc),
    ensures
        paths_distinct(gathered(acc, lists)),
    decreases lists.len(),
{
    if lists.len() > 0 {
        lemma_gathered_distinct(acc, lists.drop_last());
        lemma_unique_append_distinct(gathered(acc, lists.drop_last()), lists.last());
    }
}

/// In a list whose paths are distinct, each track occurs at most once.
proof fn lemma_distinct_counts(s: Seq<TrackView>, x: TrackView)
    requires
        paths_distinct(s),
    ensures
        s.to_multiset().count(x) <= 1,
    decreases s.len(),
{
    broadcast use vstd::seq_lib::group_to_multiset_ensures;
    if s.len() > 0 {
        let s0 = s.drop_last();
        assert forall|i: int, j: int| 0 <= i < j < s0.len() implies (#[trigger] s0[i]).path != (#[trigger] s0[j]).path by {
            assert(s0[i] == s[i] && s0[j] == s[j]);
        }
        lemma_distinct_counts(s0, x);
        assert(s =~= s0.push(s.last()));
        if x == s.last() && s0.contains(x) {
            let i = choose|i: int| 0 <= i < s0.len() && s0[i] == x;
            assert(s[i] == s[s.len() - 1]);
        }
    }
}

/// Sorting (or any reordering that keeps every track) keeps paths distinct.
proof fn lemma_distinct_same_tracks(s: Seq<TrackView>, t: Seq<TrackView>)
    requires
        paths_distinct(s),
        s.to_multiset() == t.to_multiset(),
    ensures
        paths_distinct(t),
{
    broadcast use vstd::seq_lib::group_to_multiset_ensures;
    assert forall|i: int, j: int| 0 <= i < j < t.len() implies (#[trigger] t[i]).path != (#[trigger] t[j]).path by {
        if t[i].path == t[j].path {
            if t[i] == t[j] {
                broadcast use vstd::multiset::group_multiset_axioms;
                let u = t.remove(j);
                assert(u[i] == t[i]);
                assert(u.contains(t[i]));
                vstd::seq_lib::to_multiset_remove(t, j);
                vstd::seq_lib::to_multiset_contains(u, t[i]);
                assert(u.to_multiset().count(t[i]) > 0);
                assert(t.to_multiset().count(t[i]) >= 2);
                lemma_distinct_counts(s, t[i]);
            } else {
                assert(t.contains(t[i]) && t.contains(t[j]));
                vstd::seq_lib::to_multiset_contains(t, t[i]);
                vstd::seq_lib::to_multiset_contains(t, t[j]);
                vstd::seq_lib::to_multiset_contains(s, t[i]);
                vstd::seq_lib::to_multiset_contains(s, t[j]);
                assert(s.contains(t[i]) && s.contains(t[j]));
                let a = choose|a: int| 0 <= a < s.len() && s[a] == t[i];
                let b = choose|b: int| 0 <= b < s.len() && s[b] == t[j];
                if a < b {
                    assert(s[a].path != s[b].path);
                } else {
                    assert(s[b].path != s[a].path);
                }
            }
        }
    }
}

/// A rescan never lists a path twice in the library.
pub proof fn law_rescan_paths_distinct(
    folders: Seq<Option<Seq<(Seq<char>, Option<u64>)>>>,
    lists: Seq<Option<Seq<(Seq<char>, Option<u64>)>>>,
)
    ensures
        paths_distinct(rescanned_library(folders, lists)),
{
    let g1 = gathered(Seq::empty(), folder_lists(folders));
    lemma_gathered_distinct(Seq::empty(), folder_lists(folders));
    lemma_gathered_distinct(g1, playlist_lists(lists));
    let g = gathered(g1, playlist_lists(lists));
    crate::library::law_sort_tracks_sorted_permutation(g);
    lemma_distinct_same_tracks(g, sort_tracks(g));
}

/// The start-up library never lists a path twice either (see `law_rescan_paths_distinct`).
pub proof fn lemma_gathered_sorted_distinct(lists: Seq<Seq<TrackView>>)
    ensures
        paths_distinct(sort_tracks(gathered(Seq::empty(), lists))),
{
    lemma_gathered_distinct(Seq::empty(), lists);
    let g = gathered(Seq::empty(), lists);
    crate::library::law_sort_tracks_sorted_permutation(g);
    lemma_distinct_same_tracks(g, sort_tracks(g));
}

/// Every position `positions_of` gives names a track of the list, one with the
/// path asked for.
pub proof fn law_positions_in_library(lib: Seq<TrackView>, tracks: Seq<TrackView>)
    ensures
        forall|k: int| 0 <= k < positions_of(lib, tracks).len() ==> (#[trigger] positions_of(lib, tracks)[k]) < lib.len(),
        positions_of(lib, tracks).len() <= tracks.len(),
    decreases tracks.len(),
{
    if tracks.len() > 0 {
        law_positions_in_library(lib, tracks.drop_last());
        lemma_last_index_has_path(lib, tracks.last().path);
        let r = positions_of(lib, tracks.drop_last());
        let t = positions_of(lib, tracks);
        assert forall|k: int| 0 <= k < t.len() implies (#[trigger] t[k]) < lib.len() by {
            if k < r.len() {
                assert(t[k] == r[k]);
            }
        }
    }
}

/// Gathering two lists of lists one after the other is gathering the first and
/// then the second.
pub proof fn lemma_gathered_concat(acc: Seq<TrackView>, a: Seq<Seq<TrackView>>, b: Seq<Seq<TrackView>>)
    ensures
        gathered(acc, a + b) == gathered(gathered(acc, a), b),
    decreases b.len(),
{
    if b.len() == 0 {
        assert(a + b =~= a);
    } else {
        lemma_gathered_concat(acc, a, b.drop_last());
        assert((a + b).drop_last() =~= a + b.drop_last());
        assert((a + b).last() == b.last());
    }
}

// ───────────────────────── laws of the named playlists ─────────────────────────

/// Adding tracks keeps the current track and each entry of each named playlist on
/// the file it was on: positions follow their tracks' paths into the sorted library
/// (a position past the end of the library, which names no file, stays as it is).
pub proof fn law_merge_keeps_files(v: AppView, new: Seq<TrackView>)
    requires
        tracks_merged(v, new).library.len() <= usize::MAX,
    ensures
        ({
            let w = tracks_merged(v, new);
            &&& w.saved_playlists.len() == v.saved_playlists.len()
            &&& forall|k: int| 0 <= k < v.saved_playlists.len() ==> {
                &&& (#[trigger] w.saved_playlists[k]).0 == v.saved_playlists[k].0
                &&& w.saved_playlists[k].1.len() == v.saved_playlists[k].1.len()
                &&& forall|m: int| 0 <= m < v.saved_playlists[k].1.len() ==>
                    if v.saved_playlists[k].1[m] < v.library.len() {
                        &&& #[trigger] w.saved_playlists[k].1[m] < w.library.len()
                        &&& w.library[w.saved_playlists[k].1[m] as int].path
                            == v.library[v.saved_playlists[k].1[m] as int].path
                    } else {
                        w.saved_playlists[k].1[m] == v.saved_playlists[k].1[m]
                    }
            }
            &&& crate::startup::names_library_tracks(v.saved_playlists, v.library.len())
                ==> crate::startup::names_library_tracks(w.saved_playlists, w.library.len())
            &&& forall|c: usize| v.current_index == Some(c) && c < v.library.len() ==>
                (w.current_index matches Some(c2) && c2 < w.library.len()
                    && w.library[c2 as int].path == v.library[c as int].path)
        }),
{
    reveal(merged_library);
    let added = fresh_tracks(v.library, new);
    let w = tracks_merged(v, new);
    if added.len() > 0 {
        let all = v.library + added;
        let lib = merged_library(v.library, new);
        crate::library::law_sort_tracks_sorted_permutation(all);
        crate::library::lemma_sort_tracks_len(all);
        assert forall|i: int| 0 <= i < v.library.len() implies has_path(lib, (#[trigger] v.library[i]).path) by {
            assert(all[i] == v.library[i]);
            lemma_has_path_same_tracks(all, lib, v.library[i].path);
        }
        assert(w.library == lib);
        let sv = v.saved_playlists;
        assert forall|k: int, m: int| 0 <= k < sv.len() && 0 <= m < sv[k].1.len() && sv[k].1[m] < v.library.len()
            implies #[trigger] w.saved_playlists[k].1[m] < lib.len()
                && lib[w.saved_playlists[k].1[m] as int].path == v.library[sv[k].1[m] as int].path by {
            let p = sv[k].1[m];
            assert(has_path(lib, v.library[p as int].path));
            lemma_last_index_has_path(lib, v.library[p as int].path);
            assert(w.saved_playlists[k].1[m] == position_followed(v.library, lib, p));
        }
        assert forall|k: int, m: int| 0 <= k < sv.len() && 0 <= m < sv[k].1.len() && sv[k].1[m] >= v.library.len()
            implies #[trigger] w.saved_playlists[k].1[m] == sv[k].1[m] by {
            assert(w.saved_playlists[k].1[m] == position_followed(v.library, lib, sv[k].1[m]));
        }
        if crate::startup::names_library_tracks(sv, v.library.len()) {
            assert forall|k: int, m: int| 0 <= k < w.saved_playlists.len() && 0 <= m < w.saved_playlists[k].1.len()
                implies #[trigger] w.saved_playlists[k].1[m] < w.library.len() by {
                assert(sv[k].1[m] < v.library.len());
            }
        }
        assert forall|c: usize| v.current_index == Some(c) && c < v.library.len() implies
            (w.current_index matches Some(c2) && c2 < w.library.len()
                && w.library[c2 as int].path == v.library[c as int].path) by {
            assert(has_path(lib, v.library[c as int].path));
            lemma_last_index_has_path(lib, v.library[c as int].path);
            let j = last_index_of_path(lib, v.library[c as int].path)->0;
            assert(w.current_index == Some(j as usize));
        }
    }
}

/// Adding a music folder keeps the current track and each entry of each named
/// playlist on the file it was on; a folder that is newly added joins the list of
/// folders at its end.
pub proof fn law_add_folder_keeps_files(
    v: AppView,
    path: Seq<char>,
    is_dir: bool,
    scan: Option<Seq<(Seq<char>, Option<u64>)>>,
)
    requires
        scan matches Some(es) ==> merged_library(v.library, scan_result(es)).len() <= usize::MAX,
    ensures
        ({
            let w = folder_added(v, path, is_dir, scan).0;
            &&& w.saved_playlists.len() == v.saved_playlists.len()
            &&& forall|k: int| 0 <= k < v.saved_playlists.len() ==> {
                &&& (#[trigger] w.saved_playlists[k]).0 == v.saved_playlists[k].0
                &&& w.saved_playlists[k].1.len() == v.saved_playlists[k].1.len()
                &&& forall|m: int| 0 <= m < v.saved_playlists[k].1.len() ==>
                    if v.saved_playlists[k].1[m] < v.library.len() {
                        &&& #[trigger] w.saved_playlists[k].1[m] < w.library.len()
                        &&& w.library[w.saved_playlists[k].1[m] as int].path
                            == v.library[v.saved_playlists[k].1[m] as int].path
                    } else {
                        w.saved_playlists[k].1[m] == v.saved_playlists[k].1[m]
                    }
            }
            &&& forall|c: usize| v.current_index == Some(c) && c < v.library.len() ==>
                (w.current_index matches Some(c2) && c2 < w.library.len()
                    && w.library[c2 as int].path == v.library[c as int].path)
            &&& (is_dir && !v.config.music_folders.contains(path)
                ==> w.config.music_folders == v.config.music_folders.push(path))
        }),
{
    reveal(merged_library);
    if is_dir && !v.config.music_folders.contains(path) {
        let v1 = AppView {
            config: ConfigView { music_folders: v.config.music_folders.push(path), ..v.config },
            ..v
        };
        match scan {
            Some(es) => {
                if fresh_tracks(v1.library, scan_result(es)).len() > 0 {
                    assert(tracks_merged(v1, scan_result(es)).library == merged_library(v1.library, scan_result(es)));
                }
                law_merge_keeps_files(v1, scan_result(es));
            },
            None => {},
        }
    }
}

/// After a rescan each named playlist names only tracks of the rebuilt library.
pub proof fn law_rescan_playlists_in_library(
    v: AppView,
    now: u128,
    folders: Seq<Option<Seq<(Seq<char>, Option<u64>)>>>,
    lists: Seq<Option<Seq<(Seq<char>, Option<u64>)>>>,
)
    ensures
        crate::startup::names_library_tracks(
            rescanned(v, now, folders, lists).0.saved_playlists,
            rescanned(v, now, folders, lists).0.library.len(),
        ),
{
    let w = rescanned(v, now, folders, lists).0;
    let lib = rescanned_library(folders, lists);
    assert forall|k: int, m: int| 0 <= k < w.saved_playlists.len() && 0 <= m < w.saved_playlists[k].1.len()
        implies #[trigger] w.saved_playlists[k].1[m] < w.library.len() by {
        let ts = tracks_at(v.library, v.saved_playlists[k].1);
        law_positions_in_library(lib, ts);
        assert(w.saved_playlists[k].1 == positions_of(lib, ts));
    }
}

} // verus!
