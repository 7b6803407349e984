//! The player's saved settings.
use vstd::prelude::*;

verus! {

/// The saved settings: music folders and XSPF playlists to load, the interface
/// language ("en" or "zh"; `None` detects it) and the audio output (`None` is the
/// system default).  Paths are kept as text.
#[derive(Clone, Debug)]
pub struct Config {
    pub music_folders: Vec<String>,
    pub xspf_playlists: Vec<String>,
    pub language: Option<String>,
    pub audio_host: Option<String>,
}

/// The settings as plain values.
pub struct ConfigView {
    pub music_folders: Seq<Seq<char>>,
    pub xspf_playlists: Seq<Seq<char>>,
    pub language: Option<Seq<char>>,
    pub audio_host: Option<Seq<char>>,
}

/// The characters of each string.
pub open spec fn strings_view(v: Seq<String>) -> Seq<Seq<char>> {
    Seq::new(v.len(), |i: int| v[i]@)
}

impl Config {
    /// The settings as plain values.
    pub open spec fn view(&self) -> ConfigView {
        ConfigView {
            music_folders: strings_view(self.music_folders@),
            xspf_playlists: strings_view(self.xspf_playlists@),
            language: match self.language { Some(s) => Some(s@), None => None },
            audio_host: match self.audio_host { Some(s) => Some(s@), None => None },
        }
    }

    /// No folders, no playlists, language and audio output chosen automatically.
    pub fn new() -> (c: Config)
        ensures
            c.music_folders@.len() == 0,
            c.xspf_playlists@.len() == 0,
            c.language is None,
            c.audio_host is None,
    {
        Config { music_folders: Vec::new(), xspf_playlists: Vec::new(), language: None, audio_host: None }
    }
}

/// Whether `s` is one of the strings of `v`.
fn holds(v: &Vec<String>, s: &str) -> (res: bool)
    ensures
        res == strings_view(v@).contains(s@),
{
    let ghost sv = strings_view(v@);
    let mut i: usize = 0;
    while i < v.len()
        invariant
            i <= v@.len() == sv.len(),
            sv == strings_view(v@),
            forall|k: int| 0 <= k < i ==> sv[k] != s@,
        decreases v@.len() - i,
    {
        if crate::text::str_eq(v[i].as_str(), s) {
            assert(sv[i as int] == s@);
            return true;
        }
        i = i + 1;
    }
    false
}

/// `v` with `s` appended where it does not hold it yet.
pub open spec fn with_path(v: Seq<Seq<char>>, s: Seq<char>) -> Seq<Seq<char>> {
    if v.contains(s) { v } else { v.push(s) }
}

/// Appends `s` to `v` where it does not hold it yet; says whether it did.
fn add_once(v: &mut Vec<String>, s: String) -> (added: bool)
    ensures
        strings_view(final(v)@) == with_path(strings_view(old(v)@), s@),
        added == !strings_view(old(v)@).contains(s@),
{
    if holds(v, s.as_str()) {
        return false;
    }
    let ghost o = v@;
    let ghost p = s@;
    v.push(s);
    assert(strings_view(v@) =~= strings_view(o).push(p));
    true
}

impl Config {
    /// Lists the music folder `path` (already resolved) unless it is listed; says
    /// whether it was added.
    pub fn add_music_folder(&mut self, path: String) -> (added: bool)
        ensures
            final(self)@ == (ConfigView {
                music_folders: with_path(old(self)@.music_folders, path@),
                ..old(self)@
            }),
            added == !old(self)@.music_folders.contains(path@),
    {
        add_once(&mut self.music_folders, path)
    }

    /// Lists the playlist file `path` (already resolved) unless it is listed; says
    /// whether it was added.
    pub fn add_xspf_playlist(&mut self, path: String) -> (added: bool)
        ensures
            final(self)@ == (ConfigView {
                xspf_playlists: with_path(old(self)@.xspf_playlists, path@),
                ..old(self)@
            }),
            added == !old(self)@.xspf_playlists.contains(path@),
    {
        add_once(&mut self.xspf_playlists, path)
    }
}

impl Default for Config {
    fn default() -> (c: Config)
        ensures
            c.music_folders@.len() == 0,
            c.xspf_playlists@.len() == 0,
            c.language is None,
            c.audio_host is None,
    {
        Config::new()
    }
}

} // verus!
