# tui-musicplayer

A terminal music player whose core is verified with Verus.

`src/` is the library: the player's state machine and everything it decides,
each function with a `requires` / `ensures` contract over plain mathematical
views (`AppView`, `TrackView`, sequences of characters).  Outside work (the
audio output, files, the settings file, the terminal) is never done in the
library: an operation returns a list of `Command`s, and the caller carries them
out and reports back (`finish_load_track`, `finish_seek`, `add_music_folder`,
`import_xspf_file`, `rescan_all`).

| module      | what it holds |
| ----------- | ------------- |
| `text`      | characters and strings: digits, trimming, search, code-point order |
| `track`     | tracks, play modes, audio file names, size / duration / channel texts |
| `locale`    | the English and Chinese interface texts |
| `lyrics`    | LRC time tags and lyric files |
| `xspf`      | XSPF playlist files (read with roxmltree) |
| `display`   | duration text, truncation and word wrapping by terminal columns |
| `nav`       | rectangles and list selections |
| `library`   | the library's order (stable sort by lower-case file stem) and path lookups |
| `config`    | the saved settings |
| `app`       | the player's state, its plain view, and the commands |
| `playback`  | playing, pausing, fades, seeking, the clock tick |
| `settings`  | the settings page and the named playlists |
| `loading`   | scanning, merging and importing tracks, rescanning |
| `startup`   | the first state |
| `panels`    | panels, focus, playlist editing |
| `input`     | keys (including typing a path) and the mouse |
| `screen`    | the text the screen shows |
| `devices`   | audio output devices |

Laws of the library are public proof functions named `law_*`.

`app/` is the program around the library: command line (clap), settings file
(serde_json), terminal and drawing (crossterm, ratatui), audio output (rodio,
cpal), folder scans (walkdir) and logging (simplelog).

`tests/` runs the library on concrete values.
