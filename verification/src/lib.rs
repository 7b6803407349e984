//! A terminal music player's core: library, playlists, lyrics, playlists files,
//! localisation and the player state machine, with their contracts.
pub mod text;
pub mod track;
pub mod locale;
pub mod lyrics;
pub mod xspf;
pub mod display;
pub mod nav;
pub mod library;
pub mod config;
pub mod app;
pub mod playback;
pub mod settings;
pub mod loading;
pub mod startup;
pub mod panels;
pub mod input;
pub mod screen;
pub mod devices;
