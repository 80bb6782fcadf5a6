//! Core logic of the Horikawa terminal music player: the play queue with
//! shuffle and repeat, slash-command parsing and completion, the text
//! input line, the file browser model, and the small value types shared
//! by the frontends.

pub mod text;
pub mod playlist;
pub mod command;
pub mod input;
pub mod paths;
pub mod library;
pub mod dir_playlist;
pub mod view;
pub mod browser;
pub mod player;
pub mod protocol;
pub mod settings;
pub mod popup;
pub mod persist;
pub mod processor;
pub mod tui;
pub mod keys;
pub mod integrations;
pub mod track_info;
