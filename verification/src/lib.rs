//! The dictation engine of Jot: session lifecycle, hotkey grammar, transcript
//! checks, history and the rules of every screen, stated as contracts and
//! proved.
//!
//! Files, devices, windows and the network are the program's business. This
//! crate decides what to do with what they report.

pub mod audio;
pub mod autostart;
pub mod clock;
pub mod coordinator;
pub mod credentials;
pub mod csv;
pub mod dictionary;
pub mod file_dialog;
pub mod file_layout;
pub mod gemini;
pub mod history;
pub mod hotkey;
pub mod hotkey_hook;
pub mod ids;
pub mod insertion;
pub mod json;
pub mod levels;
pub mod meta;
pub mod pattern;
pub mod pill;
pub mod prompt;
pub mod rank;
pub mod recovery;
pub mod replacement;
pub mod settings;
pub mod shell;
pub mod sound;
pub mod state_machine;
pub mod text;
pub mod text_field;
pub mod theme;
pub mod timeout;
pub mod transcription;
pub mod tray;
pub mod unicode;
pub mod update;
pub mod validation;
pub mod views;
pub mod win32;
pub mod window_shell;
