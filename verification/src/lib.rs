//! The word tracker of a Vietnamese input method: it follows the keys of one
//! word, decides when the word on screen is rewritten, put back or replaced by
//! a macro, and says which keystrokes to send for that.
pub mod config;
pub mod ffi;
pub mod handler;
pub mod hotkey;
pub mod input;
pub mod keymap;
pub mod macros;
pub mod platform;
pub mod scripting;
pub mod text;
pub mod ui;
