//! Remaps headphone-remote button presses to keystrokes, shell commands and
//! modes, from a small mapping language.
//!
//! `load` reads a mapping file into a `MapGroup`; `run_key_action` handles
//! one press of a trigger against it, keeping the active mode in a
//! `DispatchState`.

pub mod action;
pub mod dispatch;
pub mod error;
pub mod grammar;
pub mod group;
pub mod keys;
pub mod keystroke;
pub mod laws;
pub mod sounds;
pub mod table;
pub mod text;

pub use action::{Action, ActionKind, MapAction, MapKind, action_map};
pub use dispatch::{DispatchState, KeyActionResult, ModeChange, run_key_action};
pub use error::{Expected, ParseError};
pub use grammar::{
    action, definitions, headphone_button, load, map_collection, map_group, map_kind, maps, mode,
};
pub use group::{Definition, MapGroup, Mapping, Mode};
pub use keys::{Flag, HeadphoneButton, KeyCode, KeyboardKey, KeyboardKeyWithModifiers, Modifiers, NXKey};
pub use sounds::{Sound, play_mode_activated, play_mode_deactivated};
pub use table::{Entry, MapCollection};
