//! Verified core of a shortcut manager: the shortcut store with its search and
//! category listing, hotkey parsing and dispatch, launch planning, and the
//! small pieces of state that the launcher window keeps.

pub mod hotkeys;
pub mod launch;
pub mod launcher;
pub mod paths;
pub mod ranking;
pub mod shortcut;
pub mod store;
pub mod table;
pub mod text;
pub mod tray;
