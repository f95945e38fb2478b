//! Verified core of the dungeon timer: slot timers, the tick engine,
//! hotkey text handling, window docking geometry and the small parsers
//! that the desktop shell relies on.

pub mod timer;
pub mod commands;
pub mod ids;
pub mod models;
pub mod overlay;
pub mod platform;
pub mod store;
pub mod utils;
