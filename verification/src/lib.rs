//! Kill-streak timer for a game overlay: the verified core.

pub mod game;
pub mod handles;
pub mod kill_timer;
pub mod memory;
pub mod offsets;
pub mod overlay;
pub mod render;
pub mod settings;
pub mod state;
pub mod text;
pub mod weapons;
