//! Tunable constants for the kill-streak timer overlay, and the names of
//! the game the overlay attaches to.

use vstd::prelude::*;

verus! {

/// Name the program reports itself under.
pub const APP_NAME: &'static str = "cs2-killtimer";

/// Executable of the game process.
pub const TARGET_PROCESS: &'static str = "cs2.exe";

/// Game module whose offsets the timer reads through.
pub const TARGET_MODULE: &'static str = "client.dll";

/// Title prefix of the game's window.
pub const TARGET_WINDOW_TITLE: &'static str = "Counter-Strike 2";

/// Idle polling interval (ms): used when not attached or not in combat.
pub const POLL_IDLE_MS: u64 = 1000;

/// Combat polling interval (ms): used when the local player is alive and the round is live.
pub const POLL_COMBAT_MS: u64 = 20;

/// Timer polling interval (ms): used while a streak timer is displayed.
pub const POLL_TIMER_MS: u64 = 50;

/// Pause (ms) before attaching again after the game process was lost.
pub const REATTACH_DELAY_MS: u64 = 500;

/// Overlay UI tick (ms).
pub const OVERLAY_TICK_MS: u64 = 33;

/// Overlay base font size (pre supersample).
pub const OVERLAY_FONT_SIZE: u32 = 35;

/// Color shown while the overlay is hidden or reset.
pub const OVERLAY_HIDDEN_RGB: (u8, u8, u8) = (220, 40, 40);

/// Timer color, low band (a fresh streak).
pub const OVERLAY_TIMER_RGB_LOW: (u8, u8, u8) = (230, 30, 30);

/// Timer color, mid band.
pub const OVERLAY_TIMER_RGB_MID: (u8, u8, u8) = (255, 140, 0);

/// Timer color, high band (the streak window has run out).
pub const OVERLAY_TIMER_RGB_HIGH: (u8, u8, u8) = (50, 220, 90);

/// Fade-in duration (ms) when the timer value changes.
pub const OVERLAY_FADE_MS: u64 = 220;

/// Outline radius (px) around the rasterized text.
pub const OVERLAY_OUTLINE_RADIUS_PX: u32 = 2;

/// Outline color: a slight blue-black for contrast over most backgrounds.
pub const OVERLAY_OUTLINE_RGB: (u8, u8, u8) = (12, 12, 18);

} // verus!
