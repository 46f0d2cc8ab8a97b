//! The overlay state that the kill-timer worker publishes and the overlay
//! loop reads.

use vstd::prelude::*;

use crate::settings::OVERLAY_HIDDEN_RGB;

verus! {

/// What the overlay shows: `(visible, value, rgb, connected)`.
pub struct SharedState {
    visible: bool,
    value: u32,
    rgb: (u8, u8, u8),
    connected: bool,
}

impl View for SharedState {
    type V = (bool, u32, (u8, u8, u8), bool);

    closed spec fn view(&self) -> (bool, u32, (u8, u8, u8), bool) {
        (self.visible, self.value, self.rgb, self.connected)
    }
}

/// The state before anything was published: hidden, value 1, disconnected.
pub open spec fn initial_state() -> (bool, u32, (u8, u8, u8), bool) {
    (false, 1, OVERLAY_HIDDEN_RGB, false)
}

/// The state after `set(visible, value, rgb, connected)`: the value is at least 1.
pub open spec fn set_state(visible: bool, value: u32, rgb: (u8, u8, u8), connected: bool) -> (
    bool,
    u32,
    (u8, u8, u8),
    bool,
) {
    (visible, if value < 1 {
        1
    } else {
        value
    }, rgb, connected)
}

impl SharedState {
    /// The shown value is never zero.
    pub closed spec fn wf(&self) -> bool {
        self.value >= 1
    }

    pub fn new() -> (s: Self)
        ensures
            s@ == initial_state(),
            s.wf(),
    {
        SharedState { visible: false, value: 1, rgb: OVERLAY_HIDDEN_RGB, connected: false }
    }

    /// Publish a new state; a value of zero is shown as 1.
    pub fn set(&mut self, visible: bool, value: u32, rgb: (u8, u8, u8), connected: bool)
        ensures
            final(self)@ == set_state(visible, value, rgb, connected),
            final(self).wf(),
    {
        let v = if value < 1 {
            1
        } else {
            value
        };
        self.visible = visible;
        self.value = v;
        self.rgb = rgb;
        self.connected = connected;
    }

    /// `(visible, value, rgb, connected)`.
    pub fn snapshot(&self) -> (r: (bool, u32, (u8, u8, u8), bool))
        ensures
            r == self@,
            self.wf() ==> r.1 >= 1,
    {
        (self.visible, self.value, self.rgb, self.connected)
    }
}

impl Default for SharedState {
    fn default() -> (s: Self)
        ensures
            s@ == initial_state(),
    {
        Self::new()
    }
}

/// The overlay never shows zero: the state `set` publishes (and a later
/// snapshot gives back) has a value of at least 1, and keeps every other
/// argument, and a positive value, as given; the initial value is 1.
pub proof fn published_value_at_least_one(visible: bool, value: u32, rgb: (u8, u8, u8), connected: bool)
    ensures
        set_state(visible, value, rgb, connected).1 >= 1,
        set_state(visible, value, rgb, connected).0 == visible,
        set_state(visible, value, rgb, connected).2 == rgb,
        set_state(visible, value, rgb, connected).3 == connected,
        value >= 1 ==> set_state(visible, value, rgb, connected) == (visible, value, rgb, connected),
        initial_state().1 == 1,
{
}

} // verus!
