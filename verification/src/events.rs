//! What reaches a client, and what the seat reports.
use vstd::prelude::*;

use crate::model::WlKeyboardId;
use crate::modifiers::ModifiersState;

verus! {

/// Whether a key went down or up.
#[derive(Clone, Copy, Debug, PartialEq, Eq, Structural)]
pub enum KeyState {
    Released,
    Pressed,
}

/// An event to be sent, in the order given; each takes a fresh serial.
#[derive(Clone, Copy, Debug, PartialEq, Eq, Structural)]
pub enum ClientEvent {
    /// The seat's own keymap, to one `wl_keyboard`.
    SeatKeymap { kbd: WlKeyboardId },
    /// Modifiers, to the surface that has keyboard focus.
    Modifiers { mods: ModifiersState },
    /// A key, to one `wl_keyboard`.
    Key { kbd: WlKeyboardId, time: u32, key: u32, state: KeyState },
}

/// What the seat's physical keyboard reports.
#[derive(Clone, Copy, Debug, PartialEq, Eq, Structural)]
pub struct SeatState {
    pub mods: ModifiersState,
    /// Whether anything has keyboard focus.
    pub focused: bool,
}

} // verus!
