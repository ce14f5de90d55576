//! The requests of the protocol, from the wire to what they ask for.
use vstd::prelude::*;

use crate::bindings::VirtualKeyboardBindings;
use crate::events::{ClientEvent, SeatState};
use crate::keymaps;
use crate::keymaps::restore_seat_keymap;
use crate::keys;
use crate::keys::release_forwarded;
use crate::model;
use crate::model::{BindingsView, KeyboardId, WlKeyboardId, EVDEV_OFFSET};
use crate::modifiers;
use crate::modifiers::XkbMask;
use crate::tracking;
use crate::tracking::{UploadAction, UploadEvent};

verus! {

broadcast use vstd::std_specs::hash::group_hash_axioms;

/// A request of `zwp_virtual_keyboard_manager_v1`.
#[derive(Clone, Copy, Debug, PartialEq, Eq, Structural)]
pub enum ManagerRequest {
    /// A virtual keyboard was made; it is named `id` from here on.
    CreateVirtualKeyboard { id: KeyboardId },
    /// A request that asks for nothing here.
    Other,
}

/// A request of `zwp_virtual_keyboard_v1`.
#[derive(Clone, Copy, Debug, PartialEq, Eq, Structural)]
pub enum KeyboardRequest {
    Keymap { format: u32, size: u32 },
    Key { time: u32, key: u32, state: u32 },
    Modifiers { depressed: u32, latched: u32, locked: u32, group: u32 },
    /// A request that asks for nothing here.
    Other,
}

/// What a request of `zwp_virtual_keyboard_v1` asks for.
#[derive(Debug, PartialEq, Eq)]
pub enum RequestAction {
    /// Post the protocol error `no_keymap` with this message.
    NoKeymap { message: &'static str },
    /// Go on with the upload of a keymap.
    Upload(UploadAction),
    /// Handle the key, with the sym of this xkb keycode where there is one, and
    /// deliver it unless it is consumed.
    Key { keycode: Option<u32> },
    /// Put the mask on the keyboard's xkb state, take over the modifiers it then
    /// shows, and deliver them.
    ApplyMask { mask: XkbMask },
    /// Nothing.
    Nothing,
}

/// The user data of a virtual keyboard manager.
#[derive(Debug)]
pub struct VirtualKeyboardManagerUserData;

impl VirtualKeyboardManagerUserData {
    /// Takes in a request of the manager.
    pub fn request(&self, bindings: &mut VirtualKeyboardBindings, request: ManagerRequest)
        requires
            old(bindings)@.wf(),
        ensures
            final(bindings)@ == (match request {
                ManagerRequest::CreateVirtualKeyboard { id } => old(bindings)@.with_keyboard(
                    id,
                    model::new_keyboard(),
                ),
                ManagerRequest::Other => old(bindings)@,
            }),
            final(bindings)@.wf(),
            request is Other ==> *final(bindings) == *old(bindings),
    {
        if let ManagerRequest::CreateVirtualKeyboard { id } = request {
            bindings.create_keyboard(id);
        }
    }
}

/// Whether `action` is the one a request of the keyboard `id` asks for.
pub open spec fn request_asks_for(
    b: BindingsView,
    id: KeyboardId,
    request: KeyboardRequest,
    action: RequestAction,
) -> bool {
    match request {
        KeyboardRequest::Keymap { format, size } => {
            &&& action matches RequestAction::Upload(step)
            &&& tracking::asks_for(
                b,
                id,
                UploadEvent::Offered { format, size: size as usize },
                step,
            )
        },
        KeyboardRequest::Key { time, key, state } => if b.keymap_of(id) is None {
            action matches RequestAction::NoKeymap { message } && message@
                == "`key` sent before keymap."@
        } else {
            action == (RequestAction::Key {
                keycode: if b.looks_up(id, state) {
                    Some((key + EVDEV_OFFSET) as u32)
                } else {
                    None
                },
            })
        },
        KeyboardRequest::Modifiers { depressed, latched, locked, group } => if b.keymap_of(
            id,
        ) is None {
            action matches RequestAction::NoKeymap { message } && message@
                == "`modifiers` sent before keymap."@
        } else {
            action == (RequestAction::ApplyMask {
                mask: modifiers::mask_of(depressed, latched, locked, group),
            })
        },
        KeyboardRequest::Other => action == RequestAction::Nothing,
    }
}

/// The bindings without the keyboard `id`.
pub open spec fn without_keyboard(b: BindingsView, id: KeyboardId) -> BindingsView {
    BindingsView { keyboards: b.keyboards.remove(id), ..b }
}

/// The user data of a virtual keyboard: its keymap and modifier state live in
/// [`VirtualKeyboardBindings`], under this name.
#[derive(Debug)]
pub struct VirtualKeyboardUserData {
    pub id: KeyboardId,
}

impl VirtualKeyboardUserData {
    /// Takes in a request of the virtual keyboard: what it asks for. Nothing is
    /// recorded yet; what is asked for decides.
    pub fn request(&self, bindings: &mut VirtualKeyboardBindings, request: KeyboardRequest) -> (action:
        RequestAction)
        requires
            old(bindings)@.wf(),
            request matches KeyboardRequest::Key { key, state, .. } ==> (old(bindings)@.looks_up(
                self.id,
                state,
            ) ==> key <= u32::MAX - EVDEV_OFFSET),
        ensures
            request_asks_for(old(bindings)@, self.id, request, action),
            *final(bindings) == *old(bindings),
    {
        match request {
            KeyboardRequest::Keymap { format, size } => RequestAction::Upload(
                bindings.track_keymap(self.id, UploadEvent::Offered { format, size: size as usize }),
            ),
            KeyboardRequest::Key { time: _, key, state } => {
                if !bindings.has_keymap(self.id) {
                    return RequestAction::NoKeymap { message: "`key` sent before keymap." };
                }
                RequestAction::Key { keycode: bindings.lookup_keycode(self.id, key, state) }
            },
            KeyboardRequest::Modifiers { depressed, latched, locked, group } => {
                if !bindings.has_keymap(self.id) {
                    return RequestAction::NoKeymap { message: "`modifiers` sent before keymap." };
                }
                RequestAction::ApplyMask { mask: XkbMask::new(depressed, latched, locked, group) }
            },
            KeyboardRequest::Other => RequestAction::Nothing,
        }
    }

    /// Forgets the virtual keyboard, which has been destroyed: releases what it
    /// left pressed in the focused client, then puts the seat's keymap and modifiers
    /// back. Here rather than at the next physical key, which on a touch-only device
    /// may never come.
    pub fn destroyed(
        &self,
        bindings: &mut VirtualKeyboardBindings,
        focus: &Option<Vec<WlKeyboardId>>,
        time: u32,
        seat: Option<SeatState>,
        live: &Vec<WlKeyboardId>,
    ) -> (events: Vec<ClientEvent>)
        requires
            old(bindings)@.wf(),
        ensures
            final(bindings)@.wf(),
            if old(bindings)@.keyboards.contains_key(self.id) {
                &&& final(bindings)@ == keymaps::after_restore(
                    without_keyboard(old(bindings)@, self.id),
                    seat,
                )
                &&& exists|released: Seq<ClientEvent>| #[trigger]
                    keys::releases(
                        released,
                        keys::focus_view(*focus),
                        old(bindings)@.keyboards[self.id].forwarded,
                        time,
                    ) && events@ == released + keymaps::restore_events(old(bindings)@, seat, live@)
            } else {
                *final(bindings) == *old(bindings) && events@.len() == 0
            },
    {
        if !bindings.keyboards.contains_key(&self.id) {
            return Vec::new();
        }
        let ghost before = bindings@;
        let kb = match bindings.keyboards.remove(&self.id) {
            Some(kb) => kb,
            None => return Vec::new(),
        };
        assert(bindings@ =~= without_keyboard(before, self.id));
        assert(kb.model() == before.keyboards[self.id]);
        let mut events = release_forwarded(&kb.forwarded, focus, time);
        let mut restored = restore_seat_keymap(bindings, seat, live);
        let ghost released = events@;
        assert(keys::releases(
            released,
            keys::focus_view(*focus),
            before.keyboards[self.id].forwarded,
            time,
        ));
        events.append(&mut restored);
        assert(events@ =~= released + keymaps::restore_events(before, seat, live@));
        events
    }
}

} // verus!
