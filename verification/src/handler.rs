//! Compositor bindings a virtual key can run.
use vstd::prelude::*;

use crate::bindings::VirtualKeyboardBindings;
use crate::model::{BindingsView, KeyboardId, PRESSED};
use crate::modifiers::ModifiersState;

verus! {

/// A keysym's number.
pub type Keysym = u32;

/// The compositor, as virtual keyboards see it.
pub trait VirtualKeyboardBindingHandler: Sized {
    /// The bindings kept in this state.
    closed spec fn bindings(&self) -> VirtualKeyboardBindings {
        arbitrary()
    }

    /// Whether a compositor binding consumes the press of `sym` under
    /// `modifiers`.
    closed spec fn binds(&self, modifiers: ModifiersState, sym: Keysym) -> bool {
        arbitrary()
    }

    /// The bindings as running that binding leaves them: an action may switch
    /// the seat's layout, and with it what is recorded.
    closed spec fn bindings_after(
        &self,
        modifiers: ModifiersState,
        sym: Keysym,
    ) -> VirtualKeyboardBindings {
        arbitrary()
    }

    /// The lookups made so far among the compositor's bindings, oldest first:
    /// each one runs the binding that answers to it, if any does.
    closed spec fn lookups(&self) -> Seq<(ModifiersState, Keysym)> {
        arbitrary()
    }

    /// Lends out the bindings, and looks nothing up. A borrower that leaves them as
    /// they were leaves everything as it was.
    fn virtual_keyboard_bindings(&mut self) -> (bindings: &mut VirtualKeyboardBindings)
        ensures
            *bindings == old(self).bindings(),
            final(self).bindings() == *final(bindings),
            *final(bindings) == old(self).bindings() ==> *final(self) == *old(self),
            final(self).lookups() == old(self).lookups(),
    ;

    /// Execute the compositor binding for `modifiers` + `sym`, if any.
    /// Returns `true` when a binding consumed the key press (it must not
    /// reach the focused client). What it does to the bindings it does by their
    /// own operations, which keep them well formed.
    fn virtual_key_binding(&mut self, modifiers: &ModifiersState, sym: Keysym) -> (consumed: bool)
        ensures
            consumed == old(self).binds(*modifiers, sym),
            final(self).bindings() == old(self).bindings_after(*modifiers, sym),
            old(self).bindings()@.wf() ==> final(self).bindings()@.wf(),
            final(self).lookups() == old(self).lookups().push((*modifiers, sym)),
    ;
}

/// The lookups once a key event is handled, `lookups` being those made before: a
/// press on a keyboard with a keymap is looked up once, under the modifiers that
/// keyboard holds, and no other event is looked up at all.
pub open spec fn lookups_after(
    b: BindingsView,
    lookups: Seq<(ModifiersState, Keysym)>,
    id: KeyboardId,
    key_state: u32,
    sym: Keysym,
) -> Seq<(ModifiersState, Keysym)> {
    match b.keymap_of(id) {
        Some(keymap) if key_state == PRESSED => lookups.push((keymap.mods, sym)),
        _ => lookups,
    }
}

/// Hands a virtual `key` event to the handler's binding lookup, under the
/// modifiers its keyboard holds. `sym` is what the keyboard's own xkb state
/// resolves [`VirtualKeyboardBindings::lookup_keycode`] to; it is not read where
/// that gives none. Returns `true` when the event was consumed (a bound press,
/// or the release paired with one).
///
/// The modifiers are the ones the client would be told, so a combo the
/// compositor consumes and one that reaches the client never disagree.
pub fn handle_key<D: VirtualKeyboardBindingHandler>(
    state: &mut D,
    id: KeyboardId,
    key: u32,
    key_state: u32,
    sym: Keysym,
) -> (consumed: bool)
    requires
        old(state).bindings()@.wf(),
    ensures
        final(state).bindings()@.wf(),
        match old(state).bindings()@.keymap_of(id) {
            Some(keymap) if key_state == PRESSED => {
                &&& consumed == old(state).binds(keymap.mods, sym)
                &&& final(state).bindings()@ == (if consumed {
                    old(state).bindings_after(keymap.mods, sym)@.swallow(id, key)
                } else {
                    old(state).bindings_after(keymap.mods, sym)@
                })
            },
            _ => {
                &&& consumed == old(state).bindings()@.owes_swallow(id, key, key_state)
                &&& final(state).bindings()@ == (if key_state == PRESSED {
                    old(state).bindings()@
                } else {
                    old(state).bindings()@.release(id, key)
                })
            },
        },
        final(state).lookups() == lookups_after(
            old(state).bindings()@,
            old(state).lookups(),
            id,
            key_state,
            sym,
        ),
        key_state == PRESSED && old(state).bindings()@.keymap_of(id) is None ==> *final(state)
            == *old(state),
        !old(state).bindings()@.keyboards.contains_key(id) ==> *final(state) == *old(state),
{
    if key_state != PRESSED {
        return state.virtual_keyboard_bindings().release_swallowed(id, key);
    }
    let modifiers = match state.virtual_keyboard_bindings().mods(id) {
        Some(mods) => mods,
        None => return false,
    };
    if !state.virtual_key_binding(&modifiers, sym) {
        return false;
    }
    state.virtual_keyboard_bindings().swallow(id, key);
    true
}

/// A key event that no binding and no owed swallow consumed. Only such an event
/// can be delivered to a client.
pub struct UnclaimedKey {
    id: KeyboardId,
    key: u32,
    key_state: u32,
}

/// An unclaimed key event as contracts see it.
pub struct UnclaimedView {
    pub id: KeyboardId,
    pub key: u32,
    pub key_state: u32,
}

impl View for UnclaimedKey {
    type V = UnclaimedView;

    closed spec fn view(&self) -> UnclaimedView {
        UnclaimedView { id: self.id, key: self.key, key_state: self.key_state }
    }
}

impl UnclaimedKey {
    /// The virtual keyboard it comes from.
    pub fn id(&self) -> (id: KeyboardId)
        ensures
            id == self@.id,
    {
        self.id
    }

    /// The key's evdev code.
    pub fn key(&self) -> (key: u32)
        ensures
            key == self@.key,
    {
        self.key
    }

    /// The key's state as the wire has it.
    pub fn key_state(&self) -> (key_state: u32)
        ensures
            key_state == self@.key_state,
    {
        self.key_state
    }
}

/// Whether a key event is consumed, where `bound` says whether a binding answers
/// to it.
pub open spec fn consumes(
    b: BindingsView,
    bound: bool,
    id: KeyboardId,
    key: u32,
    key_state: u32,
) -> bool {
    if b.looks_up(id, key_state) {
        bound
    } else {
        b.owes_swallow(id, key, key_state)
    }
}

/// Handles a key event as [`handle_key`] does, and gives it back for delivery
/// unless it was consumed.
pub fn claim_key<D: VirtualKeyboardBindingHandler>(
    state: &mut D,
    id: KeyboardId,
    key: u32,
    key_state: u32,
    sym: Keysym,
) -> (unclaimed: Option<UnclaimedKey>)
    requires
        old(state).bindings()@.wf(),
    ensures
        final(state).bindings()@.wf(),
        ({
            let b = old(state).bindings()@;
            let mods = b.keymap_of(id)->0.mods;
            let bound = old(state).binds(mods, sym);
            let consumed = consumes(b, bound, id, key, key_state);
            &&& match unclaimed {
                None => consumed,
                Some(event) => !consumed && event@ == (UnclaimedView { id, key, key_state }),
            }
            &&& final(state).bindings()@ == (if b.looks_up(id, key_state) {
                if consumed {
                    old(state).bindings_after(mods, sym)@.swallow(id, key)
                } else {
                    old(state).bindings_after(mods, sym)@
                }
            } else if key_state == PRESSED {
                b
            } else {
                b.release(id, key)
            })
        }),
        final(state).lookups() == lookups_after(
            old(state).bindings()@,
            old(state).lookups(),
            id,
            key_state,
            sym,
        ),
        key_state == PRESSED && old(state).bindings()@.keymap_of(id) is None ==> *final(state)
            == *old(state),
        !old(state).bindings()@.keyboards.contains_key(id) ==> *final(state) == *old(state),
{
    if handle_key(state, id, key, key_state, sym) {
        None
    } else {
        Some(UnclaimedKey { id, key, key_state })
    }
}

} // verus!
