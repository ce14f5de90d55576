//! Keys and modifiers on their way to the focused client.
use std::collections::HashSet;

use vstd::prelude::*;

use crate::bindings::VirtualKeyboardBindings;
use crate::events::{ClientEvent, KeyState};
use crate::handler::UnclaimedKey;
use crate::keymaps::{KeymapPass, PassView};
use crate::model::{BindingsView, KeyboardId, WlKeyboardId, EVDEV_OFFSET, PRESSED};
use crate::modifiers::ModifiersState;

verus! {

broadcast use vstd::std_specs::hash::group_hash_axioms;

/// What a key's wire value says: every value but [`PRESSED`] is a release.
pub open spec fn wire_state(key_state: u32) -> KeyState {
    if key_state == PRESSED {
        KeyState::Pressed
    } else {
        KeyState::Released
    }
}

/// The modifiers a pass must carry with the keymaps it sent.
pub open spec fn resync(b: BindingsView, pass: PassView) -> Seq<ClientEvent> {
    match b.keymap_of(pass.id) {
        Some(keymap) if pass.sent => seq![ClientEvent::Modifiers { mods: keymap.mods }],
        _ => Seq::empty(),
    }
}

/// The bindings once those modifiers are out.
pub open spec fn after_resync(b: BindingsView, pass: PassView) -> BindingsView {
    match b.keymap_of(pass.id) {
        Some(keymap) if pass.sent => b.mods_told(keymap.mods, pass.seat_mods),
        _ => b,
    }
}

/// One key, to each of the focused client's `wl_keyboard`s.
pub open spec fn key_events(
    keyboards: Seq<WlKeyboardId>,
    time: u32,
    key: u32,
    state: KeyState,
) -> Seq<ClientEvent> {
    keyboards.map_values(|kbd: WlKeyboardId| ClientEvent::Key { kbd, time, key, state })
}

/// Keys released one after the other, on each `wl_keyboard` in turn.
pub open spec fn release_events(
    keyboards: Seq<WlKeyboardId>,
    keys: Seq<u32>,
    time: u32,
) -> Seq<ClientEvent>
    decreases keyboards.len(),
{
    if keyboards.len() == 0 {
        Seq::empty()
    } else {
        release_events(keyboards.drop_last(), keys, time) + keys.map_values(
            |key: u32|
                ClientEvent::Key { kbd: keyboards.last(), time, key, state: KeyState::Released },
        )
    }
}

/// Whether `keys` lists a set of keys, each once, in some order.
pub open spec fn lists(keys: Seq<u32>, set: Set<u32>) -> bool {
    keys.no_duplicates() && keys.to_set() == set
}

/// The focused client's `wl_keyboard`s, where a client has the focus.
pub open spec fn focus_view(focus: Option<Vec<WlKeyboardId>>) -> Option<Seq<WlKeyboardId>> {
    match focus {
        Some(keyboards) => Some(keyboards@),
        None => None,
    }
}

/// Whether `events` release each of a set of keys once on each of the focused
/// client's `wl_keyboard`s, in one order of the keys for all of them.
pub open spec fn releases(
    events: Seq<ClientEvent>,
    focus: Option<Seq<WlKeyboardId>>,
    forwarded: Set<u32>,
    time: u32,
) -> bool {
    match focus {
        None => events.len() == 0,
        Some(keyboards) => exists|keys: Seq<u32>| #[trigger]
            lists(keys, forwarded) && events == release_events(keyboards, keys, time),
    }
}

/// The keys of a set, each once.
fn listed(set: &HashSet<u32>) -> (keys: Vec<u32>)
    ensures
        lists(keys@, set@),
{
    let mut keys: Vec<u32> = Vec::new();
    let ghost all = vstd::std_specs::iter::IteratorSpec::remaining(
        &vstd::std_specs::hash::spec_hash_keys_iter(set),
    );
    for key in iter: set.iter()
        invariant
            iter.seq() == all,
            keys@ == all.unref().take(iter.index() as int),
    {
        keys.push(*key);
    }
    assert(keys@ =~= all.unref());
    keys
}

/// Releases whatever a departing virtual keyboard left pressed in the focused
/// client, whose `wl_keyboard`s `focus` lists: nothing tells a client that the
/// source of a key is gone, so the key would stay down, and repeating, until the
/// window lost focus.
pub fn release_forwarded(
    forwarded: &HashSet<u32>,
    focus: &Option<Vec<WlKeyboardId>>,
    time: u32,
) -> (events: Vec<ClientEvent>)
    ensures
        releases(
            events@,
            focus_view(*focus),
            forwarded@,
            time,
        ),
{
    let mut events: Vec<ClientEvent> = Vec::new();
    let keyboards = match focus {
        Some(keyboards) => keyboards,
        None => return events,
    };
    let keys = listed(forwarded);
    let mut i: usize = 0;
    while i < keyboards.len()
        invariant
            i <= keyboards.len(),
            events@ == release_events(keyboards@.take(i as int), keys@, time),
        decreases keyboards.len() - i,
    {
        let kbd = keyboards[i];
        let ghost before = events@;
        let ghost of_kbd = |key: u32|
            ClientEvent::Key { kbd, time, key, state: KeyState::Released };
        let mut j: usize = 0;
        while j < keys.len()
            invariant
                j <= keys.len(),
                of_kbd == (|key: u32|
                    ClientEvent::Key { kbd, time, key, state: KeyState::Released }),
                events@ == before + keys@.take(j as int).map_values(of_kbd),
            decreases keys.len() - j,
        {
            events.push(
                ClientEvent::Key { kbd, time, key: keys[j], state: KeyState::Released },
            );
            j = j + 1;
            assert(events@ =~= before + keys@.take(j as int).map_values(of_kbd));
        }
        i = i + 1;
        assert(keys@.take(j as int) =~= keys@);
        assert(keyboards@.take(i as int).drop_last() =~= keyboards@.take(i - 1));
        assert(keyboards@.take(i as int).last() == kbd);
        assert(events@ =~= release_events(keyboards@.take(i as int), keys@, time));
    }
    assert(keyboards@.take(i as int) =~= keyboards@);
    events
}

impl VirtualKeyboardBindings {
    /// The xkb keycode whose sym must be resolved before a key event can be
    /// handled, if one must.
    pub fn lookup_keycode(&self, id: KeyboardId, key: u32, key_state: u32) -> (keycode: Option<u32>)
        requires
            self@.looks_up(id, key_state) ==> key <= u32::MAX - EVDEV_OFFSET,
        ensures
            keycode == (if self@.looks_up(id, key_state) {
                Some((key + EVDEV_OFFSET) as u32)
            } else {
                None::<u32>
            }),
    {
        if key_state == PRESSED && self.has_keymap(id) {
            Some(key + EVDEV_OFFSET)
        } else {
            None
        }
    }

    /// Holds the release of `key` against the consumed presses: whether it must
    /// be swallowed, which it then has been.
    pub(crate) fn release_swallowed(&mut self, id: KeyboardId, key: u32) -> (swallowed: bool)
        requires
            old(self)@.wf(),
        ensures
            swallowed == (old(self)@.keyboards.contains_key(id)
                && old(self)@.keyboards[id].swallowed.contains(key)),
            final(self)@ == old(self)@.release(id, key),
            final(self)@.wf(),
            !old(self)@.keyboards.contains_key(id) ==> *final(self) == *old(self),
    {
        if !self.keyboards.contains_key(&id) {
            return false;
        }
        let ghost before = self@;
        match self.keyboards.remove(&id) {
            Some(kb) => {
                let mut kb = kb;
                let swallowed = kb.swallowed.remove(&key);
                self.keyboards.insert(id, kb);
                assert(self@ =~= before.release(id, key));
                swallowed
            },
            None => {
                assert(self@ =~= before.release(id, key));
                false
            },
        }
    }

    /// Remembers that the press of `key` was consumed, so that its release must
    /// be swallowed too.
    pub(crate) fn swallow(&mut self, id: KeyboardId, key: u32)
        requires
            old(self)@.wf(),
        ensures
            final(self)@ == old(self)@.swallow(id, key),
            final(self)@.wf(),
    {
        let ghost before = self@;
        if let Some(kb) = self.keyboards.remove(&id) {
            let mut kb = kb;
            kb.swallowed.insert(key);
            self.keyboards.insert(id, kb);
        }
        assert(self@ =~= before.swallow(id, key));
    }

    /// Remembers what the focused client was told of `key`.
    fn forward(&mut self, id: KeyboardId, key: u32, pressed: bool)
        requires
            old(self)@.wf(),
        ensures
            final(self)@ == old(self)@.forward(id, key, pressed),
            final(self)@.wf(),
    {
        let ghost before = self@;
        if let Some(kb) = self.keyboards.remove(&id) {
            let mut kb = kb;
            if pressed {
                kb.forwarded.insert(key);
            } else {
                kb.forwarded.remove(&key);
            }
            self.keyboards.insert(id, kb);
        }
        assert(self@ =~= before.forward(id, key, pressed));
    }

    /// Closes a pass: the modifiers that the keymaps sent must carry.
    fn finish_pass(&mut self, pass: &KeymapPass) -> (mods: Option<ModifiersState>)
        requires
            old(self)@.wf(),
            old(self)@.seat_keymap is Some,
        ensures
            final(self)@ == after_resync(old(self)@, pass@),
            final(self)@.wf(),
            match mods {
                Some(mods) => resync(old(self)@, pass@) == seq![ClientEvent::Modifiers { mods }],
                None => {
                    &&& resync(old(self)@, pass@) == Seq::<ClientEvent>::empty()
                    &&& *final(self) == *old(self)
                },
            },
    {
        if !pass.any_sent() {
            return None;
        }
        match self.mods(pass.id()) {
            Some(mods) => {
                self.record_virtual_mods(mods, pass.seat_mods());
                Some(mods)
            },
            None => None,
        }
    }

    /// Delivers a key to the focused client, once the pass that sends it the
    /// virtual keyboard's keymap is done: the events, in order.
    pub fn deliver_key(&mut self, pass: KeymapPass, event: UnclaimedKey, time: u32) -> (events: Vec<
        ClientEvent,
    >)
        requires
            old(self)@.wf(),
            old(self)@.seat_keymap is Some,
            pass@.done(),
            pass@.id == event@.id,
        ensures
            events@ == resync(old(self)@, pass@) + key_events(
                pass@.keyboards,
                time,
                event@.key,
                wire_state(event@.key_state),
            ),
            final(self)@ == after_resync(old(self)@, pass@).forward(
                event@.id,
                event@.key,
                event@.key_state == PRESSED,
            ),
            final(self)@.wf(),
    {
        let mut events: Vec<ClientEvent> = Vec::new();
        if let Some(mods) = self.finish_pass(&pass) {
            events.push(ClientEvent::Modifiers { mods });
        }
        let ghost head = resync(old(self)@, pass@);
        assert(events@ =~= head);
        let key = event.key();
        let pressed = event.key_state() == PRESSED;
        let state = if pressed {
            KeyState::Pressed
        } else {
            KeyState::Released
        };
        let keyboards = pass.keyboards();
        let mut i: usize = 0;
        while i < keyboards.len()
            invariant
                i <= keyboards.len(),
                events@ == head + key_events(keyboards@.take(i as int), time, key, state),
            decreases keyboards.len() - i,
        {
            events.push(ClientEvent::Key { kbd: keyboards[i], time, key, state });
            i = i + 1;
            assert(events@ =~= head + key_events(keyboards@.take(i as int), time, key, state));
        }
        assert(keyboards@.take(i as int) =~= keyboards@);
        self.forward(event.id(), key, pressed);
        events
    }

    /// Delivers the virtual keyboard's modifiers to the focused client, once the
    /// pass that sends it the keymap is done. A keymap change carries the
    /// modifiers with it, so they go out once either way.
    pub fn deliver_modifiers(&mut self, pass: KeymapPass) -> (events: Vec<ClientEvent>)
        requires
            old(self)@.wf(),
            old(self)@.seat_keymap is Some,
            pass@.done(),
        ensures
            match old(self)@.keymap_of(pass@.id) {
                Some(keymap) => {
                    &&& events@ == seq![ClientEvent::Modifiers { mods: keymap.mods }]
                    &&& final(self)@ == old(self)@.mods_told(keymap.mods, pass@.seat_mods)
                },
                None => events@.len() == 0 && *final(self) == *old(self),
            },
            final(self)@.wf(),
    {
        let mut events: Vec<ClientEvent> = Vec::new();
        match self.finish_pass(&pass) {
            Some(mods) => {
                events.push(ClientEvent::Modifiers { mods });
                assert(events@[0] == resync(old(self)@, pass@)[0]);
            },
            None => {
                if let Some(mods) = self.mods(pass.id()) {
                    self.record_virtual_mods(mods, pass.seat_mods());
                    events.push(ClientEvent::Modifiers { mods });
                }
            },
        }
        events
    }
}

} // verus!
