//! The mathematical model of the bindings: what every contract speaks of.
use vstd::prelude::*;

use crate::modifiers::{ModifiersState, SerializedMods};

verus! {

/// Names a `zwp_virtual_keyboard_v1` for as long as it lives.
pub type KeyboardId = u64;

/// Names a client's `wl_keyboard` for as long as a record of it is kept.
pub type WlKeyboardId = u64;

/// Turns an evdev keycode, which `wl_keyboard` speaks, into an xkb keycode.
pub const EVDEV_OFFSET: u32 = 8;

/// The wire value of a pressed key; every other value reads as released.
pub const PRESSED: u32 = 1;

/// A keymap a virtual keyboard uploaded, and the modifiers held on it.
#[verifier::ext_equal]
pub struct KeymapView {
    pub text: Seq<char>,
    pub mods: ModifiersState,
}

/// One virtual keyboard.
#[verifier::ext_equal]
pub struct KeyboardView {
    pub keymap: Option<KeymapView>,
    /// Keycodes whose press a binding consumed and whose release is still owed
    /// a swallow.
    pub swallowed: Set<u32>,
    /// Keycodes the focused client was told are pressed and not yet released.
    pub forwarded: Set<u32>,
}

/// A `wl_keyboard` and the keymap it holds in place of the seat's.
#[verifier::ext_equal]
pub struct ForeignView {
    pub kbd: WlKeyboardId,
    pub text: Seq<char>,
}

/// Everything kept about virtual keyboards.
#[verifier::ext_equal]
pub struct BindingsView {
    pub keyboards: Map<KeyboardId, KeyboardView>,
    pub foreign: Seq<ForeignView>,
    pub virtual_mods_sent: bool,
    pub seat_keymap: Option<Seq<char>>,
}

/// A virtual keyboard that has just been created.
pub open spec fn new_keyboard() -> KeyboardView {
    KeyboardView { keymap: None, swallowed: Set::empty(), forwarded: Set::empty() }
}

/// The text recorded for `kbd`, by its first record.
pub open spec fn record_of(foreign: Seq<ForeignView>, kbd: WlKeyboardId) -> Option<Seq<char>>
    decreases foreign.len(),
{
    if foreign.len() == 0 {
        None
    } else if foreign[0].kbd == kbd {
        Some(foreign[0].text)
    } else {
        record_of(foreign.drop_first(), kbd)
    }
}

/// The keymap text the `wl_keyboard` `kbd` holds: the recorded one while it
/// lives, the seat's where nothing is recorded.
pub open spec fn held_text(
    foreign: Seq<ForeignView>,
    kbd: WlKeyboardId,
    seat: Seq<char>,
    live: Seq<WlKeyboardId>,
) -> Seq<char> {
    match record_of(foreign, kbd) {
        Some(text) if live.contains(kbd) => text,
        _ => seat,
    }
}

/// Whether a record survives the sending of a keymap to `kbd`: records of `kbd`
/// and of `wl_keyboard`s that are gone do not.
pub open spec fn survives(record: ForeignView, kbd: WlKeyboardId, live: Seq<WlKeyboardId>) -> bool {
    live.contains(record.kbd) && record.kbd != kbd
}

/// The records once `kbd` has been sent a keymap that reads `text`: one that
/// reads the same as the seat's leaves nothing to restore.
pub open spec fn after_send(
    foreign: Seq<ForeignView>,
    kbd: WlKeyboardId,
    text: Seq<char>,
    seat: Seq<char>,
    live: Seq<WlKeyboardId>,
) -> Seq<ForeignView> {
    let kept = foreign.filter(|r: ForeignView| survives(r, kbd, live));
    if text != seat {
        kept.push(ForeignView { kbd, text })
    } else {
        kept
    }
}

impl BindingsView {
    /// Nothing recorded yet.
    pub open spec fn empty() -> BindingsView {
        BindingsView {
            keyboards: Map::empty(),
            foreign: Seq::empty(),
            virtual_mods_sent: false,
            seat_keymap: None,
        }
    }

    /// What every operation keeps: no two records of one `wl_keyboard`; no
    /// record of the seat's own keymap; and nothing to restore before the
    /// seat's keymap is known.
    pub open spec fn wf(self) -> bool {
        &&& distinct(self.foreign)
        &&& forall|i: int|
            0 <= i < self.foreign.len() ==> self.seat_keymap != Some(
                (#[trigger] self.foreign[i]).text,
            )
        &&& self.restore_owed() ==> self.seat_keymap is Some
        &&& self.keyboards.dom().finite()
    }

    /// Whether some client holds a keymap or modifiers other than the seat's.
    pub open spec fn restore_owed(self) -> bool {
        self.foreign.len() > 0 || self.virtual_mods_sent
    }

    /// The keymap of a virtual keyboard, if it is registered and has one.
    pub open spec fn keymap_of(self, id: KeyboardId) -> Option<KeymapView> {
        if self.keyboards.contains_key(id) {
            self.keyboards[id].keymap
        } else {
            None
        }
    }

    /// Whether a key event is resolved to a sym and looked up among the
    /// compositor's bindings: a press on a keyboard that has a keymap.
    pub open spec fn looks_up(self, id: KeyboardId, key_state: u32) -> bool {
        key_state == PRESSED && self.keymap_of(id) is Some
    }

    /// Whether a key event is a release that a consumed press left owing.
    pub open spec fn owes_swallow(self, id: KeyboardId, key: u32, key_state: u32) -> bool {
        &&& key_state != PRESSED
        &&& self.keyboards.contains_key(id)
        &&& self.keyboards[id].swallowed.contains(key)
    }

    /// With `kb` in the place of the keyboard `id`.
    pub open spec fn with_keyboard(self, id: KeyboardId, kb: KeyboardView) -> BindingsView {
        BindingsView { keyboards: self.keyboards.insert(id, kb), ..self }
    }

    /// With a keymap on a registered keyboard; everything else about it stays.
    pub open spec fn with_keymap(
        self,
        id: KeyboardId,
        text: Seq<char>,
        mods: ModifiersState,
    ) -> BindingsView {
        if self.keyboards.contains_key(id) {
            self.with_keyboard(
                id,
                KeyboardView { keymap: Some(KeymapView { text, mods }), ..self.keyboards[id] },
            )
        } else {
            self
        }
    }

    /// With other modifiers on a keyboard that has a keymap.
    pub open spec fn with_mods(self, id: KeyboardId, mods: ModifiersState) -> BindingsView {
        match self.keymap_of(id) {
            Some(keymap) => self.with_keymap(id, keymap.text, mods),
            None => self,
        }
    }

    /// After the press of `key` was consumed by a binding.
    pub open spec fn swallow(self, id: KeyboardId, key: u32) -> BindingsView {
        if self.keyboards.contains_key(id) {
            let kb = self.keyboards[id];
            self.with_keyboard(id, KeyboardView { swallowed: kb.swallowed.insert(key), ..kb })
        } else {
            self
        }
    }

    /// After the release of `key` was held against the consumed presses.
    pub open spec fn release(self, id: KeyboardId, key: u32) -> BindingsView {
        if self.keyboards.contains_key(id) {
            let kb = self.keyboards[id];
            self.with_keyboard(id, KeyboardView { swallowed: kb.swallowed.remove(key), ..kb })
        } else {
            self
        }
    }

    /// After the focused client was told that `key` is pressed or released.
    pub open spec fn forward(self, id: KeyboardId, key: u32, pressed: bool) -> BindingsView {
        if self.keyboards.contains_key(id) {
            let kb = self.keyboards[id];
            let forwarded = if pressed {
                kb.forwarded.insert(key)
            } else {
                kb.forwarded.remove(key)
            };
            self.with_keyboard(id, KeyboardView { forwarded, ..kb })
        } else {
            self
        }
    }

    /// With the seat's keymap known: a text already recorded stands, and one
    /// that was read is recorded only where there was none.
    pub open spec fn with_seat_keymap(self, read: Option<Seq<char>>) -> BindingsView {
        match self.seat_keymap {
            Some(_) => self,
            None => BindingsView { seat_keymap: read, ..self },
        }
    }

    /// Whether the `wl_keyboard` `kbd` must be sent the keymap of `id` before it
    /// can make sense of a key from it.
    pub open spec fn owes_keymap(
        self,
        id: KeyboardId,
        kbd: WlKeyboardId,
        live: Seq<WlKeyboardId>,
    ) -> bool {
        match (self.keymap_of(id), self.seat_keymap) {
            (Some(keymap), Some(seat)) => held_text(self.foreign, kbd, seat, live) != keymap.text,
            _ => false,
        }
    }

    /// After `kbd` was sent the keymap of `id`.
    pub open spec fn keymap_sent(
        self,
        id: KeyboardId,
        kbd: WlKeyboardId,
        live: Seq<WlKeyboardId>,
    ) -> BindingsView {
        match (self.keymap_of(id), self.seat_keymap) {
            (Some(keymap), Some(seat)) => BindingsView {
                foreign: after_send(self.foreign, kbd, keymap.text, seat, live),
                ..self
            },
            _ => self,
        }
    }

    /// After the focused client was told `mods`: a mask equal to the seat's own
    /// leaves nothing to restore.
    pub open spec fn mods_told(self, mods: ModifiersState, seat: SerializedMods) -> BindingsView {
        BindingsView {
            virtual_mods_sent: self.virtual_mods_sent || mods.serialized != seat,
            ..self
        }
    }

    /// After every client was put back on the seat's keymap and modifiers.
    pub open spec fn restored(self) -> BindingsView {
        BindingsView { foreign: Seq::empty(), virtual_mods_sent: false, ..self }
    }

    /// After the seat's keymap came to read `text`: where it was known and read
    /// otherwise, every `wl_keyboard` has been sent the new one.
    pub open spec fn seat_changed(self, text: Seq<char>) -> BindingsView {
        match self.seat_keymap {
            None => self,
            Some(known) => BindingsView {
                seat_keymap: Some(text),
                foreign: if known == text {
                    self.foreign
                } else {
                    Seq::empty()
                },
                ..self
            },
        }
    }
}

/// No two records of one `wl_keyboard`.
pub open spec fn distinct(foreign: Seq<ForeignView>) -> bool {
    forall|i: int, j: int|
        0 <= i < j < foreign.len() ==> (#[trigger] foreign[i]).kbd != (#[trigger] foreign[j]).kbd
}

pub(crate) proof fn lemma_filter_distinct(
    foreign: Seq<ForeignView>,
    p: spec_fn(ForeignView) -> bool,
)
    requires
        distinct(foreign),
    ensures
        distinct(foreign.filter(p)),
        forall|i: int|
            0 <= i < foreign.filter(p).len() ==> {
                &&& foreign.contains(#[trigger] foreign.filter(p)[i])
                &&& p(foreign.filter(p)[i])
            },
    decreases foreign.len(),
{
    reveal(Seq::filter);
    if foreign.len() > 0 {
        let front = foreign.drop_last();
        lemma_filter_distinct(front, p);
        assert forall|i: int| 0 <= i < front.filter(p).len() implies {
            &&& foreign.contains(#[trigger] front.filter(p)[i])
            &&& front.filter(p)[i].kbd != foreign.last().kbd
        } by {
            assert(front.contains(front.filter(p)[i]));
            let k = choose|k: int| 0 <= k < front.len() && front[k] == front.filter(p)[i];
            assert(foreign[k] == front.filter(p)[i]);
            assert(foreign[foreign.len() - 1] == foreign.last());
        }
        assert(foreign.contains(foreign.last())) by {
            assert(foreign[foreign.len() - 1] == foreign.last());
        }
    }
}

/// Sending a keymap keeps the records well formed.
pub(crate) proof fn lemma_after_send_wf(
    foreign: Seq<ForeignView>,
    kbd: WlKeyboardId,
    text: Seq<char>,
    seat: Seq<char>,
    live: Seq<WlKeyboardId>,
)
    requires
        distinct(foreign),
        forall|i: int| 0 <= i < foreign.len() ==> (#[trigger] foreign[i]).text != seat,
    ensures
        distinct(after_send(foreign, kbd, text, seat, live)),
        forall|i: int|
            0 <= i < after_send(foreign, kbd, text, seat, live).len() ==> (
            #[trigger] after_send(foreign, kbd, text, seat, live)[i]).text != seat,
{
    let p = |r: ForeignView| survives(r, kbd, live);
    lemma_filter_distinct(foreign, p);
    let kept = foreign.filter(p);
    assert forall|i: int| 0 <= i < kept.len() implies (#[trigger] kept[i]).text != seat
        && kept[i].kbd != kbd by {
        assert(foreign.contains(kept[i]));
    }
}

} // verus!
