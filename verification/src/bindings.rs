//! What is kept about virtual keyboards.
use std::collections::{HashMap, HashSet};

use vstd::prelude::*;

use crate::model;
use crate::model::{BindingsView, ForeignView, KeyboardId, KeyboardView, KeymapView, WlKeyboardId};
use crate::modifiers::ModifiersState;

verus! {

broadcast use vstd::std_specs::hash::group_hash_axioms;

/// A keymap a virtual keyboard uploaded, and the modifiers held on it.
pub(crate) struct VirtualKeymap {
    pub(crate) text: String,
    pub(crate) mods: ModifiersState,
}

/// One virtual keyboard.
pub(crate) struct VirtualKeyboard {
    pub(crate) keymap: Option<VirtualKeymap>,
    /// Keycodes whose press a binding consumed; their release must be
    /// swallowed too, or the client sees a release without a press.
    pub(crate) swallowed: HashSet<u32>,
    /// Keycodes forwarded to the focused client as pressed and not yet
    /// released, to be lifted when the keyboard is destroyed.
    pub(crate) forwarded: HashSet<u32>,
}

/// A `wl_keyboard` that holds a keymap other than the seat's.
pub(crate) struct ForeignKeymap {
    pub(crate) kbd: WlKeyboardId,
    pub(crate) text: String,
}

/// Keymap, modifiers and keys of each virtual keyboard, by name so that several
/// do not mix layouts, plus which `wl_keyboard`s currently hold a keymap other
/// than the seat's.
///
/// Keymaps are compared by text so an on-screen keyboard that uploads the
/// seat's own layout costs the client nothing: no keymap event, no recompile,
/// no modifiers event resetting what the physical keyboard holds.
pub struct VirtualKeyboardBindings {
    pub(crate) keyboards: HashMap<KeyboardId, VirtualKeyboard>,
    pub(crate) foreign_keymaps: Vec<ForeignKeymap>,
    /// The focused client holds a modifier mask a virtual keyboard set. The
    /// keymap records cannot stand in for this: a virtual keymap that reads the
    /// same as the seat's records nothing, while its modifiers reach the client
    /// all the same.
    pub(crate) virtual_mods_sent: bool,
    /// The seat's keymap, once it has been read.
    pub(crate) seat_keymap: Option<String>,
}

impl VirtualKeymap {
    pub(crate) open(crate) spec fn model(self) -> KeymapView {
        KeymapView { text: self.text@, mods: self.mods }
    }
}

impl VirtualKeyboard {
    pub(crate) open(crate) spec fn model(self) -> KeyboardView {
        KeyboardView {
            keymap: match self.keymap {
                Some(keymap) => Some(keymap.model()),
                None => None,
            },
            swallowed: self.swallowed@,
            forwarded: self.forwarded@,
        }
    }
}

impl VirtualKeyboardBindings {
    pub open(crate) spec fn model(self) -> BindingsView {
        BindingsView {
            keyboards: keyboards_model(self.keyboards@),
            foreign: foreign_model(self.foreign_keymaps@),
            virtual_mods_sent: self.virtual_mods_sent,
            seat_keymap: match self.seat_keymap {
                Some(text) => Some(text@),
                None => None,
            },
        }
    }
}

impl View for VirtualKeyboardBindings {
    type V = BindingsView;

    open spec fn view(&self) -> BindingsView {
        self.model()
    }
}

/// The records as the model has them.
pub(crate) open(crate) spec fn foreign_model(records: Seq<ForeignKeymap>) -> Seq<ForeignView> {
    records.map_values(|r: ForeignKeymap| ForeignView { kbd: r.kbd, text: r.text@ })
}

/// The keyboards as the model has them.
pub(crate) open(crate) spec fn keyboards_model(
    keyboards: Map<KeyboardId, VirtualKeyboard>,
) -> Map<KeyboardId, KeyboardView> {
    keyboards.map_values(|kb: VirtualKeyboard| kb.model())
}

/// Whether the `wl_keyboard` `kbd` is among the live ones.
pub(crate) fn is_live(live: &Vec<WlKeyboardId>, kbd: WlKeyboardId) -> (r: bool)
    ensures
        r == live@.contains(kbd),
{
    let mut i: usize = 0;
    while i < live.len()
        invariant
            i <= live.len(),
            forall|j: int| 0 <= j < i ==> live@[j] != kbd,
        decreases live.len() - i,
    {
        if live[i] == kbd {
            assert(live@[i as int] == kbd);
            return true;
        }
        i = i + 1;
    }
    false
}

proof fn lemma_record_of_skip(foreign: Seq<ForeignView>, kbd: WlKeyboardId, n: int)
    requires
        0 <= n <= foreign.len(),
        forall|j: int| 0 <= j < n ==> (#[trigger] foreign[j]).kbd != kbd,
    ensures
        model::record_of(foreign, kbd) == model::record_of(foreign.skip(n), kbd),
    decreases n,
{
    if n > 0 {
        lemma_record_of_skip(foreign.drop_first(), kbd, n - 1);
        assert(foreign.drop_first().skip(n - 1) =~= foreign.skip(n));
    } else {
        assert(foreign.skip(0) =~= foreign);
    }
}

/// Drops the records of `kbd` and of `wl_keyboard`s that are gone.
pub(crate) fn forget(records: &mut Vec<ForeignKeymap>, kbd: WlKeyboardId, live: &Vec<WlKeyboardId>)
    ensures
        foreign_model(final(records)@) == foreign_model(old(records)@).filter(
            |r: ForeignView| model::survives(r, kbd, live@),
        ),
{
    let ghost p = |r: ForeignView| model::survives(r, kbd, live@);
    let ghost all = foreign_model(records@);
    let ghost mut done: int = 0;
    let mut i: usize = 0;
    proof {
        assert(all.take(0).filter(p) =~= Seq::<ForeignView>::empty()) by {
            reveal(Seq::filter);
        }
        assert(foreign_model(records@) =~= all.take(0).filter(p) + all.skip(0));
    }
    while i < records.len()
        invariant
            p == (|r: ForeignView| model::survives(r, kbd, live@)),
            0 <= done <= all.len(),
            i == all.take(done).filter(p).len(),
            foreign_model(records@) == all.take(done).filter(p) + all.skip(done),
            i <= records.len(),
        decreases records.len() - i,
    {
        let keep = is_live(live, records[i].kbd) && records[i].kbd != kbd;
        proof {
            assert(foreign_model(records@)[i as int] == all.skip(done)[0]);
            assert(all.take(done + 1).drop_last() =~= all.take(done));
            assert(all.take(done + 1).last() == all[done]);
            assert(keep == p(all[done]));
            assert(all.take(done + 1).filter(p) == if p(all[done]) {
                all.take(done).filter(p).push(all[done])
            } else {
                all.take(done).filter(p)
            }) by {
                reveal(Seq::filter);
            }
        }
        if keep {
            i = i + 1;
            assert(foreign_model(records@) =~= all.take(done + 1).filter(p) + all.skip(done + 1));
        } else {
            let ghost before = records@;
            records.remove(i);
            assert(foreign_model(records@) =~= foreign_model(before).remove(i as int));
            assert(foreign_model(records@) =~= all.take(done + 1).filter(p) + all.skip(done + 1));
        }
        proof {
            done = done + 1;
        }
    }
    proof {
        assert(all.skip(done).len() == 0);
        assert(all.take(done) =~= all);
        assert(foreign_model(records@) =~= all.filter(p));
    }
}

impl VirtualKeyboardBindings {
    /// Nothing recorded, no virtual keyboard.
    pub fn new() -> (b: Self)
        ensures
            b@ == BindingsView::empty(),
            b@.wf(),
    {
        let b = VirtualKeyboardBindings {
            keyboards: HashMap::new(),
            foreign_keymaps: Vec::new(),
            virtual_mods_sent: false,
            seat_keymap: None,
        };
        assert(b@ =~= BindingsView::empty());
        b
    }

    /// Whether `kbd` must be sent the keymap of `id`.
    pub(crate) fn owes_keymap(&self, id: KeyboardId, kbd: WlKeyboardId, live: &Vec<WlKeyboardId>) -> (r: bool)
        ensures
            r == self@.owes_keymap(id, kbd, live@),
    {
        let keymap = match self.keyboards.get(&id) {
            Some(kb) => match &kb.keymap {
                Some(keymap) => keymap,
                None => return false,
            },
            None => return false,
        };
        let seat = match &self.seat_keymap {
            Some(text) => text,
            None => return false,
        };
        let mut i: usize = 0;
        while i < self.foreign_keymaps.len()
            invariant
                i <= self.foreign_keymaps.len(),
                forall|j: int| 0 <= j < i ==> (#[trigger] self@.foreign[j]).kbd != kbd,
                self.seat_keymap == Some(*seat),
                self@.keymap_of(id) == Some(keymap.model()),
            decreases self.foreign_keymaps.len() - i,
        {
            if self.foreign_keymaps[i].kbd == kbd {
                proof {
                    lemma_record_of_skip(self@.foreign, kbd, i as int);
                    assert(self@.foreign.skip(i as int)[0] == self@.foreign[i as int]);
                }
                if is_live(live, kbd) {
                    return self.foreign_keymaps[i].text != keymap.text;
                }
                return *seat != keymap.text;
            }
            i = i + 1;
        }
        proof {
            lemma_record_of_skip(self@.foreign, kbd, i as int);
        }
        *seat != keymap.text
    }

    /// Whether the keyboard `id` has a keymap.
    pub fn has_keymap(&self, id: KeyboardId) -> (r: bool)
        ensures
            r == self@.keymap_of(id) is Some,
    {
        match self.keyboards.get(&id) {
            Some(kb) => kb.keymap.is_some(),
            None => false,
        }
    }

    /// The modifiers held on the keyboard `id`, if it has a keymap.
    pub fn mods(&self, id: KeyboardId) -> (mods: Option<ModifiersState>)
        ensures
            mods == (match self@.keymap_of(id) {
                Some(keymap) => Some(keymap.mods),
                None => None,
            }),
    {
        match self.keyboards.get(&id) {
            Some(kb) => match &kb.keymap {
                Some(keymap) => Some(keymap.mods),
                None => None,
            },
            None => None,
        }
    }

    /// Number of live virtual keyboards (for leak diagnostics).
    pub fn keyboard_count(&self) -> (n: usize)
        ensures
            n == self@.keyboards.len(),
    {
        assert(self@.keyboards.dom() =~= self.keyboards@.dom());
        self.keyboards.len()
    }
}

impl Default for VirtualKeyboardBindings {
    fn default() -> (b: Self)
        ensures
            b@ == BindingsView::empty(),
            b@.wf(),
    {
        VirtualKeyboardBindings::new()
    }
}

} // verus!
