//! Which keymap each `wl_keyboard` holds: sending a virtual keyboard's, and
//! putting the seat's back.
use vstd::prelude::*;

use crate::bindings;
use crate::bindings::{forget, is_live, ForeignKeymap, VirtualKeyboardBindings};
use crate::events::{ClientEvent, SeatState};
use crate::model;
use crate::model::{BindingsView, ForeignView, KeyboardId, WlKeyboardId};
use crate::modifiers::{ModifiersState, SerializedMods};

verus! {

broadcast use vstd::std_specs::hash::group_hash_axioms;

/// A pass over the focused client's `wl_keyboard`s that sends a virtual
/// keyboard's keymap to those that do not hold it yet.
pub struct KeymapPass {
    id: KeyboardId,
    keyboards: Vec<WlKeyboardId>,
    next: usize,
    sent: bool,
    seat_mods: SerializedMods,
}

/// A pass as contracts see it.
#[verifier::ext_equal]
pub struct PassView {
    pub id: KeyboardId,
    pub keyboards: Seq<WlKeyboardId>,
    /// The `wl_keyboard`s before this position are dealt with.
    pub next: int,
    /// Whether any keymap went out.
    pub sent: bool,
    pub seat_mods: SerializedMods,
}

impl View for KeymapPass {
    type V = PassView;

    closed spec fn view(&self) -> PassView {
        PassView {
            id: self.id,
            keyboards: self.keyboards@,
            next: self.next as int,
            sent: self.sent,
            seat_mods: self.seat_mods,
        }
    }
}

impl PassView {
    /// The position is one in the list, or its end.
    pub open spec fn wf(self) -> bool {
        0 <= self.next <= self.keyboards.len()
    }

    /// Whether every `wl_keyboard` is dealt with.
    pub open spec fn done(self) -> bool {
        self.next == self.keyboards.len()
    }

    /// With one more `wl_keyboard` dealt with.
    pub open spec fn advanced(self, sent: bool) -> PassView {
        PassView { next: self.next + 1, sent: self.sent || sent, ..self }
    }
}

impl KeymapPass {
    /// The virtual keyboard whose keymap is sent.
    pub fn id(&self) -> (id: KeyboardId)
        ensures
            id == self@.id,
    {
        self.id
    }

    /// The focused client's `wl_keyboard`s.
    pub fn keyboards(&self) -> (keyboards: &Vec<WlKeyboardId>)
        ensures
            keyboards@ == self@.keyboards,
    {
        &self.keyboards
    }

    /// Whether any keymap went out.
    pub fn any_sent(&self) -> (sent: bool)
        ensures
            sent == self@.sent,
    {
        self.sent
    }

    /// The seat's own modifiers.
    pub fn seat_mods(&self) -> (mods: SerializedMods)
        ensures
            mods == self@.seat_mods,
    {
        self.seat_mods
    }

    /// The `wl_keyboard` at hand could not be sent the keymap: it keeps the one
    /// it holds.
    pub fn keymap_failed(&mut self)
        requires
            old(self)@.wf(),
            !old(self)@.done(),
        ensures
            final(self)@ == old(self)@.advanced(false),
            final(self)@.wf(),
    {
        assert(self.next < self.keyboards.len());
        self.next = self.next + 1;
    }
}

/// A text that was read, as the model has it.
pub open spec fn read_text(read: Option<String>) -> Option<Seq<char>> {
    match read {
        Some(text) => Some(text@),
        None => None,
    }
}

impl VirtualKeyboardBindings {
    /// Whether the seat's keymap is recorded, so that it need not be read.
    pub fn knows_seat_keymap(&self) -> (r: bool)
        ensures
            r == self@.seat_keymap is Some,
    {
        self.seat_keymap.is_some()
    }

    /// Records the seat's keymap as it was read, where none is recorded. Gives
    /// the text that is then on record.
    pub fn seat_keymap(&mut self, read: Option<String>) -> (text: Option<&String>)
        requires
            old(self)@.wf(),
        ensures
            final(self)@ == old(self)@.with_seat_keymap(read_text(read)),
            final(self)@.wf(),
            match text {
                Some(s) => final(self)@.seat_keymap == Some(s@),
                None => final(self)@.seat_keymap is None,
            },
    {
        if self.seat_keymap.is_none() {
            self.seat_keymap = read;
        }
        assert(self@ =~= old(self)@.with_seat_keymap(read_text(read)));
        self.seat_keymap.as_ref()
    }

    /// Advances the pass to the next `wl_keyboard` that does not hold the
    /// keymap. Where there is one, the keymap is to be sent to it, and the
    /// outcome reported by [`VirtualKeyboardBindings::keymap_sent`] or
    /// [`KeymapPass::keymap_failed`]; where there is none, the pass is done.
    pub fn next_keymap_target(&self, pass: &mut KeymapPass, live: &Vec<WlKeyboardId>) -> (target:
        Option<WlKeyboardId>)
        requires
            old(pass)@.wf(),
        ensures
            final(pass)@.wf(),
            old(pass)@.next <= final(pass)@.next,
            final(pass)@ == (PassView { next: final(pass)@.next, ..old(pass)@ }),
            forall|i: int|
                old(pass)@.next <= i < final(pass)@.next ==> !self@.owes_keymap(
                    old(pass)@.id,
                    #[trigger] old(pass)@.keyboards[i],
                    live@,
                ),
            match target {
                Some(kbd) => {
                    &&& !final(pass)@.done()
                    &&& kbd == final(pass)@.keyboards[final(pass)@.next]
                    &&& self@.owes_keymap(final(pass)@.id, kbd, live@)
                },
                None => final(pass)@.done(),
            },
    {
        while pass.next < pass.keyboards.len()
            invariant
                pass@.wf(),
                old(pass)@.next <= pass@.next,
                pass@ == (PassView { next: pass@.next, ..old(pass)@ }),
                forall|i: int|
                    old(pass)@.next <= i < pass@.next ==> !self@.owes_keymap(
                        old(pass)@.id,
                        #[trigger] old(pass)@.keyboards[i],
                        live@,
                    ),
            decreases pass.keyboards.len() - pass.next,
        {
            let kbd = pass.keyboards[pass.next];
            if self.owes_keymap(pass.id, kbd, live) {
                return Some(kbd);
            }
            pass.next = pass.next + 1;
        }
        None
    }

    /// The `wl_keyboard` at hand has been sent the keymap.
    pub fn keymap_sent(&mut self, pass: &mut KeymapPass, live: &Vec<WlKeyboardId>)
        requires
            old(self)@.wf(),
            old(pass)@.wf(),
            !old(pass)@.done(),
            old(self)@.owes_keymap(
                old(pass)@.id,
                old(pass)@.keyboards[old(pass)@.next],
                live@,
            ),
        ensures
            final(self)@ == old(self)@.keymap_sent(
                old(pass)@.id,
                old(pass)@.keyboards[old(pass)@.next],
                live@,
            ),
            final(self)@.wf(),
            final(pass)@ == old(pass)@.advanced(true),
            final(pass)@.wf(),
    {
        let kbd = pass.keyboards[pass.next];
        let ghost before = self@;
        proof {
            let keymap = self@.keymap_of(pass.id)->0;
            model::lemma_after_send_wf(
                self@.foreign,
                kbd,
                keymap.text,
                self@.seat_keymap->0,
                live@,
            );
        }
        let record = match self.keyboards.get(&pass.id) {
            Some(kb) => match (&kb.keymap, &self.seat_keymap) {
                (Some(keymap), Some(seat)) => if keymap.text != *seat {
                    Some(keymap.text.clone())
                } else {
                    None
                },
                _ => None,
            },
            None => None,
        };
        forget(&mut self.foreign_keymaps, kbd, live);
        if let Some(text) = record {
            let ghost kept = self.foreign_keymaps@;
            self.foreign_keymaps.push(ForeignKeymap { kbd, text });
            assert(bindings::foreign_model(self.foreign_keymaps@) =~= bindings::foreign_model(kept).push(
                ForeignView { kbd, text: text@ },
            ));
        }
        assert(self@ =~= before.keymap_sent(pass.id, kbd, live@));
        assert(pass.next < pass.keyboards.len());
        pass.next = pass.next + 1;
        pass.sent = true;
    }

    /// Marks the focused client as carrying a virtual modifier mask, so that
    /// [`restore_seat_keymap`] puts the seat's back even with no keymap to
    /// restore alongside. A mask equal to the seat's own is an input method
    /// echoing what the seat told it; the client already matches.
    pub(crate) fn record_virtual_mods(&mut self, mods: ModifiersState, seat: SerializedMods)
        requires
            old(self)@.wf(),
            old(self)@.seat_keymap is Some,
        ensures
            final(self)@ == old(self)@.mods_told(mods, seat),
            final(self)@.wf(),
    {
        if mods.serialized != seat {
            self.virtual_mods_sent = true;
        }
        assert(self@ =~= old(self)@.mods_told(mods, seat));
    }

    /// Starts a delivery from the virtual keyboard `id` to the focused client,
    /// whose `wl_keyboard`s `focus` lists; without one, nothing is delivered.
    /// `seat_mods` are the seat's own modifiers, and `read` its keymap where
    /// [`VirtualKeyboardBindings::knows_seat_keymap`] said it had to be read.
    pub fn begin_delivery(
        &mut self,
        id: KeyboardId,
        focus: Option<Vec<WlKeyboardId>>,
        seat_mods: SerializedMods,
        read: Option<String>,
    ) -> (pass: Option<KeymapPass>)
        requires
            old(self)@.wf(),
            focus is Some && old(self)@.seat_keymap is None ==> read is Some,
        ensures
            final(self)@.wf(),
            match focus {
                None => pass is None && *final(self) == *old(self),
                Some(keyboards) => {
                    &&& final(self)@ == old(self)@.with_seat_keymap(read_text(read))
                    &&& pass matches Some(p)
                    &&& p@ == (PassView {
                        id,
                        keyboards: keyboards@,
                        next: 0,
                        sent: false,
                        seat_mods,
                    })
                },
            },
    {
        match focus {
            None => None,
            Some(keyboards) => {
                self.seat_keymap(read);
                Some(KeymapPass { id, keyboards, next: 0, sent: false, seat_mods })
            },
        }
    }

    /// Number of live `wl_keyboard`s holding a virtual keymap (for leak
    /// diagnostics).
    pub fn held_keymap_count(&self, live: &Vec<WlKeyboardId>) -> (n: usize)
        ensures
            n == live_records(self@.foreign, live@).len(),
    {
        let mut n: usize = 0;
        let mut i: usize = 0;
        assert(live_records(self@.foreign.take(0), live@).len() == 0) by {
            reveal(Seq::filter);
        }
        while i < self.foreign_keymaps.len()
            invariant
                i <= self.foreign_keymaps.len(),
                n <= i,
                n == live_records(self@.foreign.take(i as int), live@).len(),
            decreases self.foreign_keymaps.len() - i,
        {
            proof {
                lemma_live_records_step(self@.foreign, live@, i as int);
            }
            if is_live(live, self.foreign_keymaps[i].kbd) {
                n = n + 1;
            }
            i = i + 1;
        }
        assert(self@.foreign.take(i as int) =~= self@.foreign);
        n
    }
}

/// The records of `wl_keyboard`s that still live.
pub open spec fn live_records(
    foreign: Seq<ForeignView>,
    live: Seq<WlKeyboardId>,
) -> Seq<ForeignView> {
    foreign.filter(|r: ForeignView| live.contains(r.kbd))
}

/// The events that put the seat's keymap back on those `wl_keyboard`s.
pub open spec fn seat_keymap_events(
    foreign: Seq<ForeignView>,
    live: Seq<WlKeyboardId>,
) -> Seq<ClientEvent> {
    live_records(foreign, live).map_values(|r: ForeignView| ClientEvent::SeatKeymap { kbd: r.kbd })
}

proof fn lemma_live_records_step(foreign: Seq<ForeignView>, live: Seq<WlKeyboardId>, i: int)
    requires
        0 <= i < foreign.len(),
    ensures
        live_records(foreign.take(i + 1), live) == (if live.contains(foreign[i].kbd) {
            live_records(foreign.take(i), live).push(foreign[i])
        } else {
            live_records(foreign.take(i), live)
        }),
{
    reveal(Seq::filter);
    assert(foreign.take(i + 1).drop_last() =~= foreign.take(i));
    assert(foreign.take(i + 1).last() == foreign[i]);
}

/// The events that put the focused client back on the seat's modifiers.
pub open spec fn seat_mods_events(seat: SeatState) -> Seq<ClientEvent> {
    if seat.focused {
        seq![ClientEvent::Modifiers { mods: seat.mods }]
    } else {
        Seq::empty()
    }
}

/// The events of a restore: nothing where nothing is owed or the seat has no
/// keyboard.
pub open spec fn restore_events(
    b: BindingsView,
    seat: Option<SeatState>,
    live: Seq<WlKeyboardId>,
) -> Seq<ClientEvent> {
    match seat {
        Some(seat) if b.restore_owed() => seat_keymap_events(b.foreign, live) + seat_mods_events(
            seat,
        ),
        _ => Seq::empty(),
    }
}

/// The bindings after a restore.
pub open spec fn after_restore(b: BindingsView, seat: Option<SeatState>) -> BindingsView {
    if seat is Some && b.restore_owed() {
        b.restored()
    } else {
        b
    }
}

/// Puts the seat's keymap and modifiers back on every `wl_keyboard` a virtual
/// keyboard moved off them. To be called before a physical key is forwarded:
/// nothing else re-sends a keymap the seat did not change. The modifiers go
/// back even when no keymap does. `seat` is what the seat's keyboard reports, if
/// it has one.
pub fn restore_seat_keymap(
    bindings: &mut VirtualKeyboardBindings,
    seat: Option<SeatState>,
    live: &Vec<WlKeyboardId>,
) -> (events: Vec<ClientEvent>)
    requires
        old(bindings)@.wf(),
    ensures
        final(bindings)@ == after_restore(old(bindings)@, seat),
        final(bindings)@.wf(),
        seat is None || !old(bindings)@.restore_owed() ==> *final(bindings) == *old(bindings),
        events@ == restore_events(old(bindings)@, seat, live@),
{
    let mut events: Vec<ClientEvent> = Vec::new();
    if bindings.foreign_keymaps.len() == 0 && !bindings.virtual_mods_sent {
        return events;
    }
    let seat = match seat {
        Some(seat) => seat,
        None => return events,
    };
    let ghost foreign = bindings@.foreign;
    let mut i: usize = 0;
    assert(seat_keymap_events(foreign.take(0), live@) =~= events@) by {
        reveal(Seq::filter);
    }
    // No record reads the same as the seat's keymap, so each one owes a send.
    while i < bindings.foreign_keymaps.len()
        invariant
            i <= bindings.foreign_keymaps.len(),
            bindings@ == old(bindings)@,
            foreign == bindings@.foreign,
            events@ == seat_keymap_events(foreign.take(i as int), live@),
        decreases bindings.foreign_keymaps.len() - i,
    {
        let kbd = bindings.foreign_keymaps[i].kbd;
        proof {
            lemma_live_records_step(foreign, live@, i as int);
        }
        if is_live(live, kbd) {
            events.push(ClientEvent::SeatKeymap { kbd });
        }
        i = i + 1;
        assert(events@ =~= seat_keymap_events(foreign.take(i as int), live@));
    }
    assert(foreign.take(i as int) =~= foreign);
    bindings.foreign_keymaps.clear();
    bindings.virtual_mods_sent = false;
    if seat.focused {
        events.push(ClientEvent::Modifiers { mods: seat.mods });
    }
    assert(bindings@ =~= old(bindings)@.restored());
    assert(events@ =~= seat_keymap_events(foreign, live@) + seat_mods_events(seat));
    events
}

/// To be called after the seat's keymap may have changed, with the keymap as it
/// reads now, where [`VirtualKeyboardBindings::knows_seat_keymap`] holds. A
/// changed keymap goes out to every `wl_keyboard`, which overwrites whatever
/// virtual keymap any of them held, so the records go with it; one that reads
/// the same reaches nobody and leaves them true.
pub fn seat_keymap_changed(bindings: &mut VirtualKeyboardBindings, read: Option<String>)
    requires
        old(bindings)@.wf(),
        old(bindings)@.seat_keymap is Some ==> read is Some,
    ensures
        final(bindings)@ == (match read {
            Some(text) => old(bindings)@.seat_changed(text@),
            None => old(bindings)@,
        }),
        final(bindings)@.wf(),
        old(bindings)@.seat_keymap is None ==> *final(bindings) == *old(bindings),
{
    let known = match bindings.seat_keymap.take() {
        Some(text) => text,
        None => return,
    };
    if let Some(text) = read {
        if text != known {
            bindings.foreign_keymaps.clear();
        }
        bindings.seat_keymap = Some(text);
        assert(bindings@ =~= old(bindings)@.seat_changed(text@));
    }
}

} // verus!
