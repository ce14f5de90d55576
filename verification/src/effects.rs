//! What each step does, said of what goes in and what comes out of it.
use vstd::prelude::*;
use vstd::utf8::*;

use crate::dispatch;
use crate::dispatch::{KeyboardRequest, RequestAction};
use crate::events::{ClientEvent, KeyState, SeatState};
use crate::handler;
use crate::handler::Keysym;
use crate::keymaps;
use crate::keymaps::PassView;
use crate::keys;
use crate::laws;
use crate::laws::Op;
use crate::model;
use crate::model::{BindingsView, ForeignView, KeyboardId, KeymapView, WlKeyboardId};
use crate::modifiers;
use crate::modifiers::{ModifiersState, SerializedMods};
use crate::tracking;
use crate::tracking::{UploadAction, UploadEvent};
use crate::upload;
use crate::upload::KeymapRefusal;

verus! {

/// Whether `x` stands somewhere before `y`.
pub open spec fn comes_before<T>(s: Seq<T>, x: T, y: T) -> bool {
    exists|i: int, j: int|
        0 <= i < j < s.len() && #[trigger] s[i] == x && #[trigger] s[j] == y
}

proof fn lemma_filter_members<T>(s: Seq<T>, p: spec_fn(T) -> bool, x: T)
    ensures
        s.filter(p).contains(x) <==> s.contains(x) && p(x),
    decreases s.len(),
{
    reveal(Seq::filter);
    if s.len() > 0 {
        let front = s.drop_last();
        lemma_filter_members(front, p, x);
        let kept = front.filter(p);
        if s.contains(x) {
            let i = choose|i: int| 0 <= i < s.len() && s[i] == x;
            if i < front.len() {
                assert(front[i] == x);
            }
        }
        if front.contains(x) {
            let i = choose|i: int| 0 <= i < front.len() && front[i] == x;
            assert(s[i] == x);
        }
        assert(s[s.len() - 1] == s.last());
        if p(s.last()) {
            let all = kept.push(s.last());
            assert(all[kept.len() as int] == s.last());
            if kept.contains(x) {
                let i = choose|i: int| 0 <= i < kept.len() && kept[i] == x;
                assert(all[i] == x);
            }
            if all.contains(x) {
                let i = choose|i: int| 0 <= i < all.len() && all[i] == x;
                if i < kept.len() {
                    assert(kept[i] == x);
                }
            }
        }
    }
}

proof fn lemma_filter_order<T>(s: Seq<T>, p: spec_fn(T) -> bool, i: int, j: int)
    requires
        0 <= i < j < s.len(),
        p(s[i]),
        p(s[j]),
    ensures
        comes_before(s.filter(p), s[i], s[j]),
    decreases s.len(),
{
    reveal(Seq::filter);
    let front = s.drop_last();
    let kept = front.filter(p);
    let all = s.filter(p);
    if j < front.len() {
        lemma_filter_order(front, p, i, j);
        let (a, b) = choose|a: int, b: int|
            0 <= a < b < kept.len() && #[trigger] kept[a] == front[i] && #[trigger] kept[b]
                == front[j];
        assert(all[a] == s[i] && all[b] == s[j]);
    } else {
        lemma_filter_members(front, p, s[i]);
        assert(front[i] == s[i]);
        let a = choose|a: int| 0 <= a < kept.len() && kept[a] == s[i];
        assert(all[a] == s[i] && all[kept.len() as int] == s[j]);
    }
}

proof fn lemma_first_record(foreign: Seq<ForeignView>, kbd: WlKeyboardId, i: int)
    requires
        0 <= i <= foreign.len(),
        forall|j: int| 0 <= j < i ==> (#[trigger] foreign[j]).kbd != kbd,
    ensures
        i == foreign.len() ==> model::record_of(foreign, kbd) is None,
        i < foreign.len() && foreign[i].kbd == kbd ==> model::record_of(foreign, kbd) == Some(
            foreign[i].text,
        ),
    decreases foreign.len(),
{
    if foreign.len() > 0 && i > 0 {
        lemma_first_record(foreign.drop_first(), kbd, i - 1);
    }
}

/// A `wl_keyboard` holds the keymap on record for it while it lives, and the
/// seat's where nothing is on record.
pub proof fn law_held_keymap_is_the_one_on_record(
    foreign: Seq<ForeignView>,
    kbd: WlKeyboardId,
    seat: Seq<char>,
    live: Seq<WlKeyboardId>,
    i: int,
)
    requires
        0 <= i <= foreign.len(),
        forall|j: int| 0 <= j < i ==> (#[trigger] foreign[j]).kbd != kbd,
        i < foreign.len() ==> foreign[i].kbd == kbd,
    ensures
        i < foreign.len() && live.contains(kbd) ==> model::held_text(foreign, kbd, seat, live)
            == foreign[i].text,
        i == foreign.len() || !live.contains(kbd) ==> model::held_text(foreign, kbd, seat, live)
            == seat,
{
    lemma_first_record(foreign, kbd, i);
}

/// What is always so: each `wl_keyboard` has one record at most, none of the seat's
/// own text, and while the seat's keymap is unknown there is neither a record nor a
/// virtual modifier mask. Nothing more is asked of the bindings, whose keyboards are
/// finitely many.
pub proof fn law_invariant_is_about_records_alone(b: BindingsView)
    ensures
        b.wf() <==> {
            &&& forall|i: int, j: int|
                0 <= i < j < b.foreign.len() ==> (#[trigger] b.foreign[i]).kbd != (
                #[trigger] b.foreign[j]).kbd
            &&& forall|i: int|
                0 <= i < b.foreign.len() ==> Some((#[trigger] b.foreign[i]).text) != b.seat_keymap
            &&& b.seat_keymap is None ==> b.foreign.len() == 0 && !b.virtual_mods_sent
            &&& b.keyboards.dom().finite()
        },
        BindingsView::empty().wf(),
{
}

/// A keyboard's keymap is the one it is registered with.
pub proof fn law_keymap_is_the_registered_one(b: BindingsView, id: KeyboardId)
    ensures
        b.keyboards.contains_key(id) ==> b.keymap_of(id) == b.keyboards[id].keymap,
        !b.keyboards.contains_key(id) ==> b.keymap_of(id) is None,
{
}

/// A `wl_keyboard` is owed a virtual keyboard's keymap exactly when the text it
/// holds, all of it, is another one. A keyboard without a keymap has none to send,
/// and before the seat's keymap is known nobody is owed any.
pub proof fn law_keymap_is_owed_exactly_where_another_is_held(
    b: BindingsView,
    id: KeyboardId,
    kbd: WlKeyboardId,
    live: Seq<WlKeyboardId>,
    i: int,
)
    requires
        0 <= i <= b.foreign.len(),
        forall|j: int| 0 <= j < i ==> (#[trigger] b.foreign[j]).kbd != kbd,
        i < b.foreign.len() ==> b.foreign[i].kbd == kbd,
    ensures
        b.owes_keymap(id, kbd, live) <==> {
            &&& b.keyboards.contains_key(id)
            &&& b.keyboards[id].keymap matches Some(keymap)
            &&& b.seat_keymap matches Some(seat)
            &&& keymap.text != (if i < b.foreign.len() && live.contains(kbd) {
                b.foreign[i].text
            } else {
                seat
            })
        },
{
    lemma_first_record(b.foreign, kbd, i);
}

/// What a pass leaves behind, said of the texts: a live `wl_keyboard` that took
/// the keymap at any of its places holds the virtual keyboard's text, and any
/// other one holds what it held.
pub proof fn law_pass_leaves_takers_and_only_them_on_the_keymap(
    b: BindingsView,
    pass: PassView,
    accepts: Seq<bool>,
    live: Seq<WlKeyboardId>,
    kbd: WlKeyboardId,
)
    requires
        b.seat_keymap is Some,
        b.keyboards.contains_key(pass.id),
        b.keyboards[pass.id].keymap is Some,
        0 <= pass.next <= pass.keyboards.len(),
        live.contains(kbd),
    ensures
        model::held_text(
            laws::run(b, pass, accepts, live).0.foreign,
            kbd,
            b.seat_keymap->0,
            live,
        ) == (if exists|i: int|
            pass.next <= i < pass.keyboards.len() && #[trigger] pass.keyboards[i] == kbd
                && accepts[i] {
            b.keyboards[pass.id].keymap->0.text
        } else {
            model::held_text(b.foreign, kbd, b.seat_keymap->0, live)
        }),
    decreases pass.keyboards.len() - pass.next,
{
    if pass.next < pass.keyboards.len() {
        let target = pass.keyboards[pass.next];
        let text = b.keyboards[pass.id].keymap->0.text;
        let seat = b.seat_keymap->0;
        let sends = b.owes_keymap(pass.id, target, live) && accepts[pass.next];
        let next = if sends {
            b.keymap_sent(pass.id, target, live)
        } else {
            b
        };
        if sends {
            laws::lemma_held_after_send(b.foreign, target, text, seat, live, kbd);
        }
        let rest = pass.advanced(sends);
        law_pass_leaves_takers_and_only_them_on_the_keymap(next, rest, accepts, live, kbd);
        let later = exists|i: int|
            rest.next <= i < rest.keyboards.len() && #[trigger] rest.keyboards[i] == kbd
                && accepts[i];
        let any = exists|i: int|
            pass.next <= i < pass.keyboards.len() && #[trigger] pass.keyboards[i] == kbd
                && accepts[i];
        if later {
            let i = choose|i: int|
                rest.next <= i < rest.keyboards.len() && #[trigger] rest.keyboards[i] == kbd
                    && accepts[i];
            assert(pass.keyboards[i] == kbd);
        }
        if any && !later {
            let i = choose|i: int|
                pass.next <= i < pass.keyboards.len() && #[trigger] pass.keyboards[i] == kbd
                    && accepts[i];
            assert(i == pass.next || rest.keyboards[i] == kbd);
        }
    }
}

/// A pass sent something exactly when some `wl_keyboard` held another keymap and
/// took the one it was sent.
pub proof fn law_pass_sent_exactly_when_one_was_owed_and_taken(
    b: BindingsView,
    pass: PassView,
    accepts: Seq<bool>,
    live: Seq<WlKeyboardId>,
)
    requires
        b.seat_keymap is Some,
        b.keyboards.contains_key(pass.id),
        b.keyboards[pass.id].keymap is Some,
        0 <= pass.next <= pass.keyboards.len(),
    ensures
        laws::run(b, pass, accepts, live).1.sent <==> pass.sent || exists|i: int|
            pass.next <= i < pass.keyboards.len() && accepts[i] && model::held_text(
                b.foreign,
                #[trigger] pass.keyboards[i],
                b.seat_keymap->0,
                live,
            ) != b.keyboards[pass.id].keymap->0.text,
    decreases pass.keyboards.len() - pass.next,
{
    let text = b.keyboards[pass.id].keymap->0.text;
    let seat = b.seat_keymap->0;
    if pass.next < pass.keyboards.len() {
        let target = pass.keyboards[pass.next];
        if b.owes_keymap(pass.id, target, live) && accepts[pass.next] {
            laws::lemma_sent_stays(
                b.keymap_sent(pass.id, target, live),
                pass.advanced(true),
                accepts,
                live,
            );
            assert(model::held_text(b.foreign, pass.keyboards[pass.next], seat, live) != text);
        } else {
            let rest = pass.advanced(false);
            law_pass_sent_exactly_when_one_was_owed_and_taken(b, rest, accepts, live);
            let later = exists|i: int|
                rest.next <= i < rest.keyboards.len() && accepts[i] && model::held_text(
                    b.foreign,
                    #[trigger] rest.keyboards[i],
                    seat,
                    live,
                ) != text;
            let any = exists|i: int|
                pass.next <= i < pass.keyboards.len() && accepts[i] && model::held_text(
                    b.foreign,
                    #[trigger] pass.keyboards[i],
                    seat,
                    live,
                ) != text;
            if later {
                let i = choose|i: int|
                    rest.next <= i < rest.keyboards.len() && accepts[i] && model::held_text(
                        b.foreign,
                        #[trigger] rest.keyboards[i],
                        seat,
                        live,
                    ) != text;
                assert(model::held_text(b.foreign, pass.keyboards[i], seat, live) != text);
            }
            if any {
                let i = choose|i: int|
                    pass.next <= i < pass.keyboards.len() && accepts[i] && model::held_text(
                        b.foreign,
                        #[trigger] pass.keyboards[i],
                        seat,
                        live,
                    ) != text;
                assert(model::held_text(b.foreign, rest.keyboards[i], seat, live) != text);
            }
        }
    }
}

/// After a send the records are the earlier ones of other `wl_keyboard`s that
/// still live, and one of the `wl_keyboard` sent to where the keymap does not read
/// as the seat's.
pub proof fn law_send_records_who_holds_what(
    b: BindingsView,
    id: KeyboardId,
    kbd: WlKeyboardId,
    live: Seq<WlKeyboardId>,
    record: ForeignView,
)
    requires
        b.seat_keymap is Some,
        b.keyboards.contains_key(id),
        b.keyboards[id].keymap is Some,
    ensures
        b.keymap_sent(id, kbd, live).foreign.contains(record) <==> {
            ||| b.foreign.contains(record) && record.kbd != kbd && live.contains(record.kbd)
            ||| record.kbd == kbd && record.text == b.keyboards[id].keymap->0.text && record.text
                != b.seat_keymap->0
        },
{
    let text = b.keyboards[id].keymap->0.text;
    let p = |r: ForeignView| model::survives(r, kbd, live);
    let kept = b.foreign.filter(p);
    lemma_filter_members(b.foreign, p, record);
    if text != b.seat_keymap->0 {
        let all = kept.push(ForeignView { kbd, text });
        assert(all[kept.len() as int] == (ForeignView { kbd, text }));
        if kept.contains(record) {
            let i = choose|i: int| 0 <= i < kept.len() && kept[i] == record;
            assert(all[i] == record);
        }
        if all.contains(record) {
            let i = choose|i: int| 0 <= i < all.len() && all[i] == record;
            if i < kept.len() {
                assert(kept[i] == record);
            }
        }
    }
}

/// Where each `wl_keyboard` had one record at most, it has one at most after a send,
/// and a new record comes last.
pub proof fn law_send_records_each_keyboard_once(
    b: BindingsView,
    id: KeyboardId,
    kbd: WlKeyboardId,
    live: Seq<WlKeyboardId>,
)
    requires
        b.seat_keymap is Some,
        b.keyboards.contains_key(id),
        b.keyboards[id].keymap is Some,
        forall|i: int, j: int|
            0 <= i < j < b.foreign.len() ==> (#[trigger] b.foreign[i]).kbd != (
            #[trigger] b.foreign[j]).kbd,
    ensures
        ({
            let after = b.keymap_sent(id, kbd, live).foreign;
            let text = b.keyboards[id].keymap->0.text;
            &&& forall|i: int, j: int|
                0 <= i < j < after.len() ==> (#[trigger] after[i]).kbd != (#[trigger] after[j]).kbd
            &&& text != b.seat_keymap->0 ==> after.len() > 0 && after.last() == (ForeignView {
                kbd,
                text,
            })
        }),
{
    let p = |r: ForeignView| model::survives(r, kbd, live);
    model::lemma_filter_distinct(b.foreign, p);
    let kept = b.foreign.filter(p);
    assert forall|i: int| 0 <= i < kept.len() implies (#[trigger] kept[i]).kbd != kbd by {
        assert(p(kept[i]));
    }
}

/// Records keep their order through a send.
pub proof fn law_send_keeps_the_order_of_records(
    b: BindingsView,
    id: KeyboardId,
    kbd: WlKeyboardId,
    live: Seq<WlKeyboardId>,
    i: int,
    j: int,
)
    requires
        b.seat_keymap is Some,
        b.keyboards.contains_key(id),
        b.keyboards[id].keymap is Some,
        0 <= i < j < b.foreign.len(),
        b.foreign[i].kbd != kbd && live.contains(b.foreign[i].kbd),
        b.foreign[j].kbd != kbd && live.contains(b.foreign[j].kbd),
    ensures
        comes_before(b.keymap_sent(id, kbd, live).foreign, b.foreign[i], b.foreign[j]),
{
    let p = |r: ForeignView| model::survives(r, kbd, live);
    lemma_filter_order(b.foreign, p, i, j);
    let kept = b.foreign.filter(p);
    let all = b.keymap_sent(id, kbd, live).foreign;
    let (x, y) = choose|x: int, y: int|
        0 <= x < y < kept.len() && #[trigger] kept[x] == b.foreign[i] && #[trigger] kept[y]
            == b.foreign[j];
    assert(all[x] == b.foreign[i] && all[y] == b.foreign[j]);
}

/// A live `wl_keyboard` is counted as holding a virtual keymap once for each record
/// of it, and one that is gone is not counted.
pub proof fn law_held_keymaps_are_those_of_live_keyboards(
    foreign: Seq<ForeignView>,
    live: Seq<WlKeyboardId>,
    record: ForeignView,
)
    ensures
        keymaps::live_records(foreign, live).to_multiset().count(record) == (if live.contains(
            record.kbd,
        ) {
            foreign.to_multiset().count(record)
        } else {
            0
        }),
    decreases foreign.len(),
{
    broadcast use vstd::seq_lib::group_to_multiset_ensures;

    reveal(Seq::filter);
    if foreign.len() > 0 {
        let front = foreign.drop_last();
        law_held_keymaps_are_those_of_live_keyboards(front, live, record);
        assert(foreign =~= front.push(foreign.last()));
    } else {
        assert(foreign =~= Seq::<ForeignView>::empty());
    }
}

/// A restore sends the seat's keymap to each live `wl_keyboard` on record, the
/// seat's modifiers to whatever has the focus, and nothing else; and nothing at all
/// where there is neither a record nor a virtual modifier mask, or no keyboard on
/// the seat.
pub proof fn law_restore_sends_what_is_owed(
    b: BindingsView,
    seat: Option<SeatState>,
    live: Seq<WlKeyboardId>,
    event: ClientEvent,
)
    ensures
        keymaps::restore_events(b, seat, live).contains(event) <==> {
            &&& seat is Some
            &&& b.foreign.len() > 0 || b.virtual_mods_sent
            &&& match event {
                ClientEvent::SeatKeymap { kbd } => live.contains(kbd) && exists|i: int|
                    0 <= i < b.foreign.len() && (#[trigger] b.foreign[i]).kbd == kbd,
                ClientEvent::Modifiers { mods } => seat->0.focused && mods == seat->0.mods,
                ClientEvent::Key { .. } => false,
            }
        },
{
    if seat is Some && (b.foreign.len() > 0 || b.virtual_mods_sent) {
        let p = |r: ForeignView| live.contains(r.kbd);
        let kept = b.foreign.filter(p);
        let sends = keymaps::seat_keymap_events(b.foreign, live);
        let tail = keymaps::seat_mods_events(seat->0);
        let all = keymaps::restore_events(b, seat, live);
        assert(all.contains(event) <==> sends.contains(event) || tail.contains(event)) by {
            if sends.contains(event) {
                let i = choose|i: int| 0 <= i < sends.len() && sends[i] == event;
                assert(all[i] == event);
            }
            if tail.contains(event) {
                let i = choose|i: int| 0 <= i < tail.len() && tail[i] == event;
                assert(all[sends.len() + i] == event);
            }
            if all.contains(event) {
                let i = choose|i: int| 0 <= i < all.len() && all[i] == event;
                if i < sends.len() {
                    assert(sends[i] == event);
                } else {
                    assert(tail[i - sends.len()] == event);
                }
            }
        }
        if seat->0.focused {
            assert(tail[0] == (ClientEvent::Modifiers { mods: seat->0.mods }));
        }
        if sends.contains(event) {
            let i = choose|i: int| 0 <= i < sends.len() && sends[i] == event;
            assert(event == (ClientEvent::SeatKeymap { kbd: kept[i].kbd }));
            assert(kept.contains(kept[i]));
            lemma_filter_members(b.foreign, p, kept[i]);
            let k = choose|k: int| 0 <= k < b.foreign.len() && b.foreign[k] == kept[i];
            assert(b.foreign[k].kbd == kept[i].kbd);
        }
        if let ClientEvent::SeatKeymap { kbd } = event {
            if live.contains(kbd) && exists|i: int|
                0 <= i < b.foreign.len() && (#[trigger] b.foreign[i]).kbd == kbd {
                let i = choose|i: int|
                    0 <= i < b.foreign.len() && (#[trigger] b.foreign[i]).kbd == kbd;
                lemma_filter_members(b.foreign, p, b.foreign[i]);
                let k = choose|k: int| 0 <= k < kept.len() && kept[k] == b.foreign[i];
                assert(sends[k] == event);
            }
        }
    }
}

/// Where each `wl_keyboard` has one record at most, a restore sends nothing twice;
/// keymaps go out in the order of the records, and the modifiers after them.
pub proof fn law_restore_sends_each_once_and_modifiers_last(
    b: BindingsView,
    seat: SeatState,
    live: Seq<WlKeyboardId>,
)
    requires
        b.foreign.len() > 0 || b.virtual_mods_sent,
        forall|i: int, j: int|
            0 <= i < j < b.foreign.len() ==> (#[trigger] b.foreign[i]).kbd != (
            #[trigger] b.foreign[j]).kbd,
    ensures
        ({
            let events = keymaps::restore_events(b, Some(seat), live);
            &&& events.no_duplicates()
            &&& seat.focused ==> events.last() == (ClientEvent::Modifiers { mods: seat.mods })
            &&& forall|i: int, j: int|
                0 <= i < j < b.foreign.len() && live.contains((#[trigger] b.foreign[i]).kbd)
                    && live.contains((#[trigger] b.foreign[j]).kbd) ==> comes_before(
                    events,
                    ClientEvent::SeatKeymap { kbd: b.foreign[i].kbd },
                    ClientEvent::SeatKeymap { kbd: b.foreign[j].kbd },
                )
        }),
{
    let p = |r: ForeignView| live.contains(r.kbd);
    let kept = b.foreign.filter(p);
    let events = keymaps::restore_events(b, Some(seat), live);
    model::lemma_filter_distinct(b.foreign, p);
    assert(forall|i: int|
        0 <= i < kept.len() ==> events[i] == (ClientEvent::SeatKeymap {
            kbd: (#[trigger] kept[i]).kbd,
        }));
    assert(events.no_duplicates()) by {
        assert forall|i: int, j: int| 0 <= i < j < events.len() implies events[i]
            != events[j] by {
            if j < kept.len() {
                assert(kept[i].kbd != kept[j].kbd);
            } else {
                assert(events[j] is Modifiers);
                assert(i < kept.len());
                assert(kept[i].kbd == kept[i].kbd);
            }
        }
    }
    assert forall|i: int, j: int|
        0 <= i < j < b.foreign.len() && live.contains((#[trigger] b.foreign[i]).kbd)
            && live.contains((#[trigger] b.foreign[j]).kbd) implies comes_before(
        events,
        ClientEvent::SeatKeymap { kbd: b.foreign[i].kbd },
        ClientEvent::SeatKeymap { kbd: b.foreign[j].kbd },
    ) by {
        lemma_filter_order(b.foreign, p, i, j);
        let (x, y) = choose|x: int, y: int|
            0 <= x < y < kept.len() && #[trigger] kept[x] == b.foreign[i] && #[trigger] kept[y]
                == b.foreign[j];
        assert(events[x] == (ClientEvent::SeatKeymap { kbd: kept[x].kbd }));
        assert(events[y] == (ClientEvent::SeatKeymap { kbd: kept[y].kbd }));
    }
}

/// A restore that can be made leaves no record and no virtual modifier mask, and
/// virtual keyboards and the seat's keymap as they were; one that cannot be made
/// leaves everything as it was.
pub proof fn law_restore_leaves_nothing_owed(b: BindingsView, seat: Option<SeatState>)
    ensures
        ({
            let after = keymaps::after_restore(b, seat);
            &&& after.keyboards == b.keyboards
            &&& after.seat_keymap == b.seat_keymap
            &&& seat is Some ==> after.foreign.len() == 0 && !after.virtual_mods_sent
            &&& seat is None ==> after == b
        }),
{
    assert(b.foreign.len() == 0 ==> b.foreign =~= Seq::empty());
}

/// Each part of the bindings is changed by the steps it is for and by no other:
/// modifiers told stay told through everything but a restore, a record stays
/// through everything but a send, a restore or a changed seat keymap, and the seat's
/// keymap through everything but its reading and its change.
pub proof fn law_each_part_changes_only_by_its_own_steps(b: BindingsView, op: Op)
    ensures
        op !is ModsTold && op !is Restore ==> laws::apply(b, op).virtual_mods_sent
            == b.virtual_mods_sent,
        op !is KeymapSent && op !is SeatChanged && op !is Restore ==> laws::apply(b, op).foreign
            == b.foreign,
        op !is SeatKeymap && op !is SeatChanged ==> laws::apply(b, op).seat_keymap
            == b.seat_keymap,
        op is KeymapSent || op is ModsTold || op is SeatKeymap || op is SeatChanged
            || op is Restore ==> laws::apply(b, op).keyboards == b.keyboards,
{
}

/// Modifiers stay accounted for through everything but telling and restoring
/// them.
pub proof fn law_modifiers_stay_accounted_for(
    b: BindingsView,
    op: Op,
    told: SerializedMods,
    seat: SerializedMods,
)
    requires
        op !is ModsTold,
        op !is Restore,
        laws::mods_accounted_for(b, told, seat),
    ensures
        laws::mods_accounted_for(laws::apply(b, op), told, seat),
        told != seat ==> laws::apply(b, op).virtual_mods_sent,
{
}

/// Telling modifiers other than the seat's puts a mask on record, telling the
/// seat's own changes nothing, and no telling takes a mask off the record.
pub proof fn law_only_foreign_modifiers_are_put_on_record(
    b: BindingsView,
    mods: ModifiersState,
    seat: SerializedMods,
)
    ensures
        mods.serialized != seat ==> b.mods_told(mods, seat).virtual_mods_sent,
        mods.serialized == seat ==> b.mods_told(mods, seat) == b,
        b.virtual_mods_sent ==> b.mods_told(mods, seat) == b,
{
}

/// The first reading of the seat's keymap is kept: it is recorded as read, and no
/// later reading changes anything.
pub proof fn law_first_reading_of_the_seat_keymap_stands(
    b: BindingsView,
    read: Seq<char>,
    again: Option<Seq<char>>,
)
    ensures
        b.seat_keymap is None ==> b.with_seat_keymap(Some(read)).seat_keymap == Some(read),
        b.seat_keymap is Some ==> b.with_seat_keymap(Some(read)) == b,
        b.with_seat_keymap(Some(read)).with_seat_keymap(again) == b.with_seat_keymap(Some(read)),
        b.with_seat_keymap(None) == b,
{
}

/// A seat keymap that was known comes to read what it reads now. The records go if
/// that is another text, any other text, and stay if it is the same one. One that
/// was never asked for stays unknown.
pub proof fn law_changed_seat_keymap_drops_every_record(b: BindingsView, text: Seq<char>)
    ensures
        b.seat_keymap is None ==> b.seat_changed(text) == b,
        b.seat_keymap is Some ==> b.seat_changed(text).seat_keymap == Some(text),
        b.seat_keymap is Some && b.seat_keymap != Some(text) ==> b.seat_changed(text).foreign.len()
            == 0,
        b.seat_keymap == Some(text) ==> b.seat_changed(text) == b,
        b.seat_changed(text).virtual_mods_sent == b.virtual_mods_sent,
        b.seat_changed(text).keyboards == b.keyboards,
{
}

/// After a `modifiers` request the keyboard holds what its xkb state shows,
/// whatever that is: the last mask wins, the keymap and the keys stay.
pub proof fn law_held_modifiers_are_the_last_shown(
    b: BindingsView,
    id: KeyboardId,
    earlier: ModifiersState,
    mods: ModifiersState,
)
    requires
        b.keyboards.contains_key(id),
        b.keyboards[id].keymap is Some,
    ensures
        ({
            let after = b.with_mods(id, mods);
            let text = b.keyboards[id].keymap->0.text;
            &&& after.keyboards.contains_key(id)
            &&& after.keyboards[id].keymap == Some(KeymapView { text, mods })
            &&& after.keyboards[id].swallowed == b.keyboards[id].swallowed
            &&& after.keyboards[id].forwarded == b.keyboards[id].forwarded
            &&& after.keymap_of(id) == Some(KeymapView { text, mods })
        }),
        b.with_mods(id, earlier).with_mods(id, mods) == b.with_mods(id, mods),
{
    assert(b.with_mods(id, earlier).with_mods(id, mods) =~= b.with_mods(id, mods));
}

/// Modifiers of a keyboard that has no keymap change nothing.
pub proof fn law_modifiers_without_a_keymap_change_nothing(
    b: BindingsView,
    id: KeyboardId,
    mods: ModifiersState,
)
    requires
        !b.keyboards.contains_key(id) || b.keyboards[id].keymap is None,
    ensures
        b.with_mods(id, mods) == b,
        b.keymap_of(id) is None,
{
}

/// An upload's end, and nothing before it, puts the compiled text and the
/// modifiers shown on a registered keyboard; the keys it holds stay.
pub proof fn law_upload_ends_with_the_compiled_keymap(
    b: BindingsView,
    id: KeyboardId,
    text: String,
    mods: ModifiersState,
    other: UploadEvent,
)
    requires
        other !is Resolved,
    ensures
        ({
            let after = tracking::after_upload(b, id, UploadEvent::Resolved { text, mods });
            &&& b.keyboards.contains_key(id) ==> {
                &&& after.keyboards.contains_key(id)
                &&& after.keyboards[id].keymap == Some(KeymapView { text: text@, mods })
                &&& after.keyboards[id].swallowed == b.keyboards[id].swallowed
                &&& after.keyboards[id].forwarded == b.keyboards[id].forwarded
            }
            &&& !b.keyboards.contains_key(id) ==> after == b
            &&& after.foreign == b.foreign
            &&& after.virtual_mods_sent == b.virtual_mods_sent
            &&& after.seat_keymap == b.seat_keymap
        }),
        tracking::after_upload(b, id, other) == b,
{
}

/// A new keyboard has no keymap, owes nothing and holds nothing down, whatever was
/// known under its name; a destroyed one is gone.
pub proof fn law_keyboards_begin_empty_and_end(b: BindingsView, id: KeyboardId)
    ensures
        ({
            let made = laws::apply(b, Op::Create { id });
            &&& made.keyboards.contains_key(id)
            &&& made.keyboards[id].keymap is None
            &&& forall|key: u32| !(#[trigger] made.keyboards[id].swallowed.contains(key))
            &&& forall|key: u32| !(#[trigger] made.keyboards[id].forwarded.contains(key))
        }),
        !laws::apply(b, Op::Destroy { id }).keyboards.contains_key(id),
        BindingsView::empty().keyboards.len() == 0,
        BindingsView::empty().foreign.len() == 0,
        !BindingsView::empty().virtual_mods_sent,
        BindingsView::empty().seat_keymap is None,
{
}

/// Consuming a press makes exactly that key owed a swallow, a release ends exactly
/// that, and neither touches the keymap or the keys the client holds.
pub proof fn law_swallows_go_key_by_key(b: BindingsView, id: KeyboardId, key: u32, k: u32)
    requires
        b.keyboards.contains_key(id),
    ensures
        ({
            let eaten = b.swallow(id, key);
            let let_go = b.release(id, key);
            &&& eaten.keyboards[id].swallowed.contains(k) <==> k == key
                || b.keyboards[id].swallowed.contains(k)
            &&& let_go.keyboards[id].swallowed.contains(k) <==> k != key
                && b.keyboards[id].swallowed.contains(k)
            &&& eaten.keyboards[id].keymap == b.keyboards[id].keymap
            &&& let_go.keyboards[id].keymap == b.keyboards[id].keymap
            &&& eaten.keyboards[id].forwarded == b.keyboards[id].forwarded
            &&& let_go.keyboards[id].forwarded == b.keyboards[id].forwarded
        }),
{
}

/// Telling the client of a key makes exactly that key one it holds or does not
/// hold, and touches neither keymap nor swallows.
pub proof fn law_forwarded_keys_go_key_by_key(
    b: BindingsView,
    id: KeyboardId,
    key: u32,
    pressed: bool,
    k: u32,
)
    requires
        b.keyboards.contains_key(id),
    ensures
        ({
            let after = b.forward(id, key, pressed);
            &&& after.keyboards[id].forwarded.contains(k) <==> (if k == key {
                pressed
            } else {
                b.keyboards[id].forwarded.contains(k)
            })
            &&& after.keyboards[id].keymap == b.keyboards[id].keymap
            &&& after.keyboards[id].swallowed == b.keyboards[id].swallowed
        }),
{
}

/// Nothing that names an unregistered keyboard changes anything, but its creation.
pub proof fn law_unregistered_keyboards_change_nothing(b: BindingsView, op: Op, id: KeyboardId)
    requires
        !b.keyboards.contains_key(id),
        laws::names(op) == Some(id),
        op !is Create,
    ensures
        laws::apply(b, op) == b,
{
    assert(b.keyboards.remove(id) =~= b.keyboards);
}

/// A press on a keyboard that has a keymap is consumed if and only if a binding
/// answers to it; a press on one that has none is never consumed; and a release, by
/// whatever value, is consumed exactly where the consumed press of that key on that
/// keyboard left it owing.
pub proof fn law_key_is_consumed_only_by_a_binding_or_an_owed_swallow(
    b: BindingsView,
    bound: bool,
    id: KeyboardId,
    key: u32,
    key_state: u32,
)
    ensures
        handler::consumes(b, bound, id, key, key_state) <==> {
            &&& b.keyboards.contains_key(id)
            &&& key_state == 1 ==> b.keyboards[id].keymap is Some && bound
            &&& key_state != 1 ==> b.keyboards[id].swallowed.contains(key)
        },
        b.looks_up(id, key_state) <==> key_state == 1 && b.keyboards.contains_key(id)
            && b.keyboards[id].keymap is Some,
        b.owes_swallow(id, key, key_state) <==> key_state != 1 && b.keyboards.contains_key(id)
            && b.keyboards[id].swallowed.contains(key),
{
}

/// A press no binding answers to is given back for delivery, under every modifier,
/// and its release is not owed a swallow on its account.
pub proof fn law_unbound_press_is_given_back(b: BindingsView, id: KeyboardId, key: u32)
    ensures
        !handler::consumes(b, false, id, key, 1),
        b.keyboards.contains_key(id) && b.keyboards[id].keymap is Some ==> handler::consumes(
            b,
            true,
            id,
            key,
            1,
        ),
{
}

/// A press on a keyboard with a keymap is looked up once, by its own sym and under
/// its keyboard's modifiers; nothing else is looked up, and no lookup is undone.
pub proof fn law_only_presses_are_looked_up(
    b: BindingsView,
    before: Seq<(ModifiersState, Keysym)>,
    id: KeyboardId,
    key_state: u32,
    sym: Keysym,
)
    ensures
        ({
            let after = handler::lookups_after(b, before, id, key_state, sym);
            let asked = key_state == 1 && b.keyboards.contains_key(id)
                && b.keyboards[id].keymap is Some;
            &&& after.len() == before.len() + (if asked {
                1int
            } else {
                0
            })
            &&& after.take(before.len() as int) == before
            &&& asked ==> after.last().0 == b.keyboards[id].keymap->0.mods && after.last().1 == sym
        }),
{
    let after = handler::lookups_after(b, before, id, key_state, sym);
    assert(after.take(before.len() as int) =~= before);
}

/// What a delivery tells the client: the keyboard's modifiers first where the pass
/// sent a keymap, then the key once on each `wl_keyboard`, in their order, pressed
/// exactly where the wire value is 1.
pub proof fn law_delivered_key_reaches_each_keyboard_once(
    b: BindingsView,
    pass: PassView,
    time: u32,
    key: u32,
    key_state: u32,
)
    ensures
        ({
            let events = keys::resync(b, pass) + keys::key_events(
                pass.keyboards,
                time,
                key,
                keys::wire_state(key_state),
            );
            let carries = pass.sent && b.keyboards.contains_key(pass.id)
                && b.keyboards[pass.id].keymap is Some;
            let first: int = if carries {
                1
            } else {
                0
            };
            &&& events.len() == first + pass.keyboards.len()
            &&& carries ==> events[0] == (ClientEvent::Modifiers {
                mods: b.keyboards[pass.id].keymap->0.mods,
            })
            &&& forall|i: int|
                0 <= i < pass.keyboards.len() ==> (events[first + i] matches ClientEvent::Key {
                    kbd,
                    time: at,
                    key: of,
                    state,
                } && kbd == #[trigger] pass.keyboards[i] && at == time && of == key && (state
                    == KeyState::Pressed <==> key_state == 1))
        }),
{
}

/// Carrying the modifiers with a keymap puts a mask on record exactly where one
/// would be by telling them, and changes nothing else.
pub proof fn law_carried_modifiers_are_put_on_record(b: BindingsView, pass: PassView)
    ensures
        ({
            let after = keys::after_resync(b, pass);
            &&& after.virtual_mods_sent <==> b.virtual_mods_sent || {
                &&& pass.sent
                &&& b.keyboards.contains_key(pass.id)
                &&& b.keyboards[pass.id].keymap matches Some(keymap)
                &&& keymap.mods.serialized != pass.seat_mods
            }
            &&& after.keyboards == b.keyboards
            &&& after.foreign == b.foreign
            &&& after.seat_keymap == b.seat_keymap
        }),
{
}

proof fn lemma_release_at(keyboards: Seq<WlKeyboardId>, keys: Seq<u32>, time: u32, i: int, j: int)
    requires
        0 <= i < keyboards.len(),
        0 <= j < keys.len(),
    ensures
        0 <= i * keys.len() + j < keyboards.len() * keys.len(),
        keys::release_events(keyboards, keys, time).len() == keyboards.len() * keys.len(),
        keys::release_events(keyboards, keys, time)[i * keys.len() + j] == (ClientEvent::Key {
            kbd: keyboards[i],
            time,
            key: keys[j],
            state: KeyState::Released,
        }),
    decreases keyboards.len(),
{
    let front = keyboards.drop_last();
    let n = keys.len() as int;
    let m = keyboards.len() as int;
    lemma_release_len(keyboards, keys, time);
    lemma_release_len(front, keys, time);
    assert(0 <= i * n + j < m * n) by (nonlinear_arith)
        requires
            0 <= i < m,
            0 <= j < n,
    ;
    if i < front.len() {
        lemma_release_at(front, keys, time, i, j);
    } else {
        assert(i == front.len());
    }
}

proof fn lemma_release_len(keyboards: Seq<WlKeyboardId>, keys: Seq<u32>, time: u32)
    ensures
        keys::release_events(keyboards, keys, time).len() == keyboards.len() * keys.len(),
    decreases keyboards.len(),
{
    if keyboards.len() > 0 {
        let m = keyboards.len() as int;
        let n = keys.len() as int;
        lemma_release_len(keyboards.drop_last(), keys, time);
        assert(m * n == (m - 1) * n + n) by (nonlinear_arith);
    } else {
        assert(0 * keys.len() == 0) by (nonlinear_arith);
    }
}

/// The release events of a departing keyboard: one for each key it left pressed on
/// each of the focused client's `wl_keyboard`s, `wl_keyboard` after `wl_keyboard`,
/// the keys in the same order on each; and none without a focused client.
pub proof fn law_departing_keyboard_releases_each_key_once(
    events: Seq<ClientEvent>,
    focus: Option<Seq<WlKeyboardId>>,
    forwarded: Set<u32>,
    time: u32,
)
    requires
        keys::releases(events, focus, forwarded, time),
    ensures
        focus is None ==> events.len() == 0,
        focus matches Some(keyboards) ==> {
            let n = forwarded.len();
            &&& events.len() == keyboards.len() * n
            &&& forall|i: int, j: int|
                0 <= i < keyboards.len() && 0 <= j < n ==> {
                    &&& #[trigger] events[i * n + j] matches ClientEvent::Key {
                        kbd,
                        time: at,
                        key,
                        state,
                    }
                    &&& kbd == keyboards[i]
                    &&& at == time
                    &&& forwarded.contains(key)
                    &&& state == KeyState::Released
                    &&& events[j] matches ClientEvent::Key { key: same, .. } && same == key
                }
            &&& keyboards.no_duplicates() ==> events.no_duplicates()
        },
{
    if let Some(keyboards) = focus {
        let listed = choose|listed: Seq<u32>| #[trigger]
            keys::lists(listed, forwarded) && events == keys::release_events(
                keyboards,
                listed,
                time,
            );
        listed.unique_seq_to_set();
        let n = forwarded.len() as int;
        lemma_release_len(keyboards, listed, time);
        assert forall|i: int, j: int| 0 <= i < keyboards.len() && 0 <= j < n implies {
            &&& #[trigger] events[i * n + j] == (ClientEvent::Key {
                kbd: keyboards[i],
                time,
                key: listed[j],
                state: KeyState::Released,
            })
            &&& forwarded.contains(listed[j])
            &&& events[j] matches ClientEvent::Key { key: same, .. } && same == listed[j]
        } by {
            lemma_release_at(keyboards, listed, time, i, j);
            lemma_release_at(keyboards, listed, time, 0, j);
            assert(0 * n + j == j);
            assert(listed.to_set().contains(listed[j]));
        }
        if keyboards.no_duplicates() {
            assert forall|x: int, y: int| 0 <= x < y < events.len() implies events[x]
                != events[y] by {
                lemma_release_split(keyboards.len() as int, n, x);
                lemma_release_split(keyboards.len() as int, n, y);
                lemma_release_at(keyboards, listed, time, x / n, x % n);
                lemma_release_at(keyboards, listed, time, y / n, y % n);
            }
        }
    }
}

proof fn lemma_release_split(m: int, n: int, x: int)
    requires
        0 <= x < m * n,
        0 <= m,
        0 <= n,
    ensures
        n > 0,
        0 <= x / n < m,
        0 <= x % n < n,
        x == (x / n) * n + x % n,
{
    assert(n > 0) by (nonlinear_arith)
        requires
            0 <= x < m * n,
            0 <= n,
    ;
    vstd::arithmetic::div_mod::lemma_fundamental_div_mod(x, n);
    assert(n * (x / n) == (x / n) * n) by (nonlinear_arith);
    assert(0 <= x / n < m) by (nonlinear_arith)
        requires
            0 <= x < m * n,
            n > 0,
            x == (x / n) * n + x % n,
            0 <= x % n < n,
    ;
}

/// The text to compile is everything before the first NUL, and all of it: `n` being
/// the place of that NUL or the end of the buffer, there is a text exactly when those
/// `n` bytes are UTF-8, and it encodes to them.
pub proof fn law_uploaded_text_is_all_before_the_first_nul(bytes: Seq<u8>, n: int)
    requires
        0 <= n <= bytes.len(),
        forall|i: int| 0 <= i < n ==> bytes[i] != 0,
        n == bytes.len() || bytes[n] == 0,
    ensures
        upload::uploaded_text(bytes) is Some <==> valid_utf8(bytes.take(n)),
        upload::uploaded_text(bytes) matches Some(text) ==> encode_utf8(text) == bytes.take(n),
{
    upload::lemma_until_nul(bytes, n);
    if valid_utf8(bytes.take(n)) {
        decode_utf8_encode_utf8(bytes.take(n));
    }
}

/// Any text without a NUL comes through an upload as it is, of whatever length, with
/// a NUL and anything at all behind it.
pub proof fn law_any_text_comes_through(text: Seq<char>, behind: Seq<u8>)
    requires
        forall|i: int| 0 <= i < encode_utf8(text).len() ==> encode_utf8(text)[i] != 0,
    ensures
        upload::uploaded_text(encode_utf8(text)) == Some(text),
        upload::uploaded_text(encode_utf8(text).push(0) + behind) == Some(text),
{
    let sent = encode_utf8(text);
    let n = sent.len() as int;
    let file = sent.push(0) + behind;
    encode_utf8_valid_utf8(text);
    encode_utf8_decode_utf8(text);
    upload::lemma_until_nul(sent, n);
    assert(sent.take(n) =~= sent);
    assert forall|i: int| 0 <= i < n implies file[i] != 0 by {
        assert(file[i] == sent[i]);
    }
    assert(file[n] == 0);
    upload::lemma_until_nul(file, n);
    assert(file.take(n) =~= sent);
}

/// A keymap is read exactly when it is announced in format 1 with a size of 8 MiB or
/// less, and then all of that size is; a wrong format is what is said of it first.
pub proof fn law_offer_is_read_whole(
    b: BindingsView,
    id: KeyboardId,
    format: u32,
    size: usize,
    action: UploadAction,
)
    requires
        tracking::asks_for(b, id, UploadEvent::Offered { format, size }, action),
    ensures
        format == 1 && size <= 8 * 1024 * 1024 <==> action is Read,
        action matches UploadAction::Read { size: asked } ==> asked == size,
        format != 1 <==> action == UploadAction::Refused(KeymapRefusal::UnsupportedFormat),
        format == 1 && size > 8 * 1024 * 1024 <==> action == UploadAction::Refused(
            KeymapRefusal::TooLarge,
        ),
{
}

/// What was read is handed to xkb as the text it is, all before the first NUL, and
/// is refused exactly where it could not be read or is not UTF-8.
pub proof fn law_read_text_is_compiled_whole(
    b: BindingsView,
    id: KeyboardId,
    bytes: Option<Vec<u8>>,
    action: UploadAction,
    n: int,
)
    requires
        tracking::asks_for(b, id, UploadEvent::Read { bytes }, action),
        bytes matches Some(read) ==> {
            &&& 0 <= n <= read@.len()
            &&& forall|i: int| 0 <= i < n ==> read@[i] != 0
            &&& n == read@.len() || read@[n] == 0
        },
    ensures
        bytes is None <==> action == UploadAction::Refused(KeymapRefusal::Unreadable),
        bytes matches Some(read) ==> {
            &&& valid_utf8(read@.take(n)) <==> action is Compile
            &&& !valid_utf8(read@.take(n)) <==> action == UploadAction::Refused(
                KeymapRefusal::NotUtf8,
            )
            &&& action matches UploadAction::Compile { text } ==> encode_utf8(text@)
                == read@.take(n)
        },
{
    if let Some(read) = bytes {
        law_uploaded_text_is_all_before_the_first_nul(read@, n);
    }
}

/// The mask put on a compiled keymap is the one the keyboard held, the layout as the
/// locked one, and nothing at all on a keyboard's first keymap. It is refused exactly
/// where xkb did not compile it or the keyboard is not registered.
pub proof fn law_compiled_keymap_gets_the_mask_held(
    b: BindingsView,
    id: KeyboardId,
    ok: bool,
    action: UploadAction,
)
    requires
        tracking::asks_for(b, id, UploadEvent::Compiled { ok }, action),
    ensures
        ok && b.keyboards.contains_key(id) <==> action is ApplyMask,
        !ok <==> action == UploadAction::Refused(KeymapRefusal::NotCompiled),
        ok && !b.keyboards.contains_key(id) <==> action == UploadAction::Refused(
            KeymapRefusal::UnknownKeyboard,
        ),
        action matches UploadAction::ApplyMask { mask } ==> {
            &&& mask.depressed_layout == 0 && mask.latched_layout == 0
            &&& b.keyboards[id].keymap matches Some(keymap) ==> {
                &&& mask.depressed_mods == keymap.mods.serialized.depressed
                &&& mask.latched_mods == keymap.mods.serialized.latched
                &&& mask.locked_mods == keymap.mods.serialized.locked
                &&& mask.locked_layout == keymap.mods.serialized.layout_effective
            }
            &&& b.keyboards[id].keymap is None ==> {
                &&& mask.depressed_mods == 0
                &&& mask.latched_mods == 0
                &&& mask.locked_mods == 0
                &&& mask.locked_layout == 0
            }
        },
{
}

/// The end of an upload reports it installed exactly where the keyboard is
/// registered.
pub proof fn law_end_of_an_upload_reports_what_was_done(
    b: BindingsView,
    id: KeyboardId,
    text: String,
    mods: ModifiersState,
    action: UploadAction,
)
    requires
        tracking::asks_for(b, id, UploadEvent::Resolved { text, mods }, action),
    ensures
        b.keyboards.contains_key(id) <==> action == UploadAction::Installed,
        !b.keyboards.contains_key(id) <==> action == UploadAction::Refused(
            KeymapRefusal::UnknownKeyboard,
        ),
{
}

/// The masks of a request go onto an xkb state each in its own place, the group as
/// the locked layout; and where nothing is held every mask is zero and no modifier
/// is active.
pub proof fn law_masks_go_each_in_its_place(
    depressed: u32,
    latched: u32,
    locked: u32,
    group: u32,
    held: SerializedMods,
)
    ensures
        ({
            let mask = modifiers::mask_of(depressed, latched, locked, group);
            &&& mask.depressed_mods == depressed
            &&& mask.latched_mods == latched
            &&& mask.locked_mods == locked
            &&& mask.locked_layout == group
            &&& mask.depressed_layout == 0
            &&& mask.latched_layout == 0
        }),
        held.spec_mask() == modifiers::mask_of(
            held.depressed,
            held.latched,
            held.locked,
            held.layout_effective,
        ),
        ({
            let none = modifiers::no_mods();
            &&& !none.ctrl && !none.alt && !none.shift && !none.caps_lock && !none.logo
            &&& !none.num_lock && !none.iso_level3_shift && !none.iso_level5_shift
            &&& none.serialized.depressed == 0 && none.serialized.latched == 0
            &&& none.serialized.locked == 0 && none.serialized.layout_effective == 0
        }),
{
}

/// A `key` or `modifiers` request is a protocol error exactly where its keyboard has
/// no keymap. A press then asks for the sym eight above its evdev code, any other
/// value for none, and modifiers for the mask they carry.
pub proof fn law_requests_need_a_keymap(
    b: BindingsView,
    id: KeyboardId,
    request: KeyboardRequest,
    action: RequestAction,
)
    requires
        dispatch::request_asks_for(b, id, request, action),
    ensures
        action is NoKeymap <==> (request is Key || request is Modifiers) && !(
        b.keyboards.contains_key(id) && b.keyboards[id].keymap is Some),
        action matches RequestAction::NoKeymap { message } ==> message@ == (if request is Key {
            "`key` sent before keymap."@
        } else {
            "`modifiers` sent before keymap."@
        }),
        request matches KeyboardRequest::Key { key, state, .. } ==> (action !is NoKeymap ==> {
            &&& action matches RequestAction::Key { keycode }
            &&& keycode is Some <==> state == 1
            &&& keycode matches Some(code) ==> (key <= u32::MAX - 8 ==> code == key + 8)
        }),
        request matches KeyboardRequest::Modifiers { depressed, latched, locked, group } ==> (
        action !is NoKeymap ==> {
            &&& action matches RequestAction::ApplyMask { mask }
            &&& mask.depressed_mods == depressed && mask.latched_mods == latched
            &&& mask.locked_mods == locked && mask.locked_layout == group
            &&& mask.depressed_layout == 0 && mask.latched_layout == 0
        }),
        request is Keymap <==> action is Upload,
        request is Other <==> action == RequestAction::Nothing,
{
}

/// The upload a `keymap` request starts is that of the format and size it carries.
pub proof fn law_keymap_request_offers_what_it_carries(
    b: BindingsView,
    id: KeyboardId,
    format: u32,
    size: u32,
    action: RequestAction,
)
    requires
        dispatch::request_asks_for(b, id, KeyboardRequest::Keymap { format, size }, action),
    ensures
        action matches RequestAction::Upload(step) && {
            &&& format == 1 && size <= 8 * 1024 * 1024 <==> step is Read
            &&& step matches UploadAction::Read { size: asked } ==> asked == size
            &&& format != 1 <==> step == UploadAction::Refused(KeymapRefusal::UnsupportedFormat)
            &&& format == 1 && size > 8 * 1024 * 1024 <==> step == UploadAction::Refused(
                KeymapRefusal::TooLarge,
            )
        },
{
}

/// The focused client's `wl_keyboard`s and a text that was read are taken over as
/// they are.
pub proof fn law_what_is_reported_is_taken_as_it_is(
    focus: Option<Vec<WlKeyboardId>>,
    read: Option<String>,
)
    ensures
        focus is None <==> keys::focus_view(focus) is None,
        focus matches Some(keyboards) ==> keys::focus_view(focus) == Some(keyboards@),
        read is None <==> keymaps::read_text(read) is None,
        read matches Some(text) ==> keymaps::read_text(read) == Some(text@),
{
}

} // verus!
