//! What holds of virtual keyboards as a whole, across requests.
use vstd::prelude::*;

use crate::dispatch;
use crate::events::{ClientEvent, KeyState, SeatState};
use crate::handler;
use crate::handler::Keysym;
use crate::keymaps;
use crate::keymaps::PassView;
use crate::keys;
use crate::model;
use crate::model::{BindingsView, ForeignView, KeyboardId, WlKeyboardId, PRESSED};
use crate::modifiers::{ModifiersState, SerializedMods};
use crate::tracking;
use crate::tracking::{UploadAction, UploadEvent};
use crate::upload;

verus! {

proof fn lemma_record_of_push(foreign: Seq<ForeignView>, last: ForeignView, kbd: WlKeyboardId)
    ensures
        model::record_of(foreign.push(last), kbd) == (match model::record_of(foreign, kbd) {
            Some(text) => Some(text),
            None => if last.kbd == kbd {
                Some(last.text)
            } else {
                None
            },
        }),
    decreases foreign.len(),
{
    let all = foreign.push(last);
    if foreign.len() == 0 {
        assert(all.drop_first() =~= Seq::<ForeignView>::empty());
        assert(model::record_of(all.drop_first(), kbd) is None);
    } else {
        assert(all.drop_first() =~= foreign.drop_first().push(last));
        lemma_record_of_push(foreign.drop_first(), last, kbd);
    }
}

proof fn lemma_record_of_filter(
    foreign: Seq<ForeignView>,
    sent_to: WlKeyboardId,
    live: Seq<WlKeyboardId>,
    kbd: WlKeyboardId,
)
    requires
        live.contains(kbd),
    ensures
        model::record_of(
            foreign.filter(|r: ForeignView| model::survives(r, sent_to, live)),
            kbd,
        ) == (if kbd == sent_to {
            None
        } else {
            model::record_of(foreign, kbd)
        }),
    decreases foreign.len(),
{
    let p = |r: ForeignView| model::survives(r, sent_to, live);
    reveal(Seq::filter);
    if foreign.len() > 0 {
        let front = foreign.drop_last();
        let last = foreign.last();
        lemma_record_of_filter(front, sent_to, live, kbd);
        lemma_record_of_push(front, last, kbd);
        assert(foreign =~= front.push(last));
        if p(last) {
            lemma_record_of_push(front.filter(p), last, kbd);
        }
    }
}

/// What `kbd` holds once `sent_to` has been sent a keymap.
pub(crate) proof fn lemma_held_after_send(
    foreign: Seq<ForeignView>,
    sent_to: WlKeyboardId,
    text: Seq<char>,
    seat: Seq<char>,
    live: Seq<WlKeyboardId>,
    kbd: WlKeyboardId,
)
    requires
        live.contains(kbd),
    ensures
        model::held_text(
            model::after_send(foreign, sent_to, text, seat, live),
            kbd,
            seat,
            live,
        ) == (if kbd == sent_to {
            text
        } else {
            model::held_text(foreign, kbd, seat, live)
        }),
{
    lemma_record_of_filter(foreign, sent_to, live, kbd);
    let kept = foreign.filter(|r: ForeignView| model::survives(r, sent_to, live));
    lemma_record_of_push(kept, ForeignView { kbd: sent_to, text }, kbd);
}

/// A pass run to its end, where the `i`th `wl_keyboard` takes a keymap it is
/// sent if and only if `accepts[i]`.
pub open spec fn run(
    b: BindingsView,
    pass: PassView,
    accepts: Seq<bool>,
    live: Seq<WlKeyboardId>,
) -> (BindingsView, PassView)
    decreases pass.keyboards.len() - pass.next,
{
    if pass.next >= pass.keyboards.len() {
        (b, pass)
    } else {
        let kbd = pass.keyboards[pass.next];
        if b.owes_keymap(pass.id, kbd, live) && accepts[pass.next] {
            run(b.keymap_sent(pass.id, kbd, live), pass.advanced(true), accepts, live)
        } else {
            run(b, pass.advanced(false), accepts, live)
        }
    }
}

/// Whether every `wl_keyboard` a pass goes over lives.
pub open spec fn all_live(pass: PassView, live: Seq<WlKeyboardId>) -> bool {
    forall|i: int|
        0 <= i < pass.keyboards.len() ==> live.contains(#[trigger] pass.keyboards[i])
}

/// A pass changes nothing but the records, keeps them well formed, and ends
/// done; keymaps of `wl_keyboard`s it does not go over stay what they were.
pub proof fn law_pass_changes_only_its_records(
    b: BindingsView,
    pass: PassView,
    accepts: Seq<bool>,
    live: Seq<WlKeyboardId>,
    other: WlKeyboardId,
)
    requires
        b.wf(),
        pass.wf(),
    ensures
        ({
            let (after, end) = run(b, pass, accepts, live);
            &&& after.wf()
            &&& after == BindingsView { foreign: after.foreign, ..b }
            &&& end.done()
            &&& end == PassView { next: end.next, sent: end.sent, ..pass }
            &&& !end.sent ==> after == b
            &&& live.contains(other) && !pass.keyboards.contains(other)
                && b.seat_keymap is Some ==> model::held_text(
                after.foreign,
                other,
                b.seat_keymap->0,
                live,
            ) == model::held_text(b.foreign, other, b.seat_keymap->0, live)
        }),
    decreases pass.keyboards.len() - pass.next,
{
    if pass.next < pass.keyboards.len() {
        let kbd = pass.keyboards[pass.next];
        if b.owes_keymap(pass.id, kbd, live) && accepts[pass.next] {
            let text = b.keymap_of(pass.id)->0.text;
            let seat = b.seat_keymap->0;
            model::lemma_after_send_wf(b.foreign, kbd, text, seat, live);
            let next = b.keymap_sent(pass.id, kbd, live);
            law_pass_changes_only_its_records(next, pass.advanced(true), accepts, live, other);
            lemma_sent_stays(next, pass.advanced(true), accepts, live);
            if live.contains(other) && !pass.keyboards.contains(other) {
                lemma_held_after_send(b.foreign, kbd, text, seat, live, other);
            }
        } else {
            law_pass_changes_only_its_records(b, pass.advanced(false), accepts, live, other);
        }
    }
}

pub(crate) proof fn lemma_sent_stays(
    b: BindingsView,
    pass: PassView,
    accepts: Seq<bool>,
    live: Seq<WlKeyboardId>,
)
    requires
        pass.sent,
    ensures
        run(b, pass, accepts, live).1.sent,
    decreases pass.keyboards.len() - pass.next,
{
    if pass.next < pass.keyboards.len() {
        let kbd = pass.keyboards[pass.next];
        if b.owes_keymap(pass.id, kbd, live) && accepts[pass.next] {
            lemma_sent_stays(
                b.keymap_sent(pass.id, kbd, live),
                pass.advanced(true),
                accepts,
                live,
            );
        } else {
            lemma_sent_stays(b, pass.advanced(false), accepts, live);
        }
    }
}

/// Passing over `wl_keyboard`s that hold the keymap is part of the run: where a
/// pass is advanced past them, as `next_keymap_target` does, it runs to the same
/// end.
pub proof fn law_skipping_holders_is_running(
    b: BindingsView,
    pass: PassView,
    to: int,
    accepts: Seq<bool>,
    live: Seq<WlKeyboardId>,
)
    requires
        pass.wf(),
        pass.next <= to <= pass.keyboards.len(),
        forall|i: int|
            pass.next <= i < to ==> !b.owes_keymap(
                pass.id,
                #[trigger] pass.keyboards[i],
                live,
            ),
    ensures
        run(b, pass, accepts, live) == run(b, PassView { next: to, ..pass }, accepts, live),
    decreases to - pass.next,
{
    if pass.next < to {
        law_skipping_holders_is_running(b, pass.advanced(false), to, accepts, live);
        assert(PassView { next: to, ..pass.advanced(false) } =~= PassView { next: to, ..pass });
    } else {
        assert(PassView { next: to, ..pass } =~= pass);
    }
}

/// The answer to a send is part of the run too: a `wl_keyboard` that is owed the
/// keymap and takes it, as `keymap_sent` reports, or does not, as `keymap_failed`
/// reports, is what the run has at this place.
pub proof fn law_answered_send_is_running(
    b: BindingsView,
    pass: PassView,
    accepts: Seq<bool>,
    live: Seq<WlKeyboardId>,
)
    requires
        pass.wf(),
        !pass.done(),
        b.owes_keymap(pass.id, pass.keyboards[pass.next], live),
    ensures
        run(b, pass, accepts, live) == (if accepts[pass.next] {
            run(
                b.keymap_sent(pass.id, pass.keyboards[pass.next], live),
                pass.advanced(true),
                accepts,
                live,
            )
        } else {
            run(b, pass.advanced(false), accepts, live)
        }),
{
}

/// A keyboard that is not owed the keymap stays so while a pass runs on.
proof fn lemma_not_owed_stays(
    b: BindingsView,
    pass: PassView,
    accepts: Seq<bool>,
    live: Seq<WlKeyboardId>,
    kbd: WlKeyboardId,
)
    requires
        pass.wf(),
        live.contains(kbd),
        !b.owes_keymap(pass.id, kbd, live),
    ensures
        !run(b, pass, accepts, live).0.owes_keymap(pass.id, kbd, live),
    decreases pass.keyboards.len() - pass.next,
{
    if pass.next < pass.keyboards.len() {
        let target = pass.keyboards[pass.next];
        if b.owes_keymap(pass.id, target, live) && accepts[pass.next] {
            let text = b.keymap_of(pass.id)->0.text;
            lemma_held_after_send(b.foreign, target, text, b.seat_keymap->0, live, kbd);
            lemma_not_owed_stays(
                b.keymap_sent(pass.id, target, live),
                pass.advanced(true),
                accepts,
                live,
                kbd,
            );
        } else {
            lemma_not_owed_stays(b, pass.advanced(false), accepts, live, kbd);
        }
    }
}

/// A client sees the virtual keyboard's keymap before its keys: once a pass is
/// over, every `wl_keyboard` that takes what it is sent holds the keymap.
pub proof fn law_pass_reaches_every_taker(
    b: BindingsView,
    pass: PassView,
    accepts: Seq<bool>,
    live: Seq<WlKeyboardId>,
    i: int,
)
    requires
        b.seat_keymap is Some,
        pass.wf(),
        all_live(pass, live),
        pass.next <= i < pass.keyboards.len(),
        accepts[i],
    ensures
        !run(b, pass, accepts, live).0.owes_keymap(pass.id, pass.keyboards[i], live),
    decreases i - pass.next,
{
    let kbd = pass.keyboards[pass.next];
    assert(live.contains(kbd));
    let sends = b.owes_keymap(pass.id, kbd, live) && accepts[pass.next];
    let next = if sends {
        b.keymap_sent(pass.id, kbd, live)
    } else {
        b
    };
    if sends {
        let text = b.keymap_of(pass.id)->0.text;
        lemma_held_after_send(b.foreign, kbd, text, b.seat_keymap->0, live, kbd);
    }
    if i == pass.next {
        lemma_not_owed_stays(next, pass.advanced(sends), accepts, live, kbd);
    } else {
        law_pass_reaches_every_taker(next, pass.advanced(sends), accepts, live, i);
    }
}

/// A `wl_keyboard` that takes nothing it is sent ends a pass holding what it held,
/// and is owed the keymap just as it was.
pub proof fn law_pass_leaves_a_refuser_what_it_held(
    b: BindingsView,
    pass: PassView,
    accepts: Seq<bool>,
    live: Seq<WlKeyboardId>,
    kbd: WlKeyboardId,
)
    requires
        b.seat_keymap is Some,
        pass.wf(),
        live.contains(kbd),
        forall|i: int|
            pass.next <= i < pass.keyboards.len() && #[trigger] pass.keyboards[i] == kbd
                ==> !accepts[i],
    ensures
        ({
            let after = run(b, pass, accepts, live).0;
            let seat = b.seat_keymap->0;
            &&& model::held_text(after.foreign, kbd, seat, live) == model::held_text(
                b.foreign,
                kbd,
                seat,
                live,
            )
            &&& after.owes_keymap(pass.id, kbd, live) == b.owes_keymap(pass.id, kbd, live)
        }),
    decreases pass.keyboards.len() - pass.next,
{
    if pass.next < pass.keyboards.len() {
        let target = pass.keyboards[pass.next];
        if b.owes_keymap(pass.id, target, live) && accepts[pass.next] {
            let text = b.keymap_of(pass.id)->0.text;
            lemma_held_after_send(b.foreign, target, text, b.seat_keymap->0, live, kbd);
            law_pass_leaves_a_refuser_what_it_held(
                b.keymap_sent(pass.id, target, live),
                pass.advanced(true),
                accepts,
                live,
                kbd,
            );
        } else {
            law_pass_leaves_a_refuser_what_it_held(b, pass.advanced(false), accepts, live, kbd);
        }
    }
}

/// A second key does not re-send a keymap the client already holds: after a pass
/// every `wl_keyboard` took part in, another one sends nothing and changes
/// nothing.
pub proof fn law_second_pass_sends_nothing(
    b: BindingsView,
    pass: PassView,
    accepts: Seq<bool>,
    again: Seq<bool>,
    live: Seq<WlKeyboardId>,
)
    requires
        b.seat_keymap is Some,
        pass.next == 0,
        !pass.sent,
        all_live(pass, live),
        accepts.len() == pass.keyboards.len(),
        forall|i: int| 0 <= i < accepts.len() ==> accepts[i],
    ensures
        ({
            let (after, _) = run(b, pass, accepts, live);
            let (twice, end) = run(after, pass, again, live);
            twice == after && !end.sent
        }),
{
    let after = run(b, pass, accepts, live).0;
    assert forall|i: int| 0 <= i < pass.keyboards.len() implies !after.owes_keymap(
        pass.id,
        #[trigger] pass.keyboards[i],
        live,
    ) by {
        law_pass_reaches_every_taker(b, pass, accepts, live, i);
    }
    law_skipping_holders_is_running(after, pass, pass.keyboards.len() as int, again, live);
}

/// An on-screen keyboard that uploads the seat's own layout costs the client
/// nothing: where no record says otherwise, no keymap goes out, so neither do
/// modifiers, and the key is all the client sees.
pub proof fn law_own_layout_costs_nothing(
    b: BindingsView,
    pass: PassView,
    accepts: Seq<bool>,
    live: Seq<WlKeyboardId>,
)
    requires
        pass.next == 0,
        !pass.sent,
        b.keymap_of(pass.id) is Some,
        b.seat_keymap == Some(b.keymap_of(pass.id)->0.text),
        forall|i: int|
            0 <= i < pass.keyboards.len() ==> model::record_of(
                b.foreign,
                #[trigger] pass.keyboards[i],
            ) is None,
    ensures
        ({
            let (after, end) = run(b, pass, accepts, live);
            &&& after == b
            &&& keys::resync(after, end) == Seq::<ClientEvent>::empty()
            &&& keys::after_resync(after, end) == b
        }),
{
    law_skipping_holders_is_running(b, pass, pass.keyboards.len() as int, accepts, live);
}

/// A keymap change carries the modifiers with it: where a pass sent any keymap,
/// the keyboard's modifiers go out right after, and otherwise none do.
pub proof fn law_keymap_change_carries_modifiers(
    b: BindingsView,
    pass: PassView,
    accepts: Seq<bool>,
    live: Seq<WlKeyboardId>,
)
    requires
        pass.next == 0,
        !pass.sent,
    ensures
        ({
            let (after, end) = run(b, pass, accepts, live);
            keys::resync(after, end) == (if end.sent {
                seq![ClientEvent::Modifiers { mods: b.keymap_of(pass.id)->0.mods }]
            } else {
                Seq::<ClientEvent>::empty()
            })
        }),
{
    lemma_sent_means_keymap(b, pass, accepts, live);
}

proof fn lemma_sent_means_keymap(
    b: BindingsView,
    pass: PassView,
    accepts: Seq<bool>,
    live: Seq<WlKeyboardId>,
)
    requires
        pass.wf(),
    ensures
        ({
            let (after, end) = run(b, pass, accepts, live);
            &&& after.keymap_of(pass.id) == b.keymap_of(pass.id)
            &&& end.id == pass.id
            &&& end.sent && !pass.sent ==> b.keymap_of(pass.id) is Some
        }),
    decreases pass.keyboards.len() - pass.next,
{
    if pass.next < pass.keyboards.len() {
        let kbd = pass.keyboards[pass.next];
        if b.owes_keymap(pass.id, kbd, live) && accepts[pass.next] {
            lemma_sent_means_keymap(
                b.keymap_sent(pass.id, kbd, live),
                pass.advanced(true),
                accepts,
                live,
            );
        } else {
            lemma_sent_means_keymap(b, pass.advanced(false), accepts, live);
        }
    }
}

/// Whether what is recorded says rightly which keymap each live `wl_keyboard`
/// holds, where `clients` gives the keymap each one was last sent.
pub open spec fn records_true(
    b: BindingsView,
    clients: Map<WlKeyboardId, Seq<char>>,
    live: Seq<WlKeyboardId>,
) -> bool {
    &&& b.seat_keymap is Some
    &&& forall|kbd: WlKeyboardId| #[trigger]
        live.contains(kbd) ==> clients[kbd] == model::held_text(
            b.foreign,
            kbd,
            b.seat_keymap->0,
            live,
        )
}

/// Records are true from the first: before the seat's keymap is known every
/// client holds it, so reading it is all it takes.
pub proof fn law_records_start_true(
    b: BindingsView,
    text: Seq<char>,
    clients: Map<WlKeyboardId, Seq<char>>,
    live: Seq<WlKeyboardId>,
)
    requires
        b.wf(),
        b.seat_keymap is None,
        forall|kbd: WlKeyboardId| #[trigger] live.contains(kbd) ==> clients[kbd] == text,
    ensures
        records_true(b.with_seat_keymap(Some(text)), clients, live),
{
}

/// Records stay true through everything that sends no keymap.
pub proof fn law_records_stay_true_where_no_keymap_goes_out(
    b: BindingsView,
    op: Op,
    clients: Map<WlKeyboardId, Seq<char>>,
    live: Seq<WlKeyboardId>,
)
    requires
        records_true(b, clients, live),
        op !is KeymapSent,
        op !is SeatChanged,
        op !is Restore,
    ensures
        records_true(apply(b, op), clients, live),
{
}

/// Sending a keymap keeps the records true.
pub proof fn law_send_keeps_records_true(
    b: BindingsView,
    id: KeyboardId,
    kbd: WlKeyboardId,
    clients: Map<WlKeyboardId, Seq<char>>,
    live: Seq<WlKeyboardId>,
)
    requires
        records_true(b, clients, live),
        b.keymap_of(id) is Some,
    ensures
        records_true(
            b.keymap_sent(id, kbd, live),
            clients.insert(kbd, b.keymap_of(id)->0.text),
            live,
        ),
{
    let text = b.keymap_of(id)->0.text;
    let after = b.keymap_sent(id, kbd, live);
    let told = clients.insert(kbd, text);
    assert forall|k: WlKeyboardId| #[trigger] live.contains(k) implies told[k]
        == model::held_text(after.foreign, k, b.seat_keymap->0, live) by {
        lemma_held_after_send(b.foreign, kbd, text, b.seat_keymap->0, live, k);
    }
}

/// Records stay true of the `wl_keyboard`s that are left when some go.
pub proof fn law_records_outlive_keyboards(
    b: BindingsView,
    clients: Map<WlKeyboardId, Seq<char>>,
    live: Seq<WlKeyboardId>,
    left: Seq<WlKeyboardId>,
)
    requires
        records_true(b, clients, live),
        forall|kbd: WlKeyboardId| #[trigger] left.contains(kbd) ==> live.contains(kbd),
    ensures
        records_true(b, clients, left),
{
}

/// A `wl_keyboard` no record speaks of, sent the seat's keymap when it is bound,
/// keeps the records true.
pub proof fn law_records_true_of_new_keyboard(
    b: BindingsView,
    kbd: WlKeyboardId,
    clients: Map<WlKeyboardId, Seq<char>>,
    live: Seq<WlKeyboardId>,
)
    requires
        records_true(b, clients, live),
        !live.contains(kbd),
        model::record_of(b.foreign, kbd) is None,
    ensures
        records_true(b, clients.insert(kbd, b.seat_keymap->0), live.push(kbd)),
{
    let told = clients.insert(kbd, b.seat_keymap->0);
    let grown = live.push(kbd);
    assert forall|k: WlKeyboardId| #[trigger] grown.contains(k) implies told[k]
        == model::held_text(b.foreign, k, b.seat_keymap->0, grown) by {
        if k != kbd {
            let i = choose|i: int| 0 <= i < grown.len() && grown[i] == k;
            assert(live[i] == k);
            assert(live.contains(k));
        }
    }
}

/// The keymaps clients hold once the events have reached them, `seat` being the
/// seat's keymap.
pub open spec fn clients_after(
    clients: Map<WlKeyboardId, Seq<char>>,
    events: Seq<ClientEvent>,
    seat: Seq<char>,
) -> Map<WlKeyboardId, Seq<char>>
    decreases events.len(),
{
    if events.len() == 0 {
        clients
    } else {
        let before = clients_after(clients, events.drop_last(), seat);
        match events.last() {
            ClientEvent::SeatKeymap { kbd } => before.insert(kbd, seat),
            _ => before,
        }
    }
}

proof fn lemma_clients_after(
    clients: Map<WlKeyboardId, Seq<char>>,
    events: Seq<ClientEvent>,
    seat: Seq<char>,
    kbd: WlKeyboardId,
)
    ensures
        clients_after(clients, events, seat)[kbd] == (if events.contains(
            ClientEvent::SeatKeymap { kbd },
        ) {
            seat
        } else {
            clients[kbd]
        }),
    decreases events.len(),
{
    if events.len() > 0 {
        let front = events.drop_last();
        lemma_clients_after(clients, front, seat, kbd);
        let e = ClientEvent::SeatKeymap { kbd };
        if front.contains(e) {
            let i = choose|i: int| 0 <= i < front.len() && front[i] == e;
            assert(events[i] == e);
        }
        if events.last() == e {
            assert(events[events.len() - 1] == e);
        } else if events.contains(e) {
            let i = choose|i: int| 0 <= i < events.len() && events[i] == e;
            assert(front[i] == e);
        }
    }
}

proof fn lemma_restore_covers(
    foreign: Seq<ForeignView>,
    live: Seq<WlKeyboardId>,
    kbd: WlKeyboardId,
)
    requires
        live.contains(kbd),
        model::record_of(foreign, kbd) is Some,
    ensures
        keymaps::seat_keymap_events(foreign, live).contains(ClientEvent::SeatKeymap { kbd }),
    decreases foreign.len(),
{
    reveal(Seq::filter);
    let front = foreign.drop_last();
    let last = foreign.last();
    assert(foreign =~= front.push(last));
    lemma_record_of_push(front, last, kbd);
    let events = keymaps::seat_keymap_events(foreign, live);
    let e = ClientEvent::SeatKeymap { kbd };
    if model::record_of(front, kbd) is Some {
        lemma_restore_covers(front, live, kbd);
        let before = keymaps::seat_keymap_events(front, live);
        let i = choose|i: int| 0 <= i < before.len() && before[i] == e;
        assert(events[i] == e);
    } else {
        assert(events[events.len() - 1] == e);
    }
}

/// A physical key finds the seat's keymap restored: where every send of a
/// restore is taken, each live `wl_keyboard` then holds the seat's keymap, and
/// the records are true.
pub proof fn law_restore_puts_the_seat_keymap_back(
    b: BindingsView,
    seat: SeatState,
    clients: Map<WlKeyboardId, Seq<char>>,
    live: Seq<WlKeyboardId>,
)
    requires
        records_true(b, clients, live),
    ensures
        ({
            let events = keymaps::restore_events(b, Some(seat), live);
            let told = clients_after(clients, events, b.seat_keymap->0);
            let after = keymaps::after_restore(b, Some(seat));
            &&& records_true(after, told, live)
            &&& forall|kbd: WlKeyboardId| #[trigger]
                live.contains(kbd) ==> told[kbd] == b.seat_keymap->0
        }),
{
    let seat_text = b.seat_keymap->0;
    let events = keymaps::restore_events(b, Some(seat), live);
    let told = clients_after(clients, events, seat_text);
    assert forall|kbd: WlKeyboardId| #[trigger] live.contains(kbd) implies told[kbd]
        == seat_text by {
        lemma_clients_after(clients, events, seat_text, kbd);
        if model::record_of(b.foreign, kbd) is Some {
            lemma_restore_covers(b.foreign, live, kbd);
            let sends = keymaps::seat_keymap_events(b.foreign, live);
            let e = ClientEvent::SeatKeymap { kbd };
            let i = choose|i: int| 0 <= i < sends.len() && sends[i] == e;
            assert(events[i] == e);
        }
    }
}

/// A changed seat keymap goes out to every client; one that reads the same goes
/// out to none. Either way the records stay true.
pub proof fn law_seat_change_keeps_records_true(
    b: BindingsView,
    text: Seq<char>,
    clients: Map<WlKeyboardId, Seq<char>>,
    live: Seq<WlKeyboardId>,
)
    requires
        records_true(b, clients, live),
    ensures
        records_true(
            b.seat_changed(text),
            if b.seat_keymap == Some(text) {
                clients
            } else {
                Map::new(|kbd: WlKeyboardId| true, |kbd: WlKeyboardId| text)
            },
            live,
        ),
{
}

/// Restoring leaves nothing to restore: the next physical key costs the client
/// nothing.
pub proof fn law_restore_is_done_once(
    b: BindingsView,
    seat: SeatState,
    again: Option<SeatState>,
    live: Seq<WlKeyboardId>,
)
    ensures
        ({
            let after = keymaps::after_restore(b, Some(seat));
            &&& keymaps::restore_events(after, again, live) == Seq::<ClientEvent>::empty()
            &&& keymaps::after_restore(after, again) == after
            &&& keymaps::live_records(after.foreign, live).len() == 0
        }),
{
    reveal(Seq::filter);
}

/// The modifiers go back even when no keymap does: a virtual keymap that reads
/// the same as the seat's records nothing, while its modifiers reach the client
/// all the same.
pub proof fn law_modifiers_go_back_without_a_keymap(
    b: BindingsView,
    mods: ModifiersState,
    seat: SeatState,
    live: Seq<WlKeyboardId>,
)
    requires
        b.foreign.len() == 0,
        mods.serialized != seat.mods.serialized,
        seat.focused,
    ensures
        keymaps::restore_events(b.mods_told(mods, seat.mods.serialized), Some(seat), live)
            == seq![ClientEvent::Modifiers { mods: seat.mods }],
{
    reveal(Seq::filter);
    assert(keymaps::seat_keymap_events(b.foreign, live) =~= Seq::<ClientEvent>::empty());
    assert(Seq::<ClientEvent>::empty() + keymaps::seat_mods_events(seat)
        =~= keymaps::seat_mods_events(seat));
}

/// Whether the modifiers the focused client was last told are the seat's, unless
/// a restore of them is on record as owed.
pub open spec fn mods_accounted_for(
    b: BindingsView,
    told: SerializedMods,
    seat: SerializedMods,
) -> bool {
    b.virtual_mods_sent || told == seat
}

/// The modifiers the focused client was last told once the events have reached
/// it.
pub open spec fn told_after(told: SerializedMods, events: Seq<ClientEvent>) -> SerializedMods
    decreases events.len(),
{
    if events.len() == 0 {
        told
    } else {
        match events.last() {
            ClientEvent::Modifiers { mods } => mods.serialized,
            _ => told_after(told, events.drop_last()),
        }
    }
}

/// Telling the focused client a virtual keyboard's modifiers keeps them accounted
/// for.
pub proof fn law_told_modifiers_are_accounted_for(
    b: BindingsView,
    mods: ModifiersState,
    seat: SerializedMods,
)
    ensures
        mods_accounted_for(b.mods_told(mods, seat), mods.serialized, seat),
{
}

/// A physical key finds the seat's modifiers restored: whatever a virtual
/// keyboard told the focused client, after a restore the last modifiers it was
/// told are the seat's, and they are accounted for.
pub proof fn law_restore_puts_the_seat_modifiers_back(
    b: BindingsView,
    seat: SeatState,
    told: SerializedMods,
    live: Seq<WlKeyboardId>,
)
    requires
        seat.focused,
        mods_accounted_for(b, told, seat.mods.serialized),
    ensures
        ({
            let events = keymaps::restore_events(b, Some(seat), live);
            &&& told_after(told, events) == seat.mods.serialized
            &&& mods_accounted_for(
                keymaps::after_restore(b, Some(seat)),
                told_after(told, events),
                seat.mods.serialized,
            )
        }),
{
    let events = keymaps::restore_events(b, Some(seat), live);
    if b.restore_owed() {
        assert(events.last() == (ClientEvent::Modifiers { mods: seat.mods }));
    }
}

/// An input method that echoes the seat's own modifiers leaves nothing to
/// restore.
pub proof fn law_echoed_modifiers_owe_nothing(
    b: BindingsView,
    mods: ModifiersState,
    seat: SerializedMods,
)
    requires
        mods.serialized == seat,
    ensures
        b.mods_told(mods, seat) == b,
{
}

/// A combo the compositor consumes and one that reaches the client never
/// disagree: the modifiers sent along with a keymap are the ones that the
/// keyboard's presses are looked up under.
pub proof fn law_client_is_told_the_modifiers_looked_up(b: BindingsView, pass: PassView)
    requires
        pass.sent,
        b.looks_up(pass.id, PRESSED),
    ensures
        keys::resync(b, pass) == seq![
            ClientEvent::Modifiers { mods: b.keymap_of(pass.id)->0.mods },
        ],
{
}

/// A re-upload keeps what the keyboard holds: the mask for the new keymap's state
/// is the one of the modifiers in force, so that a state which reads back the mask
/// put on it leaves depressed, latched and locked modifiers and the layout as they
/// were; and neither the consumed presses nor the forwarded ones are forgotten.
pub proof fn law_reupload_keeps_what_is_held(
    b: BindingsView,
    id: KeyboardId,
    action: UploadAction,
    text: String,
    mods: ModifiersState,
)
    requires
        b.keymap_of(id) is Some,
        tracking::asks_for(b, id, UploadEvent::Compiled { ok: true }, action),
    ensures
        action == (UploadAction::ApplyMask {
            mask: b.keymap_of(id)->0.mods.serialized.spec_mask(),
        }),
        ({
            let after = tracking::after_upload(b, id, UploadEvent::Resolved { text, mods });
            &&& after.keymap_of(id) == Some(model::KeymapView { text: text@, mods })
            &&& action == (UploadAction::ApplyMask { mask: mods.serialized.spec_mask() })
                ==> after.keymap_of(id)->0.mods.serialized == b.keymap_of(id)->0.mods.serialized
            &&& after.keyboards[id].swallowed == b.keyboards[id].swallowed
            &&& after.keyboards[id].forwarded == b.keyboards[id].forwarded
        }),
{
}

/// An uploaded keymap is installed exactly when nothing stands against it: the
/// format is the xkb text format, the size is within the limit, the file could be
/// read, what precedes its first NUL is UTF-8, xkb compiled it, and the keyboard is
/// registered. The keyboard's keymap is then the compiled one.
pub proof fn law_upload_is_installed_exactly_when_nothing_stands_against_it(
    b: BindingsView,
    id: KeyboardId,
    format: u32,
    size: usize,
    bytes: Option<Vec<u8>>,
    ok: bool,
    text: String,
    mods: ModifiersState,
    actions: (UploadAction, UploadAction, UploadAction, UploadAction),
)
    requires
        tracking::asks_for(b, id, UploadEvent::Offered { format, size }, actions.0),
        tracking::asks_for(b, id, UploadEvent::Read { bytes }, actions.1),
        tracking::asks_for(b, id, UploadEvent::Compiled { ok }, actions.2),
        tracking::asks_for(b, id, UploadEvent::Resolved { text, mods }, actions.3),
    ensures
        ({
            let taken = {
                &&& format == upload::XKB_V1
                &&& size <= upload::MAX_KEYMAP_SIZE
                &&& bytes matches Some(read)
                &&& upload::uploaded_text(read@) is Some
                &&& ok
                &&& b.keyboards.contains_key(id)
            };
            let after = tracking::after_upload(b, id, UploadEvent::Resolved { text, mods });
            &&& taken <==> {
                &&& actions.0 == (UploadAction::Read { size })
                &&& actions.1 is Compile
                &&& actions.2 is ApplyMask
                &&& actions.3 is Installed
            }
            &&& !taken <==> {
                ||| actions.0 is Refused
                ||| actions.1 is Refused
                ||| actions.2 is Refused
                ||| actions.3 is Refused
            }
            &&& taken ==> after.keymap_of(id) == Some(model::KeymapView { text: text@, mods })
        }),
{
}

/// A refused keymap changes nothing.
pub proof fn law_refused_upload_changes_nothing(
    b: BindingsView,
    id: KeyboardId,
    event: UploadEvent,
    action: UploadAction,
)
    requires
        tracking::asks_for(b, id, event, action),
        action is Refused,
    ensures
        tracking::after_upload(b, id, event) == b,
{
}

/// Destroying a virtual keyboard frees its bookkeeping.
pub proof fn law_destroy_frees_the_keyboard(
    b: BindingsView,
    id: KeyboardId,
    seat: Option<SeatState>,
)
    requires
        b.wf(),
        b.keyboards.contains_key(id),
    ensures
        ({
            let after = keymaps::after_restore(dispatch::without_keyboard(b, id), seat);
            &&& !after.keyboards.contains_key(id)
            &&& after.keyboards.len() == b.keyboards.len() - 1
            &&& seat is Some ==> !after.restore_owed()
        }),
{
    assert(b.keyboards.remove(id).dom() =~= b.keyboards.dom().remove(id));
}

/// A departing keyboard leaves no key down: each key it left pressed is released
/// on each of the focused client's `wl_keyboard`s, and nothing else is sent.
pub proof fn law_departing_keyboard_releases_its_keys(
    events: Seq<ClientEvent>,
    keyboards: Seq<WlKeyboardId>,
    forwarded: Set<u32>,
    time: u32,
    event: ClientEvent,
)
    requires
        keys::releases(events, Some(keyboards), forwarded, time),
    ensures
        events.contains(event) <==> (event matches ClientEvent::Key { kbd, time: at, key, state }
            && keyboards.contains(kbd) && at == time && forwarded.contains(key) && state
            == KeyState::Released),
{
    let keys = choose|keys: Seq<u32>| #[trigger]
        keys::lists(keys, forwarded) && events == keys::release_events(keyboards, keys, time);
    lemma_release_events(keyboards, keys, time, event);
    match event {
        ClientEvent::Key { key, .. } => {
            assert(keys.to_set().contains(key) <==> keys.contains(key));
        },
        _ => {},
    }
}

proof fn lemma_release_events(
    keyboards: Seq<WlKeyboardId>,
    keys: Seq<u32>,
    time: u32,
    event: ClientEvent,
)
    ensures
        keys::release_events(keyboards, keys, time).contains(event) <==> (
        event matches ClientEvent::Key { kbd, time: at, key, state } && keyboards.contains(kbd)
            && at == time && keys.contains(key) && state == KeyState::Released),
    decreases keyboards.len(),
{
    if keyboards.len() > 0 {
        let front = keyboards.drop_last();
        let last = keyboards.last();
        lemma_release_events(front, keys, time, event);
        let head = keys::release_events(front, keys, time);
        let tail = keys.map_values(
            |key: u32| ClientEvent::Key { kbd: last, time, key, state: KeyState::Released },
        );
        let all = head + tail;
        assert(all.contains(event) <==> head.contains(event) || tail.contains(event)) by {
            if head.contains(event) {
                let i = choose|i: int| 0 <= i < head.len() && head[i] == event;
                assert(all[i] == event);
            }
            if tail.contains(event) {
                let i = choose|i: int| 0 <= i < tail.len() && tail[i] == event;
                assert(all[head.len() + i] == event);
            }
            if all.contains(event) {
                let i = choose|i: int| 0 <= i < all.len() && all[i] == event;
                if i < head.len() {
                    assert(head[i] == event);
                } else {
                    assert(tail[i - head.len()] == event);
                }
            }
        }
        match event {
            ClientEvent::Key { kbd, time: at, key, state } => {
                assert(keyboards.contains(kbd) <==> front.contains(kbd) || kbd == last) by {
                    if front.contains(kbd) {
                        let i = choose|i: int| 0 <= i < front.len() && front[i] == kbd;
                        assert(keyboards[i] == kbd);
                    }
                    assert(keyboards[keyboards.len() - 1] == last);
                    if keyboards.contains(kbd) && kbd != last {
                        let i = choose|i: int| 0 <= i < keyboards.len() && keyboards[i] == kbd;
                        assert(front[i] == kbd);
                    }
                }
                if kbd == last && at == time && keys.contains(key) && state
                    == KeyState::Released {
                    let i = choose|i: int| 0 <= i < keys.len() && keys[i] == key;
                    assert(tail[i] == event);
                }
                if tail.contains(event) {
                    let i = choose|i: int| 0 <= i < tail.len() && tail[i] == event;
                    assert(keys[i] == key);
                }
            },
            _ => {},
        }
    }
}

/// One thing that happens to the bindings.
pub enum Op {
    Create { id: KeyboardId },
    Destroy { id: KeyboardId },
    Keymap { id: KeyboardId, text: Seq<char>, mods: ModifiersState },
    Mods { id: KeyboardId, mods: ModifiersState },
    /// A binding consumed the press of `key`.
    Swallow { id: KeyboardId, key: u32 },
    /// The release of `key` was held against the consumed presses.
    Release { id: KeyboardId, key: u32 },
    /// The focused client was told of `key`.
    Forward { id: KeyboardId, key: u32, pressed: bool },
    KeymapSent { id: KeyboardId, kbd: WlKeyboardId, live: Seq<WlKeyboardId> },
    ModsTold { mods: ModifiersState, seat_mods: SerializedMods },
    SeatKeymap { read: Option<Seq<char>> },
    SeatChanged { text: Seq<char> },
    Restore { seat: Option<SeatState> },
}

/// The bindings after it.
pub open spec fn apply(b: BindingsView, op: Op) -> BindingsView {
    match op {
        Op::Create { id } => b.with_keyboard(id, model::new_keyboard()),
        Op::Destroy { id } => dispatch::without_keyboard(b, id),
        Op::Keymap { id, text, mods } => b.with_keymap(id, text, mods),
        Op::Mods { id, mods } => b.with_mods(id, mods),
        Op::Swallow { id, key } => b.swallow(id, key),
        Op::Release { id, key } => b.release(id, key),
        Op::Forward { id, key, pressed } => b.forward(id, key, pressed),
        Op::KeymapSent { id, kbd, live } => b.keymap_sent(id, kbd, live),
        Op::ModsTold { mods, seat_mods } => b.mods_told(mods, seat_mods),
        Op::SeatKeymap { read } => b.with_seat_keymap(read),
        Op::SeatChanged { text } => b.seat_changed(text),
        Op::Restore { seat } => keymaps::after_restore(b, seat),
    }
}

/// The bindings after several things in turn.
pub open spec fn apply_all(b: BindingsView, ops: Seq<Op>) -> BindingsView
    decreases ops.len(),
{
    if ops.len() == 0 {
        b
    } else {
        apply(apply_all(b, ops.drop_last()), ops.last())
    }
}

/// The virtual keyboard that it happens to, if it happens to one.
pub open spec fn names(op: Op) -> Option<KeyboardId> {
    match op {
        Op::Create { id } => Some(id),
        Op::Destroy { id } => Some(id),
        Op::Keymap { id, .. } => Some(id),
        Op::Mods { id, .. } => Some(id),
        Op::Swallow { id, .. } => Some(id),
        Op::Release { id, .. } => Some(id),
        Op::Forward { id, .. } => Some(id),
        _ => None,
    }
}

/// Everything that can happen keeps the bindings well formed, modifiers being
/// told only once the seat's keymap is known.
pub proof fn law_every_operation_keeps_the_invariant(b: BindingsView, op: Op)
    requires
        b.wf(),
        op is ModsTold ==> b.seat_keymap is Some,
    ensures
        apply(b, op).wf(),
{
    match op {
        Op::KeymapSent { id, kbd, live } => {
            if b.keymap_of(id) is Some && b.seat_keymap is Some {
                model::lemma_after_send_wf(
                    b.foreign,
                    kbd,
                    b.keymap_of(id)->0.text,
                    b.seat_keymap->0,
                    live,
                );
            }
        },
        _ => {},
    }
}

/// Virtual keyboards do not mix: what happens to one leaves every other one as
/// it was.
pub proof fn law_keyboards_do_not_mix(b: BindingsView, op: Op, other: KeyboardId)
    requires
        names(op) != Some(other),
    ensures
        apply(b, op).keyboards.contains_key(other) == b.keyboards.contains_key(other),
        b.keyboards.contains_key(other) ==> apply(b, op).keyboards[other] == b.keyboards[other],
{
}

/// The release paired with a consumed press is swallowed too: it stays owed
/// through everything but that release and the keyboard's own end or beginning,
/// a keymap re-upload among the rest.
pub proof fn law_swallow_stays_owed_until_the_release(
    b: BindingsView,
    id: KeyboardId,
    key: u32,
    ops: Seq<Op>,
    key_state: u32,
)
    requires
        b.keyboards.contains_key(id),
        key_state != PRESSED,
        forall|i: int|
            0 <= i < ops.len() ==> (#[trigger] ops[i]) != (Op::Release { id, key }) && ops[i] != (
            Op::Create { id }) && ops[i] != (Op::Destroy { id }),
    ensures
        apply_all(b.swallow(id, key), ops).owes_swallow(id, key, key_state),
        !apply_all(b.swallow(id, key), ops).release(id, key).owes_swallow(id, key, key_state),
    decreases ops.len(),
{
    if ops.len() > 0 {
        let front = ops.drop_last();
        assert forall|i: int| 0 <= i < front.len() implies (#[trigger] front[i]) != (Op::Release {
            id,
            key,
        }) && front[i] != (Op::Create { id }) && front[i] != (Op::Destroy { id }) by {
            assert(front[i] == ops[i]);
        }
        law_swallow_stays_owed_until_the_release(b, id, key, front, key_state);
        assert(ops[ops.len() - 1] == ops.last());
    }
}

/// A bound combo runs once and never reaches the client, neither its press nor the
/// paired release: the press is looked up exactly once, under the keyboard's own
/// modifiers, and consumed; the release that follows is not looked up and is
/// consumed too, whatever `between` the two happens to keymap, modifiers and other
/// keys. `before` and `later` are the lookups made up to the press and up to the
/// release.
pub proof fn law_bound_combo_never_reaches_the_client(
    b: BindingsView,
    answered: BindingsView,
    id: KeyboardId,
    key: u32,
    between: Seq<Op>,
    key_state: u32,
    sym: Keysym,
    before: Seq<(ModifiersState, Keysym)>,
    later: Seq<(ModifiersState, Keysym)>,
)
    requires
        b.looks_up(id, PRESSED),
        answered.keyboards.contains_key(id),
        key_state != PRESSED,
        forall|i: int|
            0 <= i < between.len() ==> (#[trigger] between[i]) != (Op::Release { id, key })
                && between[i] != (Op::Create { id }) && between[i] != (Op::Destroy { id }),
    ensures
        handler::consumes(b, true, id, key, PRESSED),
        handler::lookups_after(b, before, id, PRESSED, sym) == before.push(
            (b.keymap_of(id)->0.mods, sym),
        ),
        handler::lookups_after(
            apply_all(answered.swallow(id, key), between),
            later,
            id,
            key_state,
            sym,
        ) == later,
        handler::consumes(
            apply_all(answered.swallow(id, key), between),
            false,
            id,
            key,
            key_state,
        ),
{
    law_swallow_stays_owed_until_the_release(answered, id, key, between, key_state);
}

/// Only a consumed press makes a release owed a swallow: one that was not owed
/// does not come to be owed by anything else.
pub proof fn law_only_a_consumed_press_owes_a_swallow(
    b: BindingsView,
    id: KeyboardId,
    key: u32,
    op: Op,
    key_state: u32,
)
    requires
        !b.owes_swallow(id, key, key_state),
        op != (Op::Swallow { id, key }),
    ensures
        !apply(b, op).owes_swallow(id, key, key_state),
{
}

/// Whether the keyboard `id` left `key` pressed in the focused client: whether
/// the last thing the client was told of it, since the keyboard was made, is
/// that it is pressed.
pub open spec fn left_pressed(ops: Seq<Op>, id: KeyboardId, key: u32) -> bool
    decreases ops.len(),
{
    if ops.len() == 0 {
        false
    } else {
        match ops.last() {
            Op::Create { id: made } if made == id => false,
            Op::Destroy { id: gone } if gone == id => false,
            Op::Forward { id: from, key: told, pressed } if from == id && told == key => pressed
                && registered(ops.drop_last(), id),
            _ => left_pressed(ops.drop_last(), id, key),
        }
    }
}

/// Whether the keyboard `id` has been made and not destroyed since.
pub open spec fn registered(ops: Seq<Op>, id: KeyboardId) -> bool
    decreases ops.len(),
{
    if ops.len() == 0 {
        false
    } else {
        match ops.last() {
            Op::Create { id: made } if made == id => true,
            Op::Destroy { id: gone } if gone == id => false,
            _ => registered(ops.drop_last(), id),
        }
    }
}

/// What a departing keyboard releases is what it left pressed: in every state
/// that can be reached, the forwarded keys are those the client was last told are
/// pressed.
pub proof fn law_forwarded_keys_are_those_left_pressed(ops: Seq<Op>, id: KeyboardId, key: u32)
    ensures
        ({
            let b = apply_all(BindingsView::empty(), ops);
            &&& b.keyboards.contains_key(id) == registered(ops, id)
            &&& (registered(ops, id) && b.keyboards[id].forwarded.contains(key)) == left_pressed(
                ops,
                id,
                key,
            )
        }),
    decreases ops.len(),
{
    if ops.len() > 0 {
        law_forwarded_keys_are_those_left_pressed(ops.drop_last(), id, key);
    }
}

} // verus!
