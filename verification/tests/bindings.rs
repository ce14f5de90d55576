//! The bindings by their operations, on values chosen for their edges.
use std::collections::HashSet;

use virtual_keyboard::bindings::VirtualKeyboardBindings;
use virtual_keyboard::dispatch::{
    KeyboardRequest, ManagerRequest, RequestAction, VirtualKeyboardManagerUserData,
    VirtualKeyboardUserData,
};
use virtual_keyboard::events::{ClientEvent, KeyState, SeatState};
use virtual_keyboard::handler::{claim_key, handle_key, VirtualKeyboardBindingHandler};
use virtual_keyboard::keymaps::{restore_seat_keymap, seat_keymap_changed, KeymapPass};
use virtual_keyboard::keys::release_forwarded;
use virtual_keyboard::modifiers::{ModifiersState, SerializedMods, XkbMask};
use virtual_keyboard::tracking::{UploadAction, UploadEvent};
use virtual_keyboard::upload::{check_offer, keymap_text, KeymapRefusal, MAX_KEYMAP_SIZE, XKB_V1};

const ONE: u64 = 100;
const TWO: u64 = 200;

fn mods(depressed: u32) -> ModifiersState {
    ModifiersState {
        serialized: SerializedMods { depressed, latched: 0, locked: 0, layout_effective: 0 },
        ..ModifiersState::default()
    }
}

fn seat(depressed: u32) -> Option<SeatState> {
    Some(SeatState { mods: mods(depressed), focused: true })
}

/// Bindings with the keyboard `ONE`, whose keymap reads `text` and whose
/// modifiers are `depressed`.
fn typing(text: &str, depressed: u32) -> VirtualKeyboardBindings {
    let mut b = VirtualKeyboardBindings::new();
    add(&mut b, ONE, text, depressed);
    b
}

fn add(b: &mut VirtualKeyboardBindings, id: u64, text: &str, depressed: u32) {
    b.create_keyboard(id);
    let done = b.track_keymap(
        id,
        UploadEvent::Resolved { text: text.to_string(), mods: mods(depressed) },
    );
    assert_eq!(done, UploadAction::Installed);
}

/// Runs a pass over `focus` to its end, where the seat reads `us` and `refusing`
/// takes no keymap: the pass, and whom the keymap was sent to.
fn pass(
    b: &mut VirtualKeyboardBindings,
    id: u64,
    focus: &[u64],
    live: &[u64],
    refusing: Option<u64>,
) -> (KeymapPass, Vec<u64>) {
    let live = live.to_vec();
    let read = if b.knows_seat_keymap() { None } else { Some("us".to_string()) };
    let mut pass = b
        .begin_delivery(id, Some(focus.to_vec()), mods(0).serialized, read)
        .expect("a focused client starts a delivery");
    let mut sent = Vec::new();
    while let Some(kbd) = b.next_keymap_target(&mut pass, &live) {
        if refusing == Some(kbd) {
            pass.keymap_failed();
        } else {
            b.keymap_sent(&mut pass, &live);
            sent.push(kbd);
        }
    }
    (pass, sent)
}

/// A compositor that binds one sym under one mask.
#[derive(Default)]
struct Compositor {
    bindings: VirtualKeyboardBindings,
    bound: Option<(u32, u32)>,
    looked_up: Vec<(u32, u32)>,
}

impl VirtualKeyboardBindingHandler for Compositor {
    fn virtual_keyboard_bindings(&mut self) -> &mut VirtualKeyboardBindings {
        &mut self.bindings
    }

    fn virtual_key_binding(&mut self, modifiers: &ModifiersState, sym: u32) -> bool {
        let combo = (modifiers.serialized.depressed, sym);
        self.looked_up.push(combo);
        self.bound == Some(combo)
    }
}

fn press(b: VirtualKeyboardBindings, id: u64, key: u32) -> (Compositor, virtual_keyboard::handler::UnclaimedKey) {
    let mut c = Compositor { bindings: b, bound: None, looked_up: Vec::new() };
    let event = claim_key(&mut c, id, key, 1, 7).expect("nothing is bound");
    (c, event)
}

#[test]
fn a_keymap_of_another_format_is_refused_first() {
    assert_eq!(XKB_V1, 1);
    assert_eq!(check_offer(0, MAX_KEYMAP_SIZE + 1), Err(KeymapRefusal::UnsupportedFormat));
    assert_eq!(check_offer(2, 10), Err(KeymapRefusal::UnsupportedFormat));
}

#[test]
fn the_size_limit_is_eight_mebibytes() {
    assert_eq!(check_offer(1, 8 * 1024 * 1024), Ok(()));
    assert_eq!(check_offer(1, 8 * 1024 * 1024 + 1), Err(KeymapRefusal::TooLarge));
    assert_eq!(check_offer(1, 0), Ok(()));
}

#[test]
fn keymap_text_ends_at_the_first_nul() {
    assert_eq!(keymap_text(&b"abc\0def\0".to_vec()), Some("abc".to_string()));
    assert_eq!(keymap_text(&b"abc".to_vec()), Some("abc".to_string()));
    assert_eq!(keymap_text(&b"\0abc".to_vec()), Some(String::new()));
    assert_eq!(keymap_text(&Vec::new()), Some(String::new()));
    assert_eq!(keymap_text(&"Ä€\0".as_bytes().to_vec()), Some("Ä€".to_string()));
}

#[test]
fn keymap_text_must_be_utf8_up_to_the_nul() {
    assert_eq!(keymap_text(&vec![b'a', 0xff]), None);
    assert_eq!(keymap_text(&vec![0xc3]), None);
    assert_eq!(keymap_text(&vec![b'a', 0, 0xff]), Some("a".to_string()));
}

#[test]
fn an_upload_goes_from_offer_to_installed() {
    let mut b = VirtualKeyboardBindings::new();
    b.create_keyboard(ONE);
    assert!(!b.has_keymap(ONE));
    assert_eq!(
        b.track_keymap(ONE, UploadEvent::Offered { format: 1, size: 3 }),
        UploadAction::Read { size: 3 }
    );
    assert_eq!(
        b.track_keymap(ONE, UploadEvent::Read { bytes: Some(b"de\0".to_vec()) }),
        UploadAction::Compile { text: "de".to_string() }
    );
    assert_eq!(
        b.track_keymap(ONE, UploadEvent::Compiled { ok: true }),
        UploadAction::ApplyMask { mask: XkbMask::new(0, 0, 0, 0) }
    );
    assert!(!b.has_keymap(ONE), "only the end of an upload changes anything");
    let last = UploadEvent::Resolved { text: "de".to_string(), mods: mods(4) };
    assert_eq!(b.track_keymap(ONE, last), UploadAction::Installed);
    assert!(b.has_keymap(ONE));
    assert_eq!(b.mods(ONE), Some(mods(4)));
}

#[test]
fn a_refused_upload_changes_nothing() {
    let mut b = typing("de", 4);
    let refused = [
        (UploadEvent::Offered { format: 0, size: 3 }, KeymapRefusal::UnsupportedFormat),
        (UploadEvent::Offered { format: 1, size: MAX_KEYMAP_SIZE + 1 }, KeymapRefusal::TooLarge),
        (UploadEvent::Read { bytes: None }, KeymapRefusal::Unreadable),
        (UploadEvent::Read { bytes: Some(vec![0xff]) }, KeymapRefusal::NotUtf8),
        (UploadEvent::Compiled { ok: false }, KeymapRefusal::NotCompiled),
    ];
    for (event, refusal) in refused {
        assert_eq!(b.track_keymap(ONE, event), UploadAction::Refused(refusal));
        assert_eq!(b.mods(ONE), Some(mods(4)));
    }
    assert_eq!(pass(&mut b, ONE, &[1], &[1], None).1, vec![1], "the keymap still reads `de`");
}

#[test]
fn an_upload_to_an_unknown_keyboard_is_refused() {
    let mut b = VirtualKeyboardBindings::new();
    assert_eq!(
        b.track_keymap(ONE, UploadEvent::Compiled { ok: true }),
        UploadAction::Refused(KeymapRefusal::UnknownKeyboard)
    );
    assert_eq!(
        b.track_keymap(ONE, UploadEvent::Resolved { text: "de".to_string(), mods: mods(0) }),
        UploadAction::Refused(KeymapRefusal::UnknownKeyboard)
    );
    assert_eq!(b.keyboard_count(), 0);
}

#[test]
fn a_reupload_carries_the_mask_over_with_the_layout_locked() {
    let mut b = VirtualKeyboardBindings::new();
    add(&mut b, ONE, "us", 0);
    let held = ModifiersState {
        shift: true,
        serialized: SerializedMods { depressed: 1, latched: 2, locked: 3, layout_effective: 4 },
        ..ModifiersState::default()
    };
    b.track_modifiers(ONE, held);
    assert_eq!(b.mods(ONE), Some(held));
    assert_eq!(
        b.track_keymap(ONE, UploadEvent::Compiled { ok: true }),
        UploadAction::ApplyMask {
            mask: XkbMask {
                depressed_mods: 1,
                latched_mods: 2,
                locked_mods: 3,
                depressed_layout: 0,
                latched_layout: 0,
                locked_layout: 4,
            }
        }
    );
}

#[test]
fn modifiers_of_a_keyboard_without_a_keymap_are_dropped() {
    let mut b = VirtualKeyboardBindings::new();
    b.track_modifiers(ONE, mods(4));
    b.create_keyboard(ONE);
    b.track_modifiers(ONE, mods(4));
    assert_eq!(b.mods(ONE), None);
}

#[test]
fn requests_before_a_keymap_are_protocol_errors() {
    let mut b = VirtualKeyboardBindings::new();
    b.create_keyboard(ONE);
    let vk = VirtualKeyboardUserData { id: ONE };
    assert_eq!(
        vk.request(&mut b, KeyboardRequest::Key { time: 1, key: 30, state: 1 }),
        RequestAction::NoKeymap { message: "`key` sent before keymap." }
    );
    assert_eq!(
        vk.request(
            &mut b,
            KeyboardRequest::Modifiers { depressed: 1, latched: 0, locked: 0, group: 0 }
        ),
        RequestAction::NoKeymap { message: "`modifiers` sent before keymap." }
    );
    assert_eq!(vk.request(&mut b, KeyboardRequest::Other), RequestAction::Nothing);
}

#[test]
fn requests_ask_for_what_they_carry() {
    let mut b = typing("de", 0);
    let vk = VirtualKeyboardUserData { id: ONE };
    assert_eq!(
        vk.request(&mut b, KeyboardRequest::Keymap { format: 1, size: 12 }),
        RequestAction::Upload(UploadAction::Read { size: 12 })
    );
    assert_eq!(
        vk.request(&mut b, KeyboardRequest::Keymap { format: 1, size: u32::MAX }),
        RequestAction::Upload(UploadAction::Refused(KeymapRefusal::TooLarge))
    );
    assert_eq!(
        vk.request(&mut b, KeyboardRequest::Key { time: 1, key: 30, state: 1 }),
        RequestAction::Key { keycode: Some(38) }
    );
    assert_eq!(
        vk.request(&mut b, KeyboardRequest::Key { time: 1, key: 30, state: 0 }),
        RequestAction::Key { keycode: None }
    );
    assert_eq!(
        vk.request(
            &mut b,
            KeyboardRequest::Modifiers { depressed: 1, latched: 2, locked: 3, group: 4 }
        ),
        RequestAction::ApplyMask { mask: XkbMask::new(1, 2, 3, 4) }
    );
}

#[test]
fn the_manager_registers_and_ignores_the_rest() {
    let mut b = VirtualKeyboardBindings::default();
    VirtualKeyboardManagerUserData.request(&mut b, ManagerRequest::Other);
    assert_eq!(b.keyboard_count(), 0);
    VirtualKeyboardManagerUserData
        .request(&mut b, ManagerRequest::CreateVirtualKeyboard { id: ONE });
    VirtualKeyboardManagerUserData
        .request(&mut b, ManagerRequest::CreateVirtualKeyboard { id: TWO });
    assert_eq!(b.keyboard_count(), 2);
}

#[test]
fn a_keycode_is_looked_up_eight_above_the_evdev_code() {
    let b = typing("de", 0);
    assert_eq!(b.lookup_keycode(ONE, 0, 1), Some(8));
    assert_eq!(b.lookup_keycode(ONE, u32::MAX - 8, 1), Some(u32::MAX));
    assert_eq!(b.lookup_keycode(ONE, 30, 2), None, "only one wire value is a press");
    assert_eq!(b.lookup_keycode(TWO, 30, 1), None);
}

#[test]
fn a_bound_press_and_its_release_are_consumed_once() {
    let mut c = Compositor {
        bindings: typing("de", 4),
        bound: Some((4, 7)),
        looked_up: Vec::new(),
    };
    assert!(handle_key(&mut c, ONE, 30, 1, 7));
    assert_eq!(c.looked_up, vec![(4, 7)], "under the keyboard's own modifiers");
    assert!(handle_key(&mut c, ONE, 30, 0, 0));
    assert!(!handle_key(&mut c, ONE, 30, 0, 0), "a second release is owed nothing");
    assert_eq!(c.looked_up.len(), 1, "a release is not looked up");
}

#[test]
fn an_unbound_press_is_left_for_delivery_and_owes_nothing() {
    let mut c = Compositor {
        bindings: typing("de", 4),
        bound: Some((0, 7)),
        looked_up: Vec::new(),
    };
    let event = claim_key(&mut c, ONE, 30, 1, 7).expect("the mask does not match");
    assert_eq!((event.id(), event.key(), event.key_state()), (ONE, 30, 1));
    assert!(!handle_key(&mut c, ONE, 30, 0, 0));
}

#[test]
fn a_swallow_outlasts_a_reupload_and_other_keys() {
    let mut c = Compositor {
        bindings: typing("de", 4),
        bound: Some((4, 7)),
        looked_up: Vec::new(),
    };
    assert!(claim_key(&mut c, ONE, 30, 1, 7).is_none());
    c.bindings.track_keymap(
        ONE,
        UploadEvent::Resolved { text: "fr".to_string(), mods: mods(0) },
    );
    assert!(claim_key(&mut c, ONE, 31, 0, 0).is_some(), "another key owes nothing");
    assert!(claim_key(&mut c, ONE, 30, 2, 0).is_none(), "every other value is a release");
}

#[test]
fn a_press_without_a_keymap_is_not_looked_up() {
    let mut c = Compositor::default();
    assert!(!handle_key(&mut c, ONE, 30, 1, 7));
    c.bindings.create_keyboard(ONE);
    assert!(!handle_key(&mut c, ONE, 30, 1, 7));
    assert!(c.looked_up.is_empty());
}

#[test]
fn virtual_keyboards_do_not_mix() {
    let mut b = typing("de", 4);
    add(&mut b, TWO, "fr", 1);
    let mut c = Compositor { bindings: b, bound: Some((4, 7)), looked_up: Vec::new() };
    assert!(handle_key(&mut c, ONE, 30, 1, 7));
    assert!(!handle_key(&mut c, TWO, 30, 1, 7));
    assert!(!handle_key(&mut c, TWO, 30, 0, 0));
    assert!(handle_key(&mut c, ONE, 30, 0, 0));
    assert_eq!(c.bindings.mods(TWO), Some(mods(1)));
}

#[test]
fn a_pass_reaches_every_keyboard_once() {
    let mut b = typing("de", 0);
    let (first, sent) = pass(&mut b, ONE, &[1, 2, 1], &[1, 2], None);
    assert_eq!(sent, vec![1, 2]);
    assert!(first.any_sent());
    assert_eq!(b.held_keymap_count(&vec![1, 2]), 2);
    let (again, sent) = pass(&mut b, ONE, &[1, 2, 1], &[1, 2], None);
    assert_eq!(sent, Vec::<u64>::new());
    assert!(!again.any_sent());
}

#[test]
fn a_keyboard_that_takes_no_keymap_keeps_the_one_it_holds() {
    let mut b = typing("de", 0);
    let (first, sent) = pass(&mut b, ONE, &[1, 2], &[1, 2], Some(1));
    assert_eq!(sent, vec![2]);
    assert!(first.any_sent());
    assert_eq!(b.held_keymap_count(&vec![1, 2]), 1);
    assert_eq!(pass(&mut b, ONE, &[1, 2], &[1, 2], None).1, vec![1], "it is still owed one");
}

#[test]
fn where_no_keymap_is_taken_no_modifiers_follow() {
    let (mut c, event) = press(typing("de", 4), ONE, 30);
    let (p, sent) = pass(&mut c.bindings, ONE, &[1], &[1], Some(1));
    assert!(sent.is_empty());
    assert_eq!(
        c.bindings.deliver_key(p, event, 5),
        vec![ClientEvent::Key { kbd: 1, time: 5, key: 30, state: KeyState::Pressed }]
    );
    assert!(restore_seat_keymap(&mut c.bindings, seat(0), &vec![1]).is_empty());
}

#[test]
fn the_seats_own_layout_is_sent_only_over_another_one() {
    let mut b = typing("us", 0);
    add(&mut b, TWO, "de", 0);
    assert_eq!(pass(&mut b, ONE, &[1], &[1], None).1, Vec::<u64>::new());
    assert_eq!(pass(&mut b, TWO, &[1], &[1], None).1, vec![1]);
    assert_eq!(b.held_keymap_count(&vec![1]), 1);
    assert_eq!(pass(&mut b, ONE, &[1], &[1], None).1, vec![1]);
    assert_eq!(b.held_keymap_count(&vec![1]), 0, "nothing is left to restore");
}

#[test]
fn a_second_layout_replaces_the_record_of_the_first() {
    let mut b = typing("de", 0);
    add(&mut b, TWO, "fr", 0);
    pass(&mut b, ONE, &[1], &[1], None);
    assert_eq!(pass(&mut b, TWO, &[1], &[1], None).1, vec![1]);
    assert_eq!(b.held_keymap_count(&vec![1]), 1);
    assert_eq!(
        restore_seat_keymap(&mut b, seat(0), &vec![1]),
        vec![ClientEvent::SeatKeymap { kbd: 1 }, ClientEvent::Modifiers { mods: mods(0) }]
    );
}

#[test]
fn records_of_keyboards_that_are_gone_are_neither_counted_nor_restored() {
    let mut b = typing("de", 0);
    pass(&mut b, ONE, &[1, 2], &[1, 2], None);
    assert_eq!(b.held_keymap_count(&vec![2]), 1);
    assert_eq!(b.held_keymap_count(&Vec::new()), 0);
    assert_eq!(
        restore_seat_keymap(&mut b, seat(0), &vec![2]),
        vec![ClientEvent::SeatKeymap { kbd: 2 }, ClientEvent::Modifiers { mods: mods(0) }]
    );
}

#[test]
fn a_send_drops_the_records_of_keyboards_that_are_gone() {
    let mut b = typing("de", 0);
    pass(&mut b, ONE, &[1], &[1], None);
    pass(&mut b, ONE, &[2], &[2], None);
    assert_eq!(b.held_keymap_count(&vec![1, 2]), 1, "the record of 1 went with the send to 2");
}

#[test]
fn without_focus_nothing_is_delivered_or_recorded() {
    let mut b = typing("de", 0);
    assert!(b.begin_delivery(ONE, None, mods(0).serialized, None).is_none());
    assert!(!b.knows_seat_keymap());
}

#[test]
fn a_seat_keymap_on_record_is_not_replaced_by_a_later_reading() {
    let mut b = VirtualKeyboardBindings::new();
    assert_eq!(b.seat_keymap(None), None);
    assert_eq!(b.seat_keymap(Some("us".to_string())), Some(&"us".to_string()));
    assert_eq!(b.seat_keymap(Some("de".to_string())), Some(&"us".to_string()));
}

#[test]
fn a_key_goes_to_every_keyboard_after_keymap_and_modifiers() {
    let (mut c, event) = press(typing("de", 4), ONE, 30);
    let (p, sent) = pass(&mut c.bindings, ONE, &[1, 2], &[1, 2], None);
    assert_eq!(sent, vec![1, 2]);
    assert_eq!(
        c.bindings.deliver_key(p, event, 5),
        vec![
            ClientEvent::Modifiers { mods: mods(4) },
            ClientEvent::Key { kbd: 1, time: 5, key: 30, state: KeyState::Pressed },
            ClientEvent::Key { kbd: 2, time: 5, key: 30, state: KeyState::Pressed },
        ]
    );
}

#[test]
fn a_wire_value_that_is_no_press_is_delivered_as_a_release() {
    let mut c = Compositor { bindings: typing("us", 0), bound: None, looked_up: Vec::new() };
    let event = claim_key(&mut c, ONE, 30, 2, 0).expect("nothing is owed");
    let (p, _) = pass(&mut c.bindings, ONE, &[1], &[1], None);
    assert_eq!(
        c.bindings.deliver_key(p, event, 5),
        vec![ClientEvent::Key { kbd: 1, time: 5, key: 30, state: KeyState::Released }]
    );
}

#[test]
fn modifiers_go_out_once_with_or_without_a_keymap() {
    let mut b = typing("de", 4);
    let (p, sent) = pass(&mut b, ONE, &[1], &[1], None);
    assert_eq!(sent, vec![1]);
    assert_eq!(b.deliver_modifiers(p), vec![ClientEvent::Modifiers { mods: mods(4) }]);
    let (p, sent) = pass(&mut b, ONE, &[1], &[1], None);
    assert!(sent.is_empty());
    assert_eq!(b.deliver_modifiers(p), vec![ClientEvent::Modifiers { mods: mods(4) }]);
}

#[test]
fn modifiers_of_a_keyboard_without_a_keymap_are_not_delivered() {
    let mut b = VirtualKeyboardBindings::new();
    b.create_keyboard(ONE);
    let (p, sent) = pass(&mut b, ONE, &[1], &[1], None);
    assert!(sent.is_empty());
    assert!(b.deliver_modifiers(p).is_empty());
    assert!(b.knows_seat_keymap());
}

#[test]
fn modifiers_are_restored_even_when_no_keymap_is() {
    let mut b = typing("us", 4);
    let (p, sent) = pass(&mut b, ONE, &[1], &[1], None);
    assert!(sent.is_empty());
    b.deliver_modifiers(p);
    assert_eq!(
        restore_seat_keymap(&mut b, seat(0), &vec![1]),
        vec![ClientEvent::Modifiers { mods: mods(0) }]
    );
}

#[test]
fn echoed_modifiers_leave_nothing_to_restore() {
    let mut b = typing("us", 0);
    let (p, _) = pass(&mut b, ONE, &[1], &[1], None);
    assert_eq!(b.deliver_modifiers(p), vec![ClientEvent::Modifiers { mods: mods(0) }]);
    assert!(restore_seat_keymap(&mut b, seat(0), &vec![1]).is_empty());
}

#[test]
fn a_restore_is_done_once() {
    let mut b = typing("de", 4);
    let (p, _) = pass(&mut b, ONE, &[1], &[1], None);
    b.deliver_modifiers(p);
    assert_eq!(
        restore_seat_keymap(&mut b, seat(2), &vec![1]),
        vec![ClientEvent::SeatKeymap { kbd: 1 }, ClientEvent::Modifiers { mods: mods(2) }]
    );
    assert!(restore_seat_keymap(&mut b, seat(2), &vec![1]).is_empty());
    assert_eq!(b.held_keymap_count(&vec![1]), 0);
}

#[test]
fn a_restore_without_a_seat_keyboard_stays_owed() {
    let mut b = typing("de", 0);
    pass(&mut b, ONE, &[1], &[1], None);
    assert!(restore_seat_keymap(&mut b, None, &vec![1]).is_empty());
    assert_eq!(b.held_keymap_count(&vec![1]), 1);
}

#[test]
fn a_restore_without_focus_sends_keymaps_alone() {
    let mut b = typing("de", 0);
    pass(&mut b, ONE, &[1], &[1], None);
    let unfocused = Some(SeatState { mods: mods(0), focused: false });
    assert_eq!(
        restore_seat_keymap(&mut b, unfocused, &vec![1]),
        vec![ClientEvent::SeatKeymap { kbd: 1 }]
    );
}

#[test]
fn a_changed_seat_keymap_drops_the_records() {
    let mut b = typing("de", 0);
    seat_keymap_changed(&mut b, Some("fr".to_string()));
    assert!(!b.knows_seat_keymap(), "a keymap nobody asked for stays unread");
    pass(&mut b, ONE, &[1], &[1], None);
    seat_keymap_changed(&mut b, Some("us".to_string()));
    assert_eq!(b.held_keymap_count(&vec![1]), 1, "one that reads the same reaches nobody");
    seat_keymap_changed(&mut b, Some("de".to_string()));
    assert_eq!(b.held_keymap_count(&vec![1]), 0);
    assert_eq!(pass(&mut b, ONE, &[1], &[1], None).1, Vec::<u64>::new());
}

#[test]
fn a_departing_keyboard_lifts_its_keys_and_restores_the_seat() {
    let (mut c, event) = press(typing("de", 0), ONE, 30);
    let (p, _) = pass(&mut c.bindings, ONE, &[1, 2], &[1, 2], None);
    c.bindings.deliver_key(p, event, 5);
    let vk = VirtualKeyboardUserData { id: ONE };
    let events = vk.destroyed(&mut c.bindings, &Some(vec![1, 2]), 9, seat(0), &vec![1, 2]);
    assert_eq!(
        events,
        vec![
            ClientEvent::Key { kbd: 1, time: 9, key: 30, state: KeyState::Released },
            ClientEvent::Key { kbd: 2, time: 9, key: 30, state: KeyState::Released },
            ClientEvent::SeatKeymap { kbd: 1 },
            ClientEvent::SeatKeymap { kbd: 2 },
            ClientEvent::Modifiers { mods: mods(0) },
        ]
    );
    assert_eq!(c.bindings.keyboard_count(), 0);
    let again = vk.destroyed(&mut c.bindings, &Some(vec![1, 2]), 9, seat(0), &vec![1, 2]);
    assert!(again.is_empty(), "an unknown keyboard has nothing to leave");
}

#[test]
fn a_released_key_is_not_lifted_again() {
    let (mut c, down) = press(typing("us", 0), ONE, 30);
    let (p, _) = pass(&mut c.bindings, ONE, &[1], &[1], None);
    c.bindings.deliver_key(p, down, 5);
    let up = claim_key(&mut c, ONE, 30, 0, 0).expect("nothing is owed");
    let (p, _) = pass(&mut c.bindings, ONE, &[1], &[1], None);
    c.bindings.deliver_key(p, up, 6);
    let vk = VirtualKeyboardUserData { id: ONE };
    assert!(vk.destroyed(&mut c.bindings, &Some(vec![1]), 9, seat(0), &vec![1]).is_empty());
}

#[test]
fn every_forwarded_key_is_released_on_every_keyboard() {
    let forwarded: HashSet<u32> = [30, 48].into_iter().collect();
    let events = release_forwarded(&forwarded, &Some(vec![1, 2]), 9);
    assert_eq!(events.len(), 4);
    for kbd in [1, 2] {
        for key in [30, 48] {
            assert!(events.contains(&ClientEvent::Key {
                kbd,
                time: 9,
                key,
                state: KeyState::Released
            }));
        }
    }
    assert!(release_forwarded(&forwarded, &None, 9).is_empty());
    assert!(release_forwarded(&HashSet::new(), &Some(vec![1]), 9).is_empty());
}

#[test]
fn a_repeated_key_reads_as_a_release_and_runs_nothing() {
    let mut c = Compositor {
        bindings: typing("us", 0),
        bound: Some((0, 7)),
        looked_up: Vec::new(),
    };
    assert!(handle_key(&mut c, ONE, 13, 1, 7));
    assert!(handle_key(&mut c, ONE, 13, 2, 7));
    assert!(!handle_key(&mut c, ONE, 13, 0, 7));
    assert_eq!(c.looked_up, vec![(0, 7)]);
}

#[test]
fn a_release_after_a_reupload_runs_nothing_again() {
    let mut c = Compositor {
        bindings: typing("us", 12),
        bound: Some((12, 7)),
        looked_up: Vec::new(),
    };
    assert!(handle_key(&mut c, ONE, 13, 1, 7));
    c.bindings.track_keymap(
        ONE,
        UploadEvent::Resolved { text: "de".to_string(), mods: mods(12) },
    );
    assert!(handle_key(&mut c, ONE, 13, 0, 7));
    assert_eq!(c.looked_up, vec![(12, 7)]);
}

#[test]
fn each_press_is_looked_up_once_with_its_own_keyboards_sym_and_modifiers() {
    let mut b = typing("us", 0);
    add(&mut b, TWO, "de", 1);
    assert_eq!(b.lookup_keycode(ONE, 21, 1), Some(29));
    assert_eq!(b.lookup_keycode(TWO, 21, 1), Some(29));
    let mut c = Compositor { bindings: b, bound: None, looked_up: Vec::new() };
    assert!(claim_key(&mut c, ONE, 21, 1, 0x79).is_some());
    assert!(claim_key(&mut c, TWO, 21, 1, 0x7a).is_some());
    assert_eq!(c.looked_up, vec![(0, 0x79), (1, 0x7a)]);
}

#[test]
fn modifiers_survive_a_reupload_whose_state_reads_the_mask_back() {
    let mut b = typing("us", 12);
    let UploadAction::ApplyMask { mask } = b.track_keymap(ONE, UploadEvent::Compiled { ok: true })
    else {
        panic!("a registered keyboard carries its mask over");
    };
    let fresh = ModifiersState {
        serialized: SerializedMods {
            depressed: mask.depressed_mods,
            latched: mask.latched_mods,
            locked: mask.locked_mods,
            layout_effective: mask.locked_layout,
        },
        ..ModifiersState::default()
    };
    b.track_keymap(ONE, UploadEvent::Resolved { text: "de".to_string(), mods: fresh });
    assert_eq!(b.mods(ONE), Some(mods(12)));
}
