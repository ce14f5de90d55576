//! A virtual key resolves against the virtual keyboard's own keymap and
//! modifiers, a bound combo runs the compositor action with press and release
//! swallowed, and anything else reaches the focused client under the virtual
//! keyboard's keymap, which a physical key afterwards must find restored to the
//! seat's.
//!
//! The desk below does what a display server does around the library: it reads
//! files, compiles keymaps and sends events. Its keymaps are lines that name a
//! layout.
use std::collections::HashMap;

use virtual_keyboard::bindings::VirtualKeyboardBindings;
use virtual_keyboard::dispatch::{
    KeyboardRequest, ManagerRequest, RequestAction, VirtualKeyboardManagerUserData,
    VirtualKeyboardUserData,
};
use virtual_keyboard::events::{ClientEvent, KeyState, SeatState};
use virtual_keyboard::handler::{claim_key, VirtualKeyboardBindingHandler};
use virtual_keyboard::keymaps::{restore_seat_keymap, KeymapPass};
use virtual_keyboard::modifiers::{ModifiersState, SerializedMods, XkbMask};
use virtual_keyboard::tracking::{UploadAction, UploadEvent};

const KEY_A: u32 = 30;
const KEY_EQUAL: u32 = 13;
const KEY_B: u32 = 48;

const CTRL: u32 = 1 << 2;
const ALT: u32 = 1 << 3;

const SYM_EQUAL: u32 = 0x3d;
const SYM_DEAD_ACUTE: u32 = 0xfe51;

/// The one `wl_keyboard` of the client that has the focus.
const TYPIST: u64 = 1;

fn keymap_text(layout: &str) -> String {
    format!("xkb_keymap {{ {layout} }};\n")
}

#[derive(Clone, Debug, PartialEq, Eq)]
enum KeyboardEvent {
    Keymap(String),
    Modifiers { mods_depressed: u32 },
    Key { key: u32, state: u32 },
}

/// A keymap and the mask on it.
struct XkbState {
    text: String,
    mask: XkbMask,
}

impl XkbState {
    fn mods(&self) -> ModifiersState {
        let mods = self.mask.depressed_mods | self.mask.latched_mods | self.mask.locked_mods;
        ModifiersState {
            ctrl: mods & CTRL != 0,
            alt: mods & ALT != 0,
            serialized: SerializedMods {
                depressed: self.mask.depressed_mods,
                latched: self.mask.latched_mods,
                locked: self.mask.locked_mods,
                layout_effective: self.mask.locked_layout,
            },
            ..ModifiersState::default()
        }
    }

    fn sym(&self, keycode: u32) -> u32 {
        match keycode {
            21 if self.text == keymap_text("de") => SYM_DEAD_ACUTE,
            21 => SYM_EQUAL,
            other => other,
        }
    }
}

/// The compositor's own state.
#[derive(Default)]
struct Compositor {
    bindings: VirtualKeyboardBindings,
    /// Whether ctrl+alt+equal zooms in.
    zoom_bound: bool,
    zoom_target: Option<u32>,
}

impl VirtualKeyboardBindingHandler for Compositor {
    fn virtual_keyboard_bindings(&mut self) -> &mut VirtualKeyboardBindings {
        &mut self.bindings
    }

    fn virtual_key_binding(&mut self, modifiers: &ModifiersState, sym: u32) -> bool {
        let bound = self.zoom_bound && modifiers.ctrl && modifiers.alt && sym == SYM_EQUAL;
        if bound {
            self.zoom_target = Some(1);
        }
        bound
    }
}

#[derive(Default)]
struct Desk {
    state: Compositor,
    /// The `wl_keyboard`s of the client that has the focus.
    focus: Option<Vec<u64>>,
    live: Vec<u64>,
    xkb: HashMap<u64, XkbState>,
    events: Vec<KeyboardEvent>,
    next_id: u64,
    protocol_error: Option<String>,
}

impl Desk {
    fn new() -> Self {
        Desk::default()
    }

    fn with_zoom_binding() -> Self {
        let mut desk = Desk::default();
        desk.state.zoom_bound = true;
        desk
    }

    /// Maps a window whose client holds one `wl_keyboard`, and focuses it.
    fn map_window(&mut self) {
        self.focus = Some(vec![TYPIST]);
        self.live = vec![TYPIST];
    }

    fn drain_keyboard_events(&mut self) -> Vec<KeyboardEvent> {
        std::mem::take(&mut self.events)
    }

    fn create_virtual_keyboard(&mut self) -> VirtualKeyboardUserData {
        let id = self.next_id;
        self.next_id += 1;
        VirtualKeyboardManagerUserData.request(
            &mut self.state.bindings,
            ManagerRequest::CreateVirtualKeyboard { id },
        );
        VirtualKeyboardUserData { id }
    }

    fn request(&mut self, vk: &VirtualKeyboardUserData, request: KeyboardRequest) -> RequestAction {
        let action = vk.request(&mut self.state.bindings, request);
        if let RequestAction::NoKeymap { message } = &action {
            self.protocol_error = Some(message.to_string());
        }
        action
    }

    fn upload(&mut self, vk: &VirtualKeyboardUserData, text: &str) {
        let mut file = text.as_bytes().to_vec();
        file.push(0);
        let action = self.request(vk, KeyboardRequest::Keymap { format: 1, size: file.len() as u32 });
        let RequestAction::Upload(mut step) = action else {
            panic!("a keymap request must start an upload, got {action:?}");
        };
        let mut compiled = String::new();
        loop {
            let event = match step {
                UploadAction::Read { size } => UploadEvent::Read { bytes: Some(file[..size].to_vec()) },
                UploadAction::Compile { text } => {
                    let ok = text.starts_with("xkb_keymap");
                    compiled = text;
                    UploadEvent::Compiled { ok }
                }
                UploadAction::ApplyMask { mask } => {
                    let fresh = XkbState { text: compiled.clone(), mask };
                    let mods = fresh.mods();
                    self.xkb.insert(vk.id, fresh);
                    UploadEvent::Resolved { text: compiled.clone(), mods }
                }
                UploadAction::Installed | UploadAction::Refused(_) => return,
            };
            step = self.state.bindings.track_keymap(vk.id, event);
        }
    }

    fn deliver(&mut self, vk: &VirtualKeyboardUserData) -> Option<KeymapPass> {
        let read = if self.state.bindings.knows_seat_keymap() {
            None
        } else {
            Some(keymap_text("us"))
        };
        let seat_mods = ModifiersState::default().serialized;
        let bindings = &mut self.state.bindings;
        let mut pass = bindings.begin_delivery(vk.id, self.focus.clone(), seat_mods, read)?;
        while let Some(kbd) = bindings.next_keymap_target(&mut pass, &self.live) {
            assert_eq!(kbd, TYPIST);
            self.events.push(KeyboardEvent::Keymap(self.xkb[&vk.id].text.clone()));
            bindings.keymap_sent(&mut pass, &self.live);
        }
        Some(pass)
    }

    fn send(&mut self, events: Vec<ClientEvent>) {
        for event in events {
            self.events.push(match event {
                ClientEvent::SeatKeymap { .. } => KeyboardEvent::Keymap(keymap_text("us")),
                ClientEvent::Modifiers { mods } => KeyboardEvent::Modifiers {
                    mods_depressed: mods.serialized.depressed,
                },
                ClientEvent::Key { key, state, .. } => KeyboardEvent::Key {
                    key,
                    state: if state == KeyState::Pressed { 1 } else { 0 },
                },
            });
        }
    }

    fn key(&mut self, vk: &VirtualKeyboardUserData, time: u32, key: u32, pressed: bool) {
        let key_state = if pressed { 1 } else { 0 };
        let request = KeyboardRequest::Key { time, key, state: key_state };
        let RequestAction::Key { keycode } = self.request(vk, request) else {
            return;
        };
        let sym = keycode.map_or(0, |code| self.xkb[&vk.id].sym(code));
        let Some(event) = claim_key(&mut self.state, vk.id, key, key_state, sym) else {
            return;
        };
        if let Some(pass) = self.deliver(vk) {
            let events = self.state.bindings.deliver_key(pass, event, time);
            self.send(events);
        }
    }

    fn modifiers(&mut self, vk: &VirtualKeyboardUserData, depressed: u32) {
        let request = KeyboardRequest::Modifiers { depressed, latched: 0, locked: 0, group: 0 };
        let RequestAction::ApplyMask { mask } = self.request(vk, request) else {
            return;
        };
        let xkb = self.xkb.get_mut(&vk.id).unwrap();
        xkb.mask = mask;
        let mods = xkb.mods();
        self.state.bindings.track_modifiers(vk.id, mods);
        if let Some(pass) = self.deliver(vk) {
            let events = self.state.bindings.deliver_modifiers(pass);
            self.send(events);
        }
    }

    fn seat(&self) -> Option<SeatState> {
        Some(SeatState { mods: ModifiersState::default(), focused: self.focus.is_some() })
    }

    /// A key of the physical keyboard.
    fn physical_key(&mut self, key: u32, pressed: bool) {
        let seat = self.seat();
        let events = restore_seat_keymap(&mut self.state.bindings, seat, &self.live);
        self.send(events);
        self.events.push(KeyboardEvent::Key { key, state: if pressed { 1 } else { 0 } });
    }

    fn destroy(&mut self, vk: &VirtualKeyboardUserData) {
        let seat = self.seat();
        let events = vk.destroyed(&mut self.state.bindings, &self.focus, 9, seat, &self.live);
        self.send(events);
        self.xkb.remove(&vk.id);
    }
}

/// A virtual keyboard presses and releases `KEY_A` into the focused window under
/// a `de` keymap, not the seat's `us`, so a client holding it is observable.
fn press_a_through_virtual_keyboard(f: &mut Desk) -> (VirtualKeyboardUserData, String) {
    f.map_window();
    f.drain_keyboard_events();

    let vk = f.create_virtual_keyboard();
    let text = keymap_text("de");
    f.upload(&vk, &text);

    f.key(&vk, 1, KEY_A, true);
    f.key(&vk, 2, KEY_A, false);

    (vk, text)
}

fn any_key(events: &[KeyboardEvent]) -> bool {
    events.iter().any(|e| matches!(e, KeyboardEvent::Key { .. }))
}

#[test]
fn a_virtual_key_reaches_the_focused_window_with_the_virtual_keyboards_keymap_first() {
    let mut f = Desk::new();

    let (_vk, text) = press_a_through_virtual_keyboard(&mut f);

    assert_eq!(
        f.drain_keyboard_events(),
        vec![
            // A keymap change carries a modifiers resync: here the virtual
            // keyboard's default, nothing depressed.
            KeyboardEvent::Keymap(text),
            KeyboardEvent::Modifiers { mods_depressed: 0 },
            KeyboardEvent::Key { key: KEY_A, state: 1 },
            KeyboardEvent::Key { key: KEY_A, state: 0 },
        ],
        "the client must see the virtual keyboard's keymap exactly once, then \
         the press and the release"
    );
}

#[test]
fn an_on_screen_keyboard_uploading_the_seats_own_layout_costs_the_client_nothing() {
    let mut f = Desk::new();
    f.map_window();
    f.drain_keyboard_events();

    let vk = f.create_virtual_keyboard();
    f.upload(&vk, &keymap_text("us"));

    f.key(&vk, 1, KEY_A, true);
    f.key(&vk, 2, KEY_A, false);

    assert_eq!(
        f.drain_keyboard_events(),
        vec![
            KeyboardEvent::Key { key: KEY_A, state: 1 },
            KeyboardEvent::Key { key: KEY_A, state: 0 },
        ],
        "uploading the seat's own layout must cost the client nothing but the \
         key itself"
    );

    f.physical_key(KEY_B, true);
    f.physical_key(KEY_B, false);

    assert_eq!(
        f.drain_keyboard_events(),
        vec![
            KeyboardEvent::Key { key: KEY_B, state: 1 },
            KeyboardEvent::Key { key: KEY_B, state: 0 },
        ],
        "a physical key afterwards must find nothing to restore"
    );
}

#[test]
fn a_virtual_key_matching_a_compositor_binding_runs_the_action_and_never_reaches_the_client() {
    let mut f = Desk::with_zoom_binding();
    f.map_window();
    f.drain_keyboard_events();

    let vk = f.create_virtual_keyboard();
    f.upload(&vk, &keymap_text("us"));
    f.modifiers(&vk, CTRL | ALT);

    f.key(&vk, 1, KEY_EQUAL, true);
    f.key(&vk, 2, KEY_EQUAL, false);

    assert!(
        f.state.zoom_target.is_some(),
        "a virtual key matching a compositor binding must run its action"
    );
    assert!(
        !any_key(&f.events),
        "a key a compositor binding consumes must never reach the focused \
         client, neither the press nor its paired release: {:?}",
        f.events
    );
}

#[test]
fn a_bound_combo_still_fires_after_a_keymap_reupload_that_follows_modifiers() {
    let mut f = Desk::with_zoom_binding();
    f.map_window();
    f.drain_keyboard_events();

    let vk = f.create_virtual_keyboard();
    f.upload(&vk, &keymap_text("us"));
    f.modifiers(&vk, CTRL | ALT);

    // `gb`, not `de`, whose `=` key is a dead accent: this must fail only if the
    // modifiers are lost across the re-upload.
    f.upload(&vk, &keymap_text("gb"));

    f.key(&vk, 1, KEY_EQUAL, true);
    f.key(&vk, 2, KEY_EQUAL, false);

    assert!(
        f.state.zoom_target.is_some(),
        "a bound combo must still fire after a keymap re-upload that follows \
         the modifiers request"
    );
    assert!(
        !any_key(&f.events),
        "a key a compositor binding consumes must never reach the focused \
         client, even after the keymap that resolved it was replaced: {:?}",
        f.events
    );
}

#[test]
fn a_release_is_swallowed_across_a_keymap_reupload() {
    let mut f = Desk::with_zoom_binding();
    f.map_window();
    f.drain_keyboard_events();

    let vk = f.create_virtual_keyboard();
    f.upload(&vk, &keymap_text("us"));
    f.modifiers(&vk, CTRL | ALT);

    f.key(&vk, 1, KEY_EQUAL, true);
    assert!(
        f.state.zoom_target.is_some(),
        "precondition: the press must run the bound action, so its release \
         has something to swallow"
    );

    f.upload(&vk, &keymap_text("de"));

    f.key(&vk, 2, KEY_EQUAL, false);

    assert!(
        !any_key(&f.events),
        "the release paired with a swallowed press must stay swallowed across \
         a keymap re-upload: {:?}",
        f.events
    );
}

#[test]
fn a_physical_key_after_virtual_typing_restores_the_seat_keymap_first() {
    let mut f = Desk::new();

    let (_vk, virtual_text) = press_a_through_virtual_keyboard(&mut f);
    // Leave only what the physical key produces.
    f.drain_keyboard_events();

    f.physical_key(KEY_B, true);
    f.physical_key(KEY_B, false);

    let events = f.drain_keyboard_events();
    let Some(KeyboardEvent::Keymap(seat_text)) = events.first() else {
        panic!("expected the seat's keymap to go out before the physical key, got {events:?}");
    };
    assert_ne!(
        seat_text, &virtual_text,
        "a physical key must find the seat's own keymap restored"
    );

    let key_events: Vec<&KeyboardEvent> =
        events.iter().filter(|e| matches!(e, KeyboardEvent::Key { .. })).collect();
    assert_eq!(
        key_events,
        vec![
            &KeyboardEvent::Key { key: KEY_B, state: 1 },
            &KeyboardEvent::Key { key: KEY_B, state: 0 },
        ],
        "the physical press and release must still reach the client, after \
         the keymap reset"
    );
}

#[test]
fn key_before_keymap_is_a_protocol_error() {
    let mut f = Desk::new();
    let vk = f.create_virtual_keyboard();

    f.key(&vk, 1, KEY_A, true);

    assert_eq!(
        f.protocol_error,
        Some("`key` sent before keymap.".to_string()),
        "`key` before `keymap` must be a protocol error"
    );
}

#[test]
fn a_modifiers_request_reaches_the_focused_window() {
    let mut f = Desk::new();
    f.map_window();
    f.drain_keyboard_events();

    let vk = f.create_virtual_keyboard();
    f.upload(&vk, &keymap_text("de"));
    let mask = CTRL;
    f.modifiers(&vk, mask);

    assert!(
        f.drain_keyboard_events().contains(&KeyboardEvent::Modifiers { mods_depressed: mask }),
        "a `modifiers` request must reach the focused window's wl_keyboard, \
         possibly preceded by the keymap on first contact"
    );
}

#[test]
fn destroying_a_virtual_keyboard_frees_its_bookkeeping() {
    let mut f = Desk::new();

    let (vk, _text) = press_a_through_virtual_keyboard(&mut f);
    assert_eq!(
        f.state.bindings.keyboard_count(),
        1,
        "precondition: the manager registered the virtual keyboard"
    );

    f.destroy(&vk);

    assert_eq!(
        f.state.bindings.keyboard_count(),
        0,
        "destroying the virtual keyboard must free its compositor-side bookkeeping"
    );
}
