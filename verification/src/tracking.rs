//! What a virtual keyboard's own requests leave on record: its keymap and its
//! modifiers.
use vstd::prelude::*;

use crate::bindings::{VirtualKeyboard, VirtualKeyboardBindings, VirtualKeymap};
use crate::model;
use crate::model::{BindingsView, KeyboardId};
use crate::modifiers;
use crate::modifiers::{ModifiersState, XkbMask};
use crate::upload;
use crate::upload::{check_offer, keymap_text, KeymapRefusal};

verus! {

broadcast use vstd::std_specs::hash::group_hash_axioms;

/// How far the upload of a keymap has come.
#[derive(Debug, PartialEq, Eq)]
pub enum UploadEvent {
    /// A file of this size was offered, in this format.
    Offered { format: u32, size: usize },
    /// The file was read, if it could be.
    Read { bytes: Option<Vec<u8>> },
    /// xkb was given the text, and did or did not compile it.
    Compiled { ok: bool },
    /// The compiled keymap reads `text`, and a fresh state of it shows `mods`
    /// once the mask is on it.
    Resolved { text: String, mods: ModifiersState },
}

/// What the upload of a keymap asks for next.
#[derive(Debug, PartialEq, Eq)]
pub enum UploadAction {
    /// Read exactly this many bytes from the start of the file.
    Read { size: usize },
    /// Compile the text with xkb.
    Compile { text: String },
    /// Put the mask on a fresh state of the compiled keymap. The client applies
    /// the mask it is sent to the keymap it is sent, and the sym a binding is
    /// resolved from must agree.
    ApplyMask { mask: XkbMask },
    /// The keymap is in place.
    Installed,
    /// The keymap is not taken over.
    Refused(KeymapRefusal),
}

/// The modifiers that carry over to the keyboard's next keymap.
pub open spec fn carried_mods(b: BindingsView, id: KeyboardId) -> ModifiersState {
    match b.keymap_of(id) {
        Some(keymap) => keymap.mods,
        None => modifiers::no_mods(),
    }
}

/// Whether `action` is the one an event of an upload to `id` asks for.
pub open spec fn asks_for(
    b: BindingsView,
    id: KeyboardId,
    event: UploadEvent,
    action: UploadAction,
) -> bool {
    match event {
        UploadEvent::Offered { format, size } => action == (if format != upload::XKB_V1 {
            UploadAction::Refused(KeymapRefusal::UnsupportedFormat)
        } else if size > upload::MAX_KEYMAP_SIZE {
            UploadAction::Refused(KeymapRefusal::TooLarge)
        } else {
            UploadAction::Read { size }
        }),
        UploadEvent::Read { bytes: None } => action == UploadAction::Refused(
            KeymapRefusal::Unreadable,
        ),
        UploadEvent::Read { bytes: Some(bytes) } => match upload::uploaded_text(bytes@) {
            Some(text) => action matches UploadAction::Compile { text: t } && t@ == text,
            None => action == UploadAction::Refused(KeymapRefusal::NotUtf8),
        },
        UploadEvent::Compiled { ok } => action == (if !ok {
            UploadAction::Refused(KeymapRefusal::NotCompiled)
        } else if b.keyboards.contains_key(id) {
            UploadAction::ApplyMask { mask: carried_mods(b, id).serialized.spec_mask() }
        } else {
            UploadAction::Refused(KeymapRefusal::UnknownKeyboard)
        }),
        UploadEvent::Resolved { text, mods } => action == (if b.keyboards.contains_key(id) {
            UploadAction::Installed
        } else {
            UploadAction::Refused(KeymapRefusal::UnknownKeyboard)
        }),
    }
}

/// The bindings after an event of an upload: only its end changes them.
pub open spec fn after_upload(b: BindingsView, id: KeyboardId, event: UploadEvent) -> BindingsView {
    match event {
        UploadEvent::Resolved { text, mods } => b.with_keymap(id, text@, mods),
        _ => b,
    }
}

impl VirtualKeyboardBindings {
    /// Registers a virtual keyboard that has just been created.
    pub fn create_keyboard(&mut self, id: KeyboardId)
        requires
            old(self)@.wf(),
        ensures
            final(self)@ == old(self)@.with_keyboard(id, model::new_keyboard()),
            final(self)@.wf(),
    {
        let ghost before = self@;
        let kb = VirtualKeyboard {
            keymap: None,
            swallowed: std::collections::HashSet::new(),
            forwarded: std::collections::HashSet::new(),
        };
        assert(kb.model() =~= model::new_keyboard());
        self.keyboards.insert(id, kb);
        assert(self@ =~= before.with_keyboard(id, model::new_keyboard()));
    }

    /// Takes one step of a keymap's upload to the keyboard `id`: what happened,
    /// to what is asked for next.
    ///
    /// A re-upload (e.g. a layout switch) replaces the keymap but keeps the
    /// modifiers and the consumed presses: a key pressed under the old keymap
    /// still owes its release a swallow.
    pub fn track_keymap(&mut self, id: KeyboardId, event: UploadEvent) -> (action: UploadAction)
        requires
            old(self)@.wf(),
        ensures
            asks_for(old(self)@, id, event, action),
            final(self)@ == after_upload(old(self)@, id, event),
            final(self)@.wf(),
            event !is Resolved ==> *final(self) == *old(self),
    {
        match event {
            UploadEvent::Offered { format, size } => match check_offer(format, size) {
                Ok(_) => UploadAction::Read { size },
                Err(refusal) => UploadAction::Refused(refusal),
            },
            UploadEvent::Read { bytes } => {
                let bytes = match bytes {
                    Some(bytes) => bytes,
                    None => return UploadAction::Refused(KeymapRefusal::Unreadable),
                };
                match keymap_text(&bytes) {
                    Some(text) => UploadAction::Compile { text },
                    None => UploadAction::Refused(KeymapRefusal::NotUtf8),
                }
            },
            UploadEvent::Compiled { ok } => {
                if !ok {
                    return UploadAction::Refused(KeymapRefusal::NotCompiled);
                }
                match self.keyboards.get(&id) {
                    Some(kb) => {
                        let mods = match &kb.keymap {
                            Some(keymap) => keymap.mods,
                            None => ModifiersState::default(),
                        };
                        UploadAction::ApplyMask { mask: mods.serialized.mask() }
                    },
                    None => UploadAction::Refused(KeymapRefusal::UnknownKeyboard),
                }
            },
            UploadEvent::Resolved { text, mods } => {
                let ghost before = self@;
                let ghost text_view = text@;
                match self.keyboards.remove(&id) {
                    Some(kb) => {
                        let mut kb = kb;
                        kb.keymap = Some(VirtualKeymap { text, mods });
                        self.keyboards.insert(id, kb);
                        assert(self@ =~= before.with_keymap(id, text_view, mods));
                        UploadAction::Installed
                    },
                    None => {
                        assert(self@ =~= before);
                        UploadAction::Refused(KeymapRefusal::UnknownKeyboard)
                    },
                }
            },
        }
    }

    /// Takes over the modifiers that the keyboard's xkb state shows once the mask
    /// of a `modifiers` request is on it.
    pub fn track_modifiers(&mut self, id: KeyboardId, mods: ModifiersState)
        requires
            old(self)@.wf(),
        ensures
            final(self)@ == old(self)@.with_mods(id, mods),
            final(self)@.wf(),
    {
        let ghost before = self@;
        if let Some(kb) = self.keyboards.remove(&id) {
            let mut kb = kb;
            if let Some(keymap) = kb.keymap {
                kb.keymap = Some(VirtualKeymap { text: keymap.text, mods });
            }
            self.keyboards.insert(id, kb);
        }
        assert(self@ =~= before.with_mods(id, mods));
    }
}

} // verus!
