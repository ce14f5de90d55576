//! Modifier state as the keyboard protocol and xkb describe it.
use vstd::prelude::*;

verus! {

/// The modifier masks of a keyboard, as a `modifiers` event carries them.
#[derive(Clone, Copy, Debug, PartialEq, Eq, Structural, Hash)]
pub struct SerializedMods {
    pub depressed: u32,
    pub latched: u32,
    pub locked: u32,
    pub layout_effective: u32,
}

/// Which modifiers are in effect on a keyboard, by name and as masks.
#[derive(Clone, Copy, Debug, PartialEq, Eq, Structural, Hash)]
pub struct ModifiersState {
    pub ctrl: bool,
    pub alt: bool,
    pub shift: bool,
    pub caps_lock: bool,
    pub logo: bool,
    pub num_lock: bool,
    pub iso_level3_shift: bool,
    pub iso_level5_shift: bool,
    pub serialized: SerializedMods,
}

/// The six arguments of an xkb mask update, in the order xkb takes them.
#[derive(Clone, Copy, Debug, PartialEq, Eq, Structural)]
pub struct XkbMask {
    pub depressed_mods: u32,
    pub latched_mods: u32,
    pub locked_mods: u32,
    pub depressed_layout: u32,
    pub latched_layout: u32,
    pub locked_layout: u32,
}

/// No modifier held, the first layout.
pub open spec fn no_mods() -> ModifiersState {
    ModifiersState {
        ctrl: false,
        alt: false,
        shift: false,
        caps_lock: false,
        logo: false,
        num_lock: false,
        iso_level3_shift: false,
        iso_level5_shift: false,
        serialized: SerializedMods { depressed: 0, latched: 0, locked: 0, layout_effective: 0 },
    }
}

impl Default for ModifiersState {
    fn default() -> (mods: Self)
        ensures
            mods == no_mods(),
    {
        ModifiersState {
            ctrl: false,
            alt: false,
            shift: false,
            caps_lock: false,
            logo: false,
            num_lock: false,
            iso_level3_shift: false,
            iso_level5_shift: false,
            serialized: SerializedMods { depressed: 0, latched: 0, locked: 0, layout_effective: 0 },
        }
    }
}

/// The mask that puts masks of three kinds and a layout onto an xkb state: the
/// layout goes in as the locked one.
pub open spec fn mask_of(depressed: u32, latched: u32, locked: u32, layout: u32) -> XkbMask {
    XkbMask {
        depressed_mods: depressed,
        latched_mods: latched,
        locked_mods: locked,
        depressed_layout: 0,
        latched_layout: 0,
        locked_layout: layout,
    }
}

impl XkbMask {
    /// The mask for a `modifiers` request, whose `group` is the layout.
    pub fn new(depressed: u32, latched: u32, locked: u32, layout: u32) -> (mask: XkbMask)
        ensures
            mask == mask_of(depressed, latched, locked, layout),
    {
        XkbMask {
            depressed_mods: depressed,
            latched_mods: latched,
            locked_mods: locked,
            depressed_layout: 0,
            latched_layout: 0,
            locked_layout: layout,
        }
    }
}

impl SerializedMods {
    /// The mask that puts these modifiers onto an xkb state.
    pub open spec fn spec_mask(self) -> XkbMask {
        mask_of(self.depressed, self.latched, self.locked, self.layout_effective)
    }

    /// The mask that puts these modifiers onto an xkb state.
    pub fn mask(&self) -> (mask: XkbMask)
        ensures
            mask == self.spec_mask(),
    {
        XkbMask::new(self.depressed, self.latched, self.locked, self.layout_effective)
    }
}

} // verus!
