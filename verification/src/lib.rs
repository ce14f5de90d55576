//! The state behind `zwp_virtual_keyboard_v1` on a compositor with keybindings.
//!
//! Each press on a virtual keyboard first runs through
//! [`handler::VirtualKeyboardBindingHandler::virtual_key_binding`], resolved
//! against the virtual keyboard's own uploaded keymap and modifiers, which need
//! not match the physical layout. A bound combo executes instead of reaching the
//! focused client, and the paired release is swallowed too. Anything else reaches
//! the client under the virtual keyboard's keymap.
//!
//! Which keymap each `wl_keyboard` holds is kept on record, so that
//! [`keymaps::restore_seat_keymap`] can put the seat's back before a physical key
//! is forwarded.
//!
//! Nothing here reads a file, compiles a keymap or sends an event. The library
//! says what is to be done, is told what came of it, and answers with the next
//! step. Virtual keyboards and `wl_keyboard`s go by number; where liveness
//! matters, the caller lists the `wl_keyboard`s that live.
//!
//! [`model`] holds what the contracts speak of, [`effects`] what each step does, said
//! of what goes in and comes out, and [`laws`] what holds across calls.
pub mod bindings;
pub mod dispatch;
pub mod effects;
pub mod events;
pub mod handler;
pub mod keymaps;
pub mod keys;
pub mod laws;
pub mod model;
pub mod modifiers;
pub mod tracking;
pub mod upload;
