# virtual_keyboard

The state behind `zwp_virtual_keyboard_v1` for a Wayland compositor that lets
virtual keys run its own keybindings, written and proved in Verus.

A virtual keyboard uploads a keymap and sends keys and modifiers. A press that
matches a compositor binding runs it, and neither the press nor the paired
release reaches the focused client. Any other key reaches the client under the
virtual keyboard's keymap. The seat's keymap and modifiers go back before the
next physical key, or when the virtual keyboard is destroyed.

| Place | What it holds |
| --- | --- |
| `src/model.rs` | the mathematical model that contracts speak of, and its invariant |
| `src/bindings.rs` | the state itself |
| `src/modifiers.rs`, `src/events.rs` | plain values: modifiers, events, what the seat reports |
| `src/upload.rs`, `src/tracking.rs` | taking over an uploaded keymap, and modifiers |
| `src/keymaps.rs` | which keymap each `wl_keyboard` holds: sending one, restoring the seat's |
| `src/keys.rs` | keys and modifiers on their way to the client |
| `src/handler.rs` | the lookup of a key among the compositor's bindings |
| `src/dispatch.rs` | the protocol's requests |
| `src/laws.rs` | what holds across calls, proved |
| `app/` | the same on smithay: files, xkb, protocol objects |

The library does no I/O. Where something outside must be done (reading a file,
compiling a keymap, sending a keymap), a function returns the action, and the
next call takes what came of it.

One item is trusted: `str_from_utf8` in `src/upload.rs`, around
`core::str::from_utf8`. What a compositor promises of its bindings is stated on
the trait `VirtualKeyboardBindingHandler`.
