//! Keyboard event transformer of a split keyboard: turns the key positions
//! seen at each scan tick into USB HID boot-keyboard reports, with layer
//! modifiers, shifted composite keys and timed two-key combos.
pub mod feature_state;
pub mod hid_keycodes;
pub mod key_stream;
pub mod keymap;
pub mod ring_buffer;
pub mod scan;
