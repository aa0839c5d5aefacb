//! Keycodes of the USB HID Usage Tables (Keyboard/Keypad page) and the
//! modifier bits of the boot-keyboard report.
use vstd::prelude::*;

verus! {

/// A HID keyboard usage code.
pub type Kc = u8;

pub const KBD_NONE: Kc = 0;
pub const KBD_A: Kc = 4;
pub const KBD_B: Kc = 5;
pub const KBD_C: Kc = 6;
pub const KBD_D: Kc = 7;
pub const KBD_E: Kc = 8;
pub const KBD_F: Kc = 9;
pub const KBD_G: Kc = 10;
pub const KBD_H: Kc = 11;
pub const KBD_I: Kc = 12;
pub const KBD_J: Kc = 13;
pub const KBD_K: Kc = 14;
pub const KBD_L: Kc = 15;
pub const KBD_M: Kc = 16;
pub const KBD_N: Kc = 17;
pub const KBD_O: Kc = 18;
pub const KBD_P: Kc = 19;
pub const KBD_Q: Kc = 20;
pub const KBD_R: Kc = 21;
pub const KBD_S: Kc = 22;
pub const KBD_T: Kc = 23;
pub const KBD_U: Kc = 24;
pub const KBD_V: Kc = 25;
pub const KBD_W: Kc = 26;
pub const KBD_X: Kc = 27;
pub const KBD_Y: Kc = 28;
pub const KBD_Z: Kc = 29;
pub const KBD_1: Kc = 30;
pub const KBD_2: Kc = 31;
pub const KBD_3: Kc = 32;
pub const KBD_4: Kc = 33;
pub const KBD_5: Kc = 34;
pub const KBD_6: Kc = 35;
pub const KBD_7: Kc = 36;
pub const KBD_8: Kc = 37;
pub const KBD_9: Kc = 38;
pub const KBD_0: Kc = 39;
pub const KBD_ENTER: Kc = 40;
pub const KBD_ESCAPE: Kc = 41;
pub const KBD_BACKSPACE: Kc = 42;
pub const KBD_TAB: Kc = 43;
pub const KBD_SPACEBAR: Kc = 44;
pub const KBD_UNDERSCORE: Kc = 45;
pub const KBD_JP_HYPHEN: Kc = 45; // - / =
pub const KBD_PLUS: Kc = 46;
pub const KBD_JP_CARET: Kc = 46; // ^ / ~
pub const KBD_OPEN_BRACKET: Kc = 47;
pub const KBD_JP_AT: Kc = 47; // @ / `
pub const KBD_CLOSE_BRACKET: Kc = 48;
pub const KBD_JP_OPEN_BRACKET: Kc = 48; // [ / {
pub const KBD_BACKSLASH: Kc = 49;
pub const KBD_JP_CLOSE_BRACKET: Kc = 49; // ] / }
pub const KBD_ASH: Kc = 50;
pub const KBD_COLON: Kc = 51;
pub const KBD_JP_SEMICOLON: Kc = 51; // ; / +
pub const KBD_QUOTE: Kc = 52;
pub const KBD_JP_COLON: Kc = 52; // : / *
pub const KBD_TILDE: Kc = 53;
pub const KBD_COMMA: Kc = 54;
pub const KBD_DOT: Kc = 55;
pub const KBD_SLASH: Kc = 56;
pub const KBD_CAPS_LOCK: Kc = 57;
pub const KBD_F1: Kc = 58;
pub const KBD_F2: Kc = 59;
pub const KBD_F3: Kc = 60;
pub const KBD_F4: Kc = 61;
pub const KBD_F5: Kc = 62;
pub const KBD_F6: Kc = 63;
pub const KBD_F7: Kc = 64;
pub const KBD_F8: Kc = 65;
pub const KBD_F9: Kc = 66;
pub const KBD_F10: Kc = 67;
pub const KBD_F11: Kc = 68;
pub const KBD_F12: Kc = 69;
pub const KBD_PRINTSCREEN: Kc = 70;
pub const KBD_SCROLL_LOCK: Kc = 71;
pub const KBD_PAUSE: Kc = 72;
pub const KBD_INSERT: Kc = 73;
pub const KBD_HOME: Kc = 74;
pub const KBD_PAGEUP: Kc = 75;
pub const KBD_DELETE: Kc = 76;
pub const KBD_END: Kc = 77;
pub const KBD_PAGEDOWN: Kc = 78;
pub const KBD_RIGHT: Kc = 79;
pub const KBD_LEFT: Kc = 80;
pub const KBD_DOWN: Kc = 81;
pub const KBD_UP: Kc = 82;
pub const KBD_KEYPAD_NUM_LOCK: Kc = 83;
pub const KBD_KEYPAD_DIVIDE: Kc = 84;
pub const KBD_KEYPAD_AT: Kc = 85;
pub const KBD_KEYPAD_MULTIPLY: Kc = 85;
pub const KBD_KEYPAD_MINUS: Kc = 86;
pub const KBD_KEYPAD_PLUS: Kc = 87;
pub const KBD_KEYPAD_ENTER: Kc = 88;
pub const KBD_KEYPAD_1: Kc = 89;
pub const KBD_KEYPAD_2: Kc = 90;
pub const KBD_KEYPAD_3: Kc = 91;
pub const KBD_KEYPAD_4: Kc = 92;
pub const KBD_KEYPAD_5: Kc = 93;
pub const KBD_KEYPAD_6: Kc = 94;
pub const KBD_KEYPAD_7: Kc = 95;
pub const KBD_KEYPAD_8: Kc = 96;
pub const KBD_KEYPAD_9: Kc = 97;
pub const KBD_KEYPAD_0: Kc = 98;

pub const KBD_JP_BACKSLASH: Kc = 137; // \ (yen) / pipe
pub const KBD_JP_UNDERSCORE: Kc = 135;
pub const KBD_JP_MUHENKAN: Kc = 139;
pub const KBD_JP_HANKAKU_ZENAKKU: Kc = 138;
pub const KBD_JP_HENKAN: Kc = 136;

pub const KBD_MODIFIER_NONE: Kc = 0x00;
pub const KBD_MODIFIER_LEFT_CTRL: Kc = 0x01;
pub const KBD_MODIFIER_LEFT_SHIFT: Kc = 0x02;
pub const KBD_MODIFIER_LEFT_ALT: Kc = 0x04;
pub const KBD_MODIFIER_LEFT_UI: Kc = 0x08;
pub const KBD_MODIFIER_RIGHT_CTRL: Kc = 0x10;
pub const KBD_MODIFIER_RIGHT_SHIFT: Kc = 0x20;
pub const KBD_MODIFIER_RIGHT_ALT: Kc = 0x40;
pub const KBD_MODIFIER_RIGHT_UI: Kc = 0x80;

} // verus!
