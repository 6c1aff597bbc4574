//! From RDP scancodes to macOS virtual key codes.
use crate::input::keyboard::cg_key_for;
use vstd::prelude::*;

verus! {

pub const ANSI_GRAVE: u16 = 0x32;

pub const ANSI_1: u16 = 0x12;

pub const ANSI_2: u16 = 0x13;

pub const ANSI_3: u16 = 0x14;

pub const ANSI_4: u16 = 0x15;

pub const ANSI_5: u16 = 0x17;

pub const ANSI_6: u16 = 0x16;

pub const ANSI_7: u16 = 0x1a;

pub const ANSI_8: u16 = 0x1c;

pub const ANSI_9: u16 = 0x19;

pub const ANSI_0: u16 = 0x1d;

pub const ANSI_MINUS: u16 = 0x1b;

pub const ANSI_EQUAL: u16 = 0x18;

pub const DELETE: u16 = 0x33;

pub const TAB: u16 = 0x30;

pub const ANSI_Q: u16 = 0x0c;

pub const ANSI_W: u16 = 0x0d;

pub const ANSI_E: u16 = 0x0e;

pub const ANSI_R: u16 = 0x0f;

pub const ANSI_T: u16 = 0x11;

pub const ANSI_Y: u16 = 0x10;

pub const ANSI_U: u16 = 0x20;

pub const ANSI_I: u16 = 0x22;

pub const ANSI_O: u16 = 0x1f;

pub const ANSI_P: u16 = 0x23;

pub const ANSI_LEFT_BRACKET: u16 = 0x21;

pub const ANSI_RIGHT_BRACKET: u16 = 0x1e;

pub const ANSI_BACKSLASH: u16 = 0x2a;

pub const CAPS_LOCK: u16 = 0x39;

pub const ANSI_A: u16 = 0x00;

pub const ANSI_S: u16 = 0x01;

pub const ANSI_D: u16 = 0x02;

pub const ANSI_F: u16 = 0x03;

pub const ANSI_G: u16 = 0x05;

pub const ANSI_H: u16 = 0x04;

pub const ANSI_J: u16 = 0x26;

pub const ANSI_K: u16 = 0x28;

pub const ANSI_L: u16 = 0x25;

pub const ANSI_SEMICOLON: u16 = 0x29;

pub const ANSI_QUOTE: u16 = 0x27;

pub const RETURN: u16 = 0x24;

pub const ANSI_KEYPAD_ENTER: u16 = 0x4c;

pub const SHIFT: u16 = 0x38;

pub const ANSI_Z: u16 = 0x06;

pub const ANSI_X: u16 = 0x07;

pub const ANSI_C: u16 = 0x08;

pub const ANSI_V: u16 = 0x09;

pub const ANSI_B: u16 = 0x0b;

pub const ANSI_N: u16 = 0x2d;

pub const ANSI_M: u16 = 0x2e;

pub const ANSI_COMMA: u16 = 0x2b;

pub const ANSI_PERIOD: u16 = 0x2f;

pub const ANSI_SLASH: u16 = 0x2c;

pub const RIGHT_SHIFT: u16 = 0x3c;

pub const CONTROL: u16 = 0x3b;

pub const RIGHT_CONTROL: u16 = 0x3e;

pub const OPTION: u16 = 0x3a;

pub const RIGHT_OPTION: u16 = 0x3d;

pub const SPACE: u16 = 0x31;

pub const COMMAND: u16 = 0x37;

pub const RIGHT_COMMAND: u16 = 0x36;

pub const ESCAPE: u16 = 0x35;

pub const F1: u16 = 0x7a;

pub const F2: u16 = 0x78;

pub const F3: u16 = 0x63;

pub const F4: u16 = 0x76;

pub const F5: u16 = 0x60;

pub const F6: u16 = 0x61;

pub const F7: u16 = 0x62;

pub const F8: u16 = 0x64;

pub const F9: u16 = 0x65;

pub const F10: u16 = 0x6d;

pub const F11: u16 = 0x67;

pub const F12: u16 = 0x6f;

pub const F13: u16 = 0x69;

pub const F14: u16 = 0x6b;

pub const F15: u16 = 0x71;

pub const HOME: u16 = 0x73;

pub const UP_ARROW: u16 = 0x7e;

pub const PAGE_UP: u16 = 0x74;

pub const LEFT_ARROW: u16 = 0x7b;

pub const RIGHT_ARROW: u16 = 0x7c;

pub const END: u16 = 0x77;

pub const DOWN_ARROW: u16 = 0x7d;

pub const PAGE_DOWN: u16 = 0x79;

pub const HELP: u16 = 0x72;

pub const FORWARD_DELETE: u16 = 0x75;

pub const ANSI_KEYPAD_CLEAR: u16 = 0x47;

pub const ANSI_KEYPAD_MINUS: u16 = 0x4e;

pub const ANSI_KEYPAD_MULTIPLY: u16 = 0x43;

pub const ANSI_KEYPAD_DIVIDE: u16 = 0x4b;

pub const ANSI_KEYPAD_PLUS: u16 = 0x45;

pub const ANSI_KEYPAD_7: u16 = 0x59;

pub const ANSI_KEYPAD_8: u16 = 0x5b;

pub const ANSI_KEYPAD_9: u16 = 0x5c;

pub const ANSI_KEYPAD_4: u16 = 0x56;

pub const ANSI_KEYPAD_6: u16 = 0x58;

pub const ANSI_KEYPAD_1: u16 = 0x53;

pub const ANSI_KEYPAD_2: u16 = 0x54;

pub const ANSI_KEYPAD_3: u16 = 0x55;

pub const ANSI_KEYPAD_0: u16 = 0x52;

pub const ANSI_KEYPAD_DECIMAL: u16 = 0x41;

pub const F16: u16 = 0x6a;

/// The key code for a scancode, and whether it came with the extended-key bit.
pub open spec fn key_for(code: u8, extended: bool) -> Option<u16> {
    match (code, extended) {
        // Row 1: digit row
        (0x29, _) => Some(ANSI_GRAVE),
        (0x02, _) => Some(ANSI_1),
        (0x03, _) => Some(ANSI_2),
        (0x04, _) => Some(ANSI_3),
        (0x05, _) => Some(ANSI_4),
        (0x06, _) => Some(ANSI_5),
        (0x07, _) => Some(ANSI_6),
        (0x08, _) => Some(ANSI_7),
        (0x09, _) => Some(ANSI_8),
        (0x0A, _) => Some(ANSI_9),
        (0x0B, _) => Some(ANSI_0),
        (0x0C, _) => Some(ANSI_MINUS),
        (0x0D, _) => Some(ANSI_EQUAL),
        (0x0E, _) => Some(DELETE),  // Backspace
        // Row 2: QWERTY
        (0x0F, _) => Some(TAB),
        (0x10, _) => Some(ANSI_Q),
        (0x11, _) => Some(ANSI_W),
        (0x12, _) => Some(ANSI_E),
        (0x13, _) => Some(ANSI_R),
        (0x14, _) => Some(ANSI_T),
        (0x15, _) => Some(ANSI_Y),
        (0x16, _) => Some(ANSI_U),
        (0x17, _) => Some(ANSI_I),
        (0x18, _) => Some(ANSI_O),
        (0x19, _) => Some(ANSI_P),
        (0x1A, _) => Some(ANSI_LEFT_BRACKET),
        (0x1B, _) => Some(ANSI_RIGHT_BRACKET),
        (0x2B, _) => Some(ANSI_BACKSLASH),
        // Row 3: ASDF
        (0x3A, _) => Some(CAPS_LOCK),
        (0x1E, _) => Some(ANSI_A),
        (0x1F, _) => Some(ANSI_S),
        (0x20, _) => Some(ANSI_D),
        (0x21, _) => Some(ANSI_F),
        (0x22, _) => Some(ANSI_G),
        (0x23, _) => Some(ANSI_H),
        (0x24, _) => Some(ANSI_J),
        (0x25, _) => Some(ANSI_K),
        (0x26, _) => Some(ANSI_L),
        (0x27, _) => Some(ANSI_SEMICOLON),
        (0x28, _) => Some(ANSI_QUOTE),
        (0x1C, false) => Some(RETURN),
        (0x1C, true) => Some(ANSI_KEYPAD_ENTER),
        // Row 4: ZXCV
        (0x2A, _) => Some(SHIFT),
        (0x2C, _) => Some(ANSI_Z),
        (0x2D, _) => Some(ANSI_X),
        (0x2E, _) => Some(ANSI_C),
        (0x2F, _) => Some(ANSI_V),
        (0x30, _) => Some(ANSI_B),
        (0x31, _) => Some(ANSI_N),
        (0x32, _) => Some(ANSI_M),
        (0x33, _) => Some(ANSI_COMMA),
        (0x34, _) => Some(ANSI_PERIOD),
        (0x35, false) => Some(ANSI_SLASH),
        (0x36, _) => Some(RIGHT_SHIFT),
        // Bottom row
        (0x1D, false) => Some(CONTROL),
        (0x1D, true) => Some(RIGHT_CONTROL),
        (0x38, false) => Some(OPTION),  // Left Alt → Option
        (0x38, true) => Some(RIGHT_OPTION),
        (0x39, _) => Some(SPACE),
        (0x5B, _) => Some(COMMAND),  // Left Win → Cmd
        (0x5C, _) => Some(RIGHT_COMMAND),
        // Function keys
        (0x01, _) => Some(ESCAPE),
        (0x3B, _) => Some(F1),
        (0x3C, _) => Some(F2),
        (0x3D, _) => Some(F3),
        (0x3E, _) => Some(F4),
        (0x3F, _) => Some(F5),
        (0x40, _) => Some(F6),
        (0x41, _) => Some(F7),
        (0x42, _) => Some(F8),
        (0x43, _) => Some(F9),
        (0x44, _) => Some(F10),
        (0x57, _) => Some(F11),
        (0x58, _) => Some(F12),
        (0x64, _) => Some(F13),
        (0x65, _) => Some(F14),
        (0x66, _) => Some(F15),
        // Navigation cluster (extended scancodes)
        // 0x47..0x53 without extended bit = numpad; with extended = nav cluster
        (0x47, true) => Some(HOME),
        (0x48, true) => Some(UP_ARROW),
        (0x49, true) => Some(PAGE_UP),
        (0x4B, true) => Some(LEFT_ARROW),
        (0x4D, true) => Some(RIGHT_ARROW),
        (0x4F, true) => Some(END),
        (0x50, true) => Some(DOWN_ARROW),
        (0x51, true) => Some(PAGE_DOWN),
        (0x52, true) => Some(HELP),  // Insert → Help (closest macOS equiv)
        (0x53, true) => Some(FORWARD_DELETE),
        // Numpad (non-extended)
        (0x45, _) => Some(ANSI_KEYPAD_CLEAR),  // Num Lock → Clear
        (0x4A, _) => Some(ANSI_KEYPAD_MINUS),
        (0x37, false) => Some(ANSI_KEYPAD_MULTIPLY),
        (0x35, true) => Some(ANSI_KEYPAD_DIVIDE),
        (0x4E, _) => Some(ANSI_KEYPAD_PLUS),
        (0x4C, _) => Some(ANSI_KEYPAD_ENTER),
        (0x47, false) => Some(ANSI_KEYPAD_7),
        (0x48, false) => Some(ANSI_KEYPAD_8),
        (0x49, false) => Some(ANSI_KEYPAD_9),
        (0x4B, false) => Some(ANSI_KEYPAD_4),
        (0x4D, false) => Some(ANSI_KEYPAD_6),
        (0x4F, false) => Some(ANSI_KEYPAD_1),
        (0x50, false) => Some(ANSI_KEYPAD_2),
        (0x51, false) => Some(ANSI_KEYPAD_3),
        (0x52, false) => Some(ANSI_KEYPAD_0),
        (0x53, false) => Some(ANSI_KEYPAD_DECIMAL),
        // Print Screen / Scroll Lock (no direct macOS equivalent)
        (0x37, true) => Some(F13),  // PrtSc → F13
        (0x46, _) => Some(F16),  // Scroll Lock → F16
        _ => None,
    }
}

/// Translate an RDP scancode (set 1) to a macOS virtual key code.
///
/// `extended` is the RDP extended-key bit. Returns `None` for unmapped keys
/// (they are silently dropped).
pub fn scancode_to_cg(code: u8, extended: bool) -> (k: Option<u16>)
    ensures
        k == key_for(code, extended),
{
    match (code, extended) {
        // Row 1: digit row
        (0x29, _) => Some(ANSI_GRAVE),
        (0x02, _) => Some(ANSI_1),
        (0x03, _) => Some(ANSI_2),
        (0x04, _) => Some(ANSI_3),
        (0x05, _) => Some(ANSI_4),
        (0x06, _) => Some(ANSI_5),
        (0x07, _) => Some(ANSI_6),
        (0x08, _) => Some(ANSI_7),
        (0x09, _) => Some(ANSI_8),
        (0x0A, _) => Some(ANSI_9),
        (0x0B, _) => Some(ANSI_0),
        (0x0C, _) => Some(ANSI_MINUS),
        (0x0D, _) => Some(ANSI_EQUAL),
        (0x0E, _) => Some(DELETE),  // Backspace
        // Row 2: QWERTY
        (0x0F, _) => Some(TAB),
        (0x10, _) => Some(ANSI_Q),
        (0x11, _) => Some(ANSI_W),
        (0x12, _) => Some(ANSI_E),
        (0x13, _) => Some(ANSI_R),
        (0x14, _) => Some(ANSI_T),
        (0x15, _) => Some(ANSI_Y),
        (0x16, _) => Some(ANSI_U),
        (0x17, _) => Some(ANSI_I),
        (0x18, _) => Some(ANSI_O),
        (0x19, _) => Some(ANSI_P),
        (0x1A, _) => Some(ANSI_LEFT_BRACKET),
        (0x1B, _) => Some(ANSI_RIGHT_BRACKET),
        (0x2B, _) => Some(ANSI_BACKSLASH),
        // Row 3: ASDF
        (0x3A, _) => Some(CAPS_LOCK),
        (0x1E, _) => Some(ANSI_A),
        (0x1F, _) => Some(ANSI_S),
        (0x20, _) => Some(ANSI_D),
        (0x21, _) => Some(ANSI_F),
        (0x22, _) => Some(ANSI_G),
        (0x23, _) => Some(ANSI_H),
        (0x24, _) => Some(ANSI_J),
        (0x25, _) => Some(ANSI_K),
        (0x26, _) => Some(ANSI_L),
        (0x27, _) => Some(ANSI_SEMICOLON),
        (0x28, _) => Some(ANSI_QUOTE),
        (0x1C, false) => Some(RETURN),
        (0x1C, true) => Some(ANSI_KEYPAD_ENTER),
        // Row 4: ZXCV
        (0x2A, _) => Some(SHIFT),
        (0x2C, _) => Some(ANSI_Z),
        (0x2D, _) => Some(ANSI_X),
        (0x2E, _) => Some(ANSI_C),
        (0x2F, _) => Some(ANSI_V),
        (0x30, _) => Some(ANSI_B),
        (0x31, _) => Some(ANSI_N),
        (0x32, _) => Some(ANSI_M),
        (0x33, _) => Some(ANSI_COMMA),
        (0x34, _) => Some(ANSI_PERIOD),
        (0x35, false) => Some(ANSI_SLASH),
        (0x36, _) => Some(RIGHT_SHIFT),
        // Bottom row
        (0x1D, false) => Some(CONTROL),
        (0x1D, true) => Some(RIGHT_CONTROL),
        (0x38, false) => Some(OPTION),  // Left Alt → Option
        (0x38, true) => Some(RIGHT_OPTION),
        (0x39, _) => Some(SPACE),
        (0x5B, _) => Some(COMMAND),  // Left Win → Cmd
        (0x5C, _) => Some(RIGHT_COMMAND),
        // Function keys
        (0x01, _) => Some(ESCAPE),
        (0x3B, _) => Some(F1),
        (0x3C, _) => Some(F2),
        (0x3D, _) => Some(F3),
        (0x3E, _) => Some(F4),
        (0x3F, _) => Some(F5),
        (0x40, _) => Some(F6),
        (0x41, _) => Some(F7),
        (0x42, _) => Some(F8),
        (0x43, _) => Some(F9),
        (0x44, _) => Some(F10),
        (0x57, _) => Some(F11),
        (0x58, _) => Some(F12),
        (0x64, _) => Some(F13),
        (0x65, _) => Some(F14),
        (0x66, _) => Some(F15),
        // Navigation cluster (extended scancodes)
        // 0x47..0x53 without extended bit = numpad; with extended = nav cluster
        (0x47, true) => Some(HOME),
        (0x48, true) => Some(UP_ARROW),
        (0x49, true) => Some(PAGE_UP),
        (0x4B, true) => Some(LEFT_ARROW),
        (0x4D, true) => Some(RIGHT_ARROW),
        (0x4F, true) => Some(END),
        (0x50, true) => Some(DOWN_ARROW),
        (0x51, true) => Some(PAGE_DOWN),
        (0x52, true) => Some(HELP),  // Insert → Help (closest macOS equiv)
        (0x53, true) => Some(FORWARD_DELETE),
        // Numpad (non-extended)
        (0x45, _) => Some(ANSI_KEYPAD_CLEAR),  // Num Lock → Clear
        (0x4A, _) => Some(ANSI_KEYPAD_MINUS),
        (0x37, false) => Some(ANSI_KEYPAD_MULTIPLY),
        (0x35, true) => Some(ANSI_KEYPAD_DIVIDE),
        (0x4E, _) => Some(ANSI_KEYPAD_PLUS),
        (0x4C, _) => Some(ANSI_KEYPAD_ENTER),
        (0x47, false) => Some(ANSI_KEYPAD_7),
        (0x48, false) => Some(ANSI_KEYPAD_8),
        (0x49, false) => Some(ANSI_KEYPAD_9),
        (0x4B, false) => Some(ANSI_KEYPAD_4),
        (0x4D, false) => Some(ANSI_KEYPAD_6),
        (0x4F, false) => Some(ANSI_KEYPAD_1),
        (0x50, false) => Some(ANSI_KEYPAD_2),
        (0x51, false) => Some(ANSI_KEYPAD_3),
        (0x52, false) => Some(ANSI_KEYPAD_0),
        (0x53, false) => Some(ANSI_KEYPAD_DECIMAL),
        // Print Screen / Scroll Lock (no direct macOS equivalent)
        (0x37, true) => Some(F13),  // PrtSc → F13
        (0x46, _) => Some(F16),  // Scroll Lock → F16
        _ => None,
    }
}

/// Every key code is one that macOS has for a key.
pub proof fn law_key_codes_are_virtual_keys(code: u8, extended: bool)
    ensures
        key_for(code, extended) matches Some(k) ==> k < 0x80,
{
}

/// The keys between the letters and the number pad, and the arrows, share their
/// scancodes with the number pad: the extended-key bit tells them apart.
pub proof fn law_number_pad_and_navigation_differ(code: u8)
    requires
        0x47 <= code <= 0x53,
        code != 0x4a && code != 0x4c && code != 0x4e,
    ensures
        key_for(code, true) is Some,
        key_for(code, false) is Some,
        key_for(code, true) != key_for(code, false),
{
}

/// The two tables of key codes agree on every scancode that both have, but for
/// the extended 0x52, which is the help key here and the delete key there.
pub proof fn law_tables_agree(code: u8, extended: bool)
    requires
        !(code == 0x52 && extended),
        cg_key_for(code as u16, extended) is Some,
    ensures
        key_for(code, extended) == cg_key_for(code as u16, extended),
{
}

} // verus!
