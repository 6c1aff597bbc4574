//! Windows scancode → macOS key code translation + event posting.
//!
//! Scancode set 1 (used by RDP) maps to macOS virtual keycodes.
use crate::text::{hex2, to_hex2};
use vstd::prelude::*;

verus! {

/// macOS CGKeyCode type alias (u16 in CoreGraphics).
pub type CgKeyCode = u16;

/// Why a key event cannot be injected.
#[derive(Debug, Clone, Copy, PartialEq, Eq, Structural)]
pub enum InputError {
    UnmappedScancode { scancode: u16, extended: bool },
}

/// The text of a truth value.
pub open spec fn bool_text(b: bool) -> Seq<char> {
    if b {
        "true"@
    } else {
        "false"@
    }
}

impl InputError {
    /// The error in words.
    pub fn message(&self) -> (s: String)
        ensures
            match *self {
                InputError::UnmappedScancode { scancode, extended } => s@
                    == "unmapped scancode 0x"@ + hex2(scancode as nat) + " extended="@ + bool_text(
                    extended,
                ),
            },
    {
        match *self {
            InputError::UnmappedScancode { scancode, extended } => {
                let mut s: String = "unmapped scancode 0x".to_string();
                s.append(to_hex2(scancode).as_str());
                s.append(" extended=");
                if extended {
                    s.append("true");
                } else {
                    s.append("false");
                }
                s
            },
        }
    }
}

/// The key code for a scancode, and whether it came with the extended-key bit.
pub open spec fn cg_key_for(scancode: u16, extended: bool) -> Option<u16> {
    match (scancode, extended) {
        // Row 1 – digits
        (0x02, _) => Some(18),  // 1
        (0x03, _) => Some(19),  // 2
        (0x04, _) => Some(20),  // 3
        (0x05, _) => Some(21),  // 4
        (0x06, _) => Some(23),  // 5
        (0x07, _) => Some(22),  // 6
        (0x08, _) => Some(26),  // 7
        (0x09, _) => Some(28),  // 8
        (0x0A, _) => Some(25),  // 9
        (0x0B, _) => Some(29),  // 0
        // Row 2 – QWERTY
        (0x10, _) => Some(12),  // Q
        (0x11, _) => Some(13),  // W
        (0x12, _) => Some(14),  // E
        (0x13, _) => Some(15),  // R
        (0x14, _) => Some(17),  // T
        (0x15, _) => Some(16),  // Y
        (0x16, _) => Some(32),  // U
        (0x17, _) => Some(34),  // I
        (0x18, _) => Some(31),  // O
        (0x19, _) => Some(35),  // P
        // Row 3 – ASDF
        (0x1E, _) => Some(0),  // A
        (0x1F, _) => Some(1),  // S
        (0x20, _) => Some(2),  // D
        (0x21, _) => Some(3),  // F
        (0x22, _) => Some(5),  // G
        (0x23, _) => Some(4),  // H
        (0x24, _) => Some(38),  // J
        (0x25, _) => Some(40),  // K
        (0x26, _) => Some(37),  // L
        // Row 4 – ZXCV
        (0x2C, _) => Some(6),  // Z
        (0x2D, _) => Some(7),  // X
        (0x2E, _) => Some(8),  // C
        (0x2F, _) => Some(9),  // V
        (0x30, _) => Some(11),  // B
        (0x31, _) => Some(45),  // N
        (0x32, _) => Some(46),  // M
        // Control keys
        (0x01, _) => Some(53),  // Escape
        (0x0E, _) => Some(51),  // Backspace
        (0x0F, _) => Some(48),  // Tab
        (0x1C, false) => Some(36),  // Return
        (0x1C, true) => Some(76),  // Numpad Enter
        (0x39, _) => Some(49),  // Space
        (0x2A, _) => Some(56),  // Left Shift
        (0x36, _) => Some(60),  // Right Shift
        (0x1D, false) => Some(59),  // Left Control
        (0x1D, true) => Some(62),  // Right Control
        (0x38, false) => Some(58),  // Left Alt  → Left Option
        (0x38, true) => Some(61),  // Right Alt → Right Option
        (0x5B, _) => Some(55),  // Left Win  → Left Command
        (0x5C, _) => Some(54),  // Right Win → Right Command
        // Navigation
        (0x48, true) => Some(126),  // Up arrow
        (0x50, true) => Some(125),  // Down arrow
        (0x4B, true) => Some(123),  // Left arrow
        (0x4D, true) => Some(124),  // Right arrow
        (0x47, true) => Some(115),  // Home
        (0x4F, true) => Some(119),  // End
        (0x49, true) => Some(116),  // Page Up
        (0x51, true) => Some(121),  // Page Down
        (0x52, true) => Some(117),  // Delete (forward)
        // Function keys
        (0x3B, _) => Some(122),  // F1
        (0x3C, _) => Some(120),  // F2
        (0x3D, _) => Some(99),  // F3
        (0x3E, _) => Some(118),  // F4
        (0x3F, _) => Some(96),  // F5
        (0x40, _) => Some(97),  // F6
        (0x41, _) => Some(98),  // F7
        (0x42, _) => Some(100),  // F8
        (0x43, _) => Some(101),  // F9
        (0x44, _) => Some(109),  // F10
        (0x57, _) => Some(103),  // F11
        (0x58, _) => Some(111),  // F12
        _ => None,
    }
}

/// `flags` holds the extended-key bit (e0 prefix).
pub open spec fn is_extended(flags: u16) -> bool {
    flags & 0x0100 != 0
}

/// Translate an RDP scancode (set 1) to a macOS CGKeyCode.
/// `flags` bit 0x0100 indicates an extended key (e0 prefix).
pub fn scancode_to_cg(scancode: u16, flags: u16) -> (r: Result<CgKeyCode, InputError>)
    ensures
        r == match cg_key_for(scancode, is_extended(flags)) {
            Some(k) => Ok::<CgKeyCode, InputError>(k),
            None => Err::<CgKeyCode, InputError>(
                InputError::UnmappedScancode { scancode, extended: is_extended(flags) },
            ),
        },
{
    let extended: bool = flags & 0x0100 != 0;
    let code: Option<u16> = match (scancode, extended) {
        // Row 1 – digits
        (0x02, _) => Some(18),  // 1
        (0x03, _) => Some(19),  // 2
        (0x04, _) => Some(20),  // 3
        (0x05, _) => Some(21),  // 4
        (0x06, _) => Some(23),  // 5
        (0x07, _) => Some(22),  // 6
        (0x08, _) => Some(26),  // 7
        (0x09, _) => Some(28),  // 8
        (0x0A, _) => Some(25),  // 9
        (0x0B, _) => Some(29),  // 0
        // Row 2 – QWERTY
        (0x10, _) => Some(12),  // Q
        (0x11, _) => Some(13),  // W
        (0x12, _) => Some(14),  // E
        (0x13, _) => Some(15),  // R
        (0x14, _) => Some(17),  // T
        (0x15, _) => Some(16),  // Y
        (0x16, _) => Some(32),  // U
        (0x17, _) => Some(34),  // I
        (0x18, _) => Some(31),  // O
        (0x19, _) => Some(35),  // P
        // Row 3 – ASDF
        (0x1E, _) => Some(0),  // A
        (0x1F, _) => Some(1),  // S
        (0x20, _) => Some(2),  // D
        (0x21, _) => Some(3),  // F
        (0x22, _) => Some(5),  // G
        (0x23, _) => Some(4),  // H
        (0x24, _) => Some(38),  // J
        (0x25, _) => Some(40),  // K
        (0x26, _) => Some(37),  // L
        // Row 4 – ZXCV
        (0x2C, _) => Some(6),  // Z
        (0x2D, _) => Some(7),  // X
        (0x2E, _) => Some(8),  // C
        (0x2F, _) => Some(9),  // V
        (0x30, _) => Some(11),  // B
        (0x31, _) => Some(45),  // N
        (0x32, _) => Some(46),  // M
        // Control keys
        (0x01, _) => Some(53),  // Escape
        (0x0E, _) => Some(51),  // Backspace
        (0x0F, _) => Some(48),  // Tab
        (0x1C, false) => Some(36),  // Return
        (0x1C, true) => Some(76),  // Numpad Enter
        (0x39, _) => Some(49),  // Space
        (0x2A, _) => Some(56),  // Left Shift
        (0x36, _) => Some(60),  // Right Shift
        (0x1D, false) => Some(59),  // Left Control
        (0x1D, true) => Some(62),  // Right Control
        (0x38, false) => Some(58),  // Left Alt  → Left Option
        (0x38, true) => Some(61),  // Right Alt → Right Option
        (0x5B, _) => Some(55),  // Left Win  → Left Command
        (0x5C, _) => Some(54),  // Right Win → Right Command
        // Navigation
        (0x48, true) => Some(126),  // Up arrow
        (0x50, true) => Some(125),  // Down arrow
        (0x4B, true) => Some(123),  // Left arrow
        (0x4D, true) => Some(124),  // Right arrow
        (0x47, true) => Some(115),  // Home
        (0x4F, true) => Some(119),  // End
        (0x49, true) => Some(116),  // Page Up
        (0x51, true) => Some(121),  // Page Down
        (0x52, true) => Some(117),  // Delete (forward)
        // Function keys
        (0x3B, _) => Some(122),  // F1
        (0x3C, _) => Some(120),  // F2
        (0x3D, _) => Some(99),  // F3
        (0x3E, _) => Some(118),  // F4
        (0x3F, _) => Some(96),  // F5
        (0x40, _) => Some(97),  // F6
        (0x41, _) => Some(98),  // F7
        (0x42, _) => Some(100),  // F8
        (0x43, _) => Some(101),  // F9
        (0x44, _) => Some(109),  // F10
        (0x57, _) => Some(103),  // F11
        (0x58, _) => Some(111),  // F12
        _ => None,
    };
    match code {
        Some(k) => Ok(k),
        None => Err(InputError::UnmappedScancode { scancode, extended }),
    }
}

/// Posts a key event. Posting has no effect yet.
pub fn post(keycode: CgKeyCode, pressed: bool) -> (r: Result<(), InputError>)
    ensures
        r == Ok::<(), InputError>(()),
{
    Ok(())
}

/// A key is extended exactly where the ninth of its flags is set.
pub proof fn law_extended_flag(flags: u16)
    ensures
        is_extended(flags) <==> flags / 256 % 2 == 1,
{
    assert((flags & 0x0100 != 0) == (flags / 256 % 2 == 1)) by (bit_vector);
}

/// The text of a truth value tells it.
pub proof fn law_bool_text(b: bool)
    ensures
        bool_text(b) == (if b {
            seq!['t', 'r', 'u', 'e']
        } else {
            seq!['f', 'a', 'l', 's', 'e']
        }),
{
    reveal_strlit("true");
    reveal_strlit("false");
    assert("true"@ =~= seq!['t', 'r', 'u', 'e']);
    assert("false"@ =~= seq!['f', 'a', 'l', 's', 'e']);
}

} // verus!
