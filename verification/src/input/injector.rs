//! Injection of decoded session events.
use crate::input::keyboard::{cg_key_for, is_extended, post, scancode_to_cg, InputError};
use crate::input::mouse::{click, move_to};
use crate::rdp::MouseButton;
use vstd::prelude::*;

verus! {

/// Injects keyboard and mouse events into macOS.
///
/// Required: Accessibility permission (System Settings → Privacy & Security
/// → Accessibility).
#[derive(Debug)]
pub struct InputInjector;

impl InputInjector {
    pub fn new() -> (r: Result<InputInjector, InputError>)
        ensures
            r is Ok,
    {
        match check_accessibility_permission() {
            Ok(()) => Ok(InputInjector),
            Err(e) => Err(e),
        }
    }

    /// Moves the pointer.
    pub fn move_mouse(&self, x: u16, y: u16) -> (r: Result<(), InputError>)
        ensures
            r == Ok::<(), InputError>(()),
    {
        move_to(x, y)
    }

    /// Presses or releases a button.
    pub fn mouse_button(&self, button: MouseButton, pressed: bool, x: u16, y: u16) -> (r: Result<
        (),
        InputError,
    >)
        ensures
            r == Ok::<(), InputError>(()),
    {
        click(button, pressed, x, y)
    }

    /// Injects a key event.
    /// `scancode` is the Windows scancode from the RDP PDU.
    /// `flags` carries extended-key and other RDP modifiers.
    pub fn key_event(&self, scancode: u16, pressed: bool, flags: u16) -> (r: Result<
        (),
        InputError,
    >)
        ensures
            r == match cg_key_for(scancode, is_extended(flags)) {
                Some(_) => Ok::<(), InputError>(()),
                None => Err::<(), InputError>(
                    InputError::UnmappedScancode { scancode, extended: is_extended(flags) },
                ),
            },
    {
        match scancode_to_cg(scancode, flags) {
            Ok(keycode) => post(keycode, pressed),
            Err(e) => Err(e),
        }
    }
}

/// Whether events may be injected. The permission is not queried yet.
pub fn check_accessibility_permission() -> (r: Result<(), InputError>)
    ensures
        r == Ok::<(), InputError>(()),
{
    Ok(())
}

} // verus!
