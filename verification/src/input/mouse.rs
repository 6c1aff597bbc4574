//! Mouse events of a session.
use crate::input::keyboard::InputError;
use crate::rdp::MouseButton;
use vstd::prelude::*;

verus! {

/// Moves the pointer. Posting has no effect yet.
pub fn move_to(x: u16, y: u16) -> (r: Result<(), InputError>)
    ensures
        r == Ok::<(), InputError>(()),
{
    Ok(())
}

/// Presses or releases a button. Posting has no effect yet.
pub fn click(button: MouseButton, pressed: bool, x: u16, y: u16) -> (r: Result<(), InputError>)
    ensures
        r == Ok::<(), InputError>(()),
{
    Ok(())
}

} // verus!
