//! A session: frames go out, input comes in.
use crate::input::injector::InputInjector;
use crate::input::keyboard::{cg_key_for, is_extended, InputError};
use crate::rdp::Event;
use vstd::prelude::*;

verus! {

/// Whether a session goes on.
#[derive(Debug, Clone, Copy, PartialEq, Eq, Structural)]
pub enum SessionStep {
    Continue,
    Finished,
}

/// Passes an event of the client on to the injector. The session ends when the
/// client disconnects, or when an event cannot be injected.
pub fn handle(injector: &InputInjector, event: Event) -> (r: Result<SessionStep, InputError>)
    ensures
        r == match event {
            Event::Disconnect => Ok::<SessionStep, InputError>(SessionStep::Finished),
            Event::Key { scancode, pressed, flags } => match cg_key_for(
                scancode,
                is_extended(flags),
            ) {
                Some(_) => Ok::<SessionStep, InputError>(SessionStep::Continue),
                None => Err::<SessionStep, InputError>(
                    InputError::UnmappedScancode { scancode, extended: is_extended(flags) },
                ),
            },
            _ => Ok::<SessionStep, InputError>(SessionStep::Continue),
        },
{
    let injected: Result<(), InputError> = match event {
        Event::MouseMove { x, y } => injector.move_mouse(x, y),
        Event::MouseButton { button, pressed, x, y } => injector.mouse_button(
            button,
            pressed,
            x,
            y,
        ),
        Event::Key { scancode, pressed, flags } => injector.key_event(scancode, pressed, flags),
        Event::Disconnect => {
            return Ok(SessionStep::Finished);
        },
    };
    match injected {
        Ok(()) => Ok(SessionStep::Continue),
        Err(e) => Err(e),
    }
}

} // verus!
