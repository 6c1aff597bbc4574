//! RDP sessions.
pub mod negotiation;

use vstd::prelude::*;

verus! {

/// Decoded input event from the RDP client.
#[derive(Debug)]
pub enum Event {
    MouseMove { x: u16, y: u16 },
    MouseButton { button: MouseButton, pressed: bool, x: u16, y: u16 },
    Key {
        scancode: u16,
        pressed: bool,
        /// RDP keyboard flags (extended key, etc.)
        flags: u16,
    },
    Disconnect,
}

#[derive(Debug, Clone, Copy, PartialEq, Eq, Structural)]
pub enum MouseButton {
    Left,
    Right,
    Middle,
}

/// An accepted RDP session after negotiation is complete.
pub struct RdpSession<S> {
    pub stream: S,
    pub width: u16,
    pub height: u16,
}

impl<S> RdpSession<S> {
    /// Takes over a stream once the desktop size has been negotiated on it.
    pub fn accept(stream: S) -> (session: Self)
        ensures
            session.stream == stream,
            session.width == 1920,
            session.height == 1080,
    {
        let (width, height) = negotiation::perform(&stream);
        RdpSession { stream, width, height }
    }

    pub fn desktop_width(&self) -> (w: u16)
        ensures
            w == self.width,
    {
        self.width
    }

    pub fn desktop_height(&self) -> (h: u16)
        ensures
            h == self.height,
    {
        self.height
    }
}

} // verus!
