//! Captured frames.
use std::collections::VecDeque;
use vstd::prelude::*;

verus! {

/// A single captured frame: raw BGRA pixels, width × height.
#[derive(Debug)]
pub struct Frame {
    pub data: Vec<u8>,
    pub width: u32,
    pub height: u32,
}

/// Why there is no frame.
#[derive(Debug, Clone, Copy, PartialEq, Eq, Structural)]
pub enum CaptureError {
    /// The capture stream is closed and all of its frames have been taken.
    StreamClosed,
}

impl CaptureError {
    /// The error in words.
    pub fn message(&self) -> (s: String)
        ensures
            s@ == "capture stream closed"@,
    {
        "capture stream closed".to_string()
    }
}

/// The frames of a capture stream that is not fed any more.
#[derive(Debug)]
pub struct SckCapturer {
    pub frames: VecDeque<Frame>,
}

impl SckCapturer {
    /// A capturer without frames: no stream feeds it yet.
    pub fn new() -> (r: Result<SckCapturer, CaptureError>)
        ensures
            r matches Ok(c) && c.frames@ == Seq::<Frame>::empty(),
    {
        match check_screen_recording_permission() {
            Ok(()) => Ok(SckCapturer { frames: VecDeque::new() }),
            Err(e) => Err(e),
        }
    }

    /// The next frame in the order in which frames came.
    pub fn next_frame(&mut self) -> (r: Result<Frame, CaptureError>)
        ensures
            match r {
                Ok(frame) => {
                    &&& old(self).frames@.len() > 0
                    &&& frame == old(self).frames@[0]
                    &&& final(self).frames@ == old(self).frames@.drop_first()
                },
                Err(CaptureError::StreamClosed) => {
                    &&& old(self).frames@.len() == 0
                    &&& final(self).frames@ == old(self).frames@
                },
            },
    {
        let ghost before = self.frames@;
        match self.frames.pop_front() {
            Some(frame) => {
                assert(self.frames@ =~= before.drop_first());
                Ok(frame)
            },
            None => Err(CaptureError::StreamClosed),
        }
    }
}

/// Whether the screen may be recorded. The permission is not queried yet.
pub fn check_screen_recording_permission() -> (r: Result<(), CaptureError>)
    ensures
        r == Ok::<(), CaptureError>(()),
{
    Ok(())
}

/// Screen capturer.
#[derive(Debug)]
pub struct Capturer {
    pub inner: SckCapturer,
}

impl Capturer {
    pub fn new() -> (r: Result<Capturer, CaptureError>)
        ensures
            r matches Ok(c) && c.inner.frames@ == Seq::<Frame>::empty(),
    {
        match SckCapturer::new() {
            Ok(inner) => Ok(Capturer { inner }),
            Err(e) => Err(e),
        }
    }

    /// The next frame from the display.
    pub fn next_frame(&mut self) -> (r: Result<Frame, CaptureError>)
        ensures
            match r {
                Ok(frame) => {
                    &&& old(self).inner.frames@.len() > 0
                    &&& frame == old(self).inner.frames@[0]
                    &&& final(self).inner.frames@ == old(self).inner.frames@.drop_first()
                },
                Err(CaptureError::StreamClosed) => {
                    &&& old(self).inner.frames@.len() == 0
                    &&& final(self).inner.frames@ == old(self).inner.frames@
                },
            },
    {
        self.inner.next_frame()
    }
}

} // verus!
