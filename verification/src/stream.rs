//! The stream of display updates.
//!
//! Capturing the screen, waiting and encoding are done by the caller. The
//! stream decides what is to be done next: each [`UpdateAction`] that it asks
//! for is answered with an [`UpdateEvent`].
use crate::display::{CaptureMode, StreamPlan};
use crate::frame_pipeline::{after_push, can_push, BgraFramePipeline, PipelineView};
use crate::h264::{delivered, new_encoder, Delivery, H264Frame, VtH264Encoder};
use crate::letterbox::Picture;
use crate::pixels::contents;
use crate::update::{Avc420Update, BitmapView, DesktopSize, DisplayUpdate};
use vstd::prelude::*;

verus! {

/// Which capture backend to use for screen capture.
#[derive(Debug, Clone, Copy, PartialEq, Eq, Structural)]
pub enum CaptureSource {
    /// A capture stream — the preferred backend when no mode switch has occurred.
    Sckit,
    /// Images of the display — used after a mode switch. Polls the display at
    /// the target FPS.
    CGDisplay,
}

/// What came of recreating the capture stream and the encoder.
#[derive(Debug, Clone, Copy, PartialEq, Eq, Structural)]
pub enum Recreation {
    /// There is no new stream; the old one stays.
    StreamFailed,
    /// There is a new stream but no new encoder; the old one stays.
    EncoderFailed,
    Done,
}

/// What has happened.
#[derive(Debug)]
pub enum UpdateEvent<'a> {
    /// The next update is wanted. `resize` is a new desktop size that the stream
    /// has not been told yet; `avc420` says whether the client takes H.264.
    Poll { resize: Option<DesktopSize>, avc420: bool },
    /// The time for the next frame has come.
    Tick { avc420: bool },
    /// The capture stream has ended.
    SampleEnded,
    /// The capture stream delivered a sample without an image.
    SampleEmpty,
    /// The capture stream delivered an image.
    SampleImage { width: usize, height: usize },
    /// The stream was to be recreated.
    Recreated { size: DesktopSize, outcome: Recreation, stalled: bool },
    /// The image at hand is to be processed.
    Frame { avc420: bool },
    /// The pixels of the image cannot be reached.
    LockFailed { code: i32 },
    /// The pixels of an image.
    Pixels { data: &'a [u8], width: usize, height: usize, stride: usize },
    /// The display could not be captured.
    NoPixels,
    /// The display was, or was not, captured into a pixel buffer.
    PixelBuffer { captured: bool },
    /// Whether a keyframe is asked for.
    Keyframe { forced: bool },
    /// The encoder was, or was not, replaced.
    EncoderReplaced { ok: bool },
    /// The image is locked for the encoder.
    Locked,
    /// The encoder's answer to the image.
    Submitted { status: i32 },
    /// What the encoder made of the image.
    Encoded(Delivery),
}

/// What is to be done next.
#[derive(Debug)]
pub enum UpdateAction {
    /// Hand out an update, or end the stream.
    Return(Option<DisplayUpdate>),
    /// Fail because the pixels of an image cannot be reached.
    Fail { code: i32 },
    /// Look for a new desktop size, then go on.
    Poll,
    /// Wait until the next frame is due.
    Tick,
    /// Wait for the next sample of the capture stream.
    NextSample,
    /// Recreate the capture stream and, in H.264 mode, the encoder.
    RecreateStream { size: DesktopSize, stalled: bool },
    /// Process the image at hand.
    InspectFrame,
    /// Lock the image and hand over its pixels.
    LockForPixels,
    /// Capture the display and hand over its pixels.
    CapturePixels,
    /// Capture the display into a pixel buffer.
    CapturePixelBuffer,
    /// Find out whether a keyframe is asked for.
    CheckKeyframe,
    /// Replace the encoder by a new one, which starts with a keyframe. The
    /// request for a keyframe is then met.
    ReplaceEncoder { width: u16, height: u16 },
    /// Lock the image for the encoder.
    LockForEncoder,
    /// Hand the image to the encoder.
    Submit,
    /// Wait for the encoded frame.
    AwaitFrame,
}

/// The mathematical content of an update.
pub enum UpdateView {
    Resize(DesktopSize),
    Bitmap(BitmapView),
    Avc420 { data: Seq<u8>, width: u16, height: u16, is_keyframe: bool },
}

/// The mathematical content of an event.
pub enum EventView {
    Poll { resize: Option<DesktopSize>, avc420: bool },
    Tick { avc420: bool },
    SampleEnded,
    SampleEmpty,
    SampleImage { width: usize, height: usize },
    Recreated { size: DesktopSize, outcome: Recreation, stalled: bool },
    Frame { avc420: bool },
    LockFailed { code: i32 },
    Pixels(Picture),
    NoPixels,
    PixelBuffer { captured: bool },
    Keyframe { forced: bool },
    EncoderReplaced { ok: bool },
    Locked,
    Submitted { status: i32 },
    /// The bytes of a frame and whether it is a keyframe.
    Encoded(Option<(Seq<u8>, bool)>),
}

/// The mathematical content of an action.
pub enum ActionView {
    Return(Option<UpdateView>),
    Fail { code: i32 },
    Poll,
    Tick,
    NextSample,
    RecreateStream { size: DesktopSize, stalled: bool },
    InspectFrame,
    LockForPixels,
    CapturePixels,
    CapturePixelBuffer,
    CheckKeyframe,
    ReplaceEncoder { width: u16, height: u16 },
    LockForEncoder,
    Submit,
    AwaitFrame,
}

pub open spec fn update_view(u: DisplayUpdate) -> UpdateView {
    match u {
        DisplayUpdate::Resize(size) => UpdateView::Resize(size),
        DisplayUpdate::Bitmap(b) => UpdateView::Bitmap(b@),
        DisplayUpdate::Avc420(a) => UpdateView::Avc420 {
            data: a.data@,
            width: a.width,
            height: a.height,
            is_keyframe: a.is_keyframe,
        },
    }
}

impl<'a> UpdateEvent<'a> {
    pub open spec fn view(&self) -> EventView {
        match *self {
            UpdateEvent::Poll { resize, avc420 } => EventView::Poll { resize, avc420 },
            UpdateEvent::Tick { avc420 } => EventView::Tick { avc420 },
            UpdateEvent::SampleEnded => EventView::SampleEnded,
            UpdateEvent::SampleEmpty => EventView::SampleEmpty,
            UpdateEvent::SampleImage { width, height } => EventView::SampleImage { width, height },
            UpdateEvent::Recreated { size, outcome, stalled } => EventView::Recreated {
                size,
                outcome,
                stalled,
            },
            UpdateEvent::Frame { avc420 } => EventView::Frame { avc420 },
            UpdateEvent::LockFailed { code } => EventView::LockFailed { code },
            UpdateEvent::Pixels { data, width, height, stride } => EventView::Pixels(
                Picture {
                    data: data@,
                    width: width as nat,
                    height: height as nat,
                    stride: stride as nat,
                },
            ),
            UpdateEvent::NoPixels => EventView::NoPixels,
            UpdateEvent::PixelBuffer { captured } => EventView::PixelBuffer { captured },
            UpdateEvent::Keyframe { forced } => EventView::Keyframe { forced },
            UpdateEvent::EncoderReplaced { ok } => EventView::EncoderReplaced { ok },
            UpdateEvent::Locked => EventView::Locked,
            UpdateEvent::Submitted { status } => EventView::Submitted { status },
            UpdateEvent::Encoded(Delivery::Delivered(e)) => EventView::Encoded(
                Some((e.data@, e.is_keyframe)),
            ),
            UpdateEvent::Encoded(_) => EventView::Encoded(None),
        }
    }
}

impl UpdateAction {
    pub open spec fn view(&self) -> ActionView {
        match *self {
            UpdateAction::Return(None) => ActionView::Return(None),
            UpdateAction::Return(Some(u)) => ActionView::Return(Some(update_view(u))),
            UpdateAction::Fail { code } => ActionView::Fail { code },
            UpdateAction::Poll => ActionView::Poll,
            UpdateAction::Tick => ActionView::Tick,
            UpdateAction::NextSample => ActionView::NextSample,
            UpdateAction::RecreateStream { size, stalled } => ActionView::RecreateStream {
                size,
                stalled,
            },
            UpdateAction::InspectFrame => ActionView::InspectFrame,
            UpdateAction::LockForPixels => ActionView::LockForPixels,
            UpdateAction::CapturePixels => ActionView::CapturePixels,
            UpdateAction::CapturePixelBuffer => ActionView::CapturePixelBuffer,
            UpdateAction::CheckKeyframe => ActionView::CheckKeyframe,
            UpdateAction::ReplaceEncoder { width, height } => ActionView::ReplaceEncoder {
                width,
                height,
            },
            UpdateAction::LockForEncoder => ActionView::LockForEncoder,
            UpdateAction::Submit => ActionView::Submit,
            UpdateAction::AwaitFrame => ActionView::AwaitFrame,
        }
    }
}

/// A stream of display updates for one connection.
pub struct MacDisplayUpdates {
    /// The capture backend.
    pub capture: CaptureSource,
    /// The size of the capture stream (typically the display resolution).
    pub stream_size: DesktopSize,
    /// The desktop size reported to the RDP client.
    /// In Fit mode: the client's requested dimensions.
    /// In Native mode: the aspect-ratio-adjusted dimensions.
    pub target_size: DesktopSize,
    pub mode: CaptureMode,
    pub bgra_pipeline: BgraFramePipeline,
    /// H.264 encoder (only for H264 mode).
    pub h264_encoder: Option<VtH264Encoder>,
    /// Samples without an image in a row.
    pub missed_frames: u32,
    pub target_fps: u32,
}

/// The mathematical content of a [`MacDisplayUpdates`].
#[verifier::ext_equal]
pub struct StreamView {
    pub capture: CaptureSource,
    pub stream_size: DesktopSize,
    pub target_size: DesktopSize,
    pub mode: CaptureMode,
    pub pipeline: PipelineView,
    pub encoder: Option<VtH264Encoder>,
    pub missed_frames: int,
    pub target_fps: u32,
}

/// The number of samples without an image after which a stream counts as
/// stalled.
pub const STALLED_AFTER: u32 = 30;

/// Frames are sent as bitmaps.
pub open spec fn sends_bitmaps(s: StreamView, avc420: bool) -> bool {
    s.mode == CaptureMode::Bgra || !avc420
}

/// Hands out the oldest queued update, or does something else.
pub open spec fn drained(s: StreamView, otherwise: ActionView) -> (StreamView, ActionView) {
    if s.pipeline.pending.len() > 0 {
        (
            StreamView {
                pipeline: PipelineView {
                    pending: s.pipeline.pending.drop_first(),
                    ..s.pipeline
                },
                ..s
            },
            ActionView::Return(Some(UpdateView::Bitmap(s.pipeline.pending[0]))),
        )
    } else {
        (s, otherwise)
    }
}

/// Hands the image to the encoder, unless there is none or it is busy.
pub open spec fn submitting(s: StreamView) -> (StreamView, ActionView) {
    match s.encoder {
        Some(e) if !e.encoding => (
            StreamView {
                encoder: Some(
                    VtH264Encoder {
                        encoding: true,
                        frame_index: (e.frame_index + 1) as i64,
                        ..e
                    },
                ),
                ..s
            },
            ActionView::Submit,
        ),
        _ => (s, ActionView::Poll),
    }
}

/// The image is to be encoded: a sample of a capture stream is locked first.
pub open spec fn encoding_next(s: StreamView) -> (StreamView, ActionView) {
    match s.capture {
        CaptureSource::Sckit => (s, ActionView::LockForEncoder),
        CaptureSource::CGDisplay => submitting(s),
    }
}

/// The stream at a new size.
pub open spec fn recreated(s: StreamView, size: DesktopSize, outcome: Recreation) -> StreamView {
    match outcome {
        Recreation::StreamFailed => s,
        Recreation::EncoderFailed => StreamView { stream_size: size, ..s },
        Recreation::Done => StreamView {
            stream_size: size,
            encoder: if s.mode == CaptureMode::H264 {
                Some(new_encoder(size.width, size.height))
            } else {
                s.encoder
            },
            pipeline: PipelineView { prev: None, pending: seq![], ..s.pipeline },
            ..s
        },
    }
}

/// What an event does to the stream, and what is to be done next.
pub open spec fn next_step(s: StreamView, event: EventView) -> (StreamView, ActionView) {
    match event {
        EventView::Poll { resize, avc420 } => match resize {
            Some(size) => {
                let t = StreamView {
                    target_size: size,
                    pipeline: PipelineView { target_size: size, ..s.pipeline },
                    ..s
                };
                if sends_bitmaps(s, avc420) {
                    (t, ActionView::Return(Some(UpdateView::Resize(size))))
                } else {
                    drained(t, ActionView::Tick)
                }
            },
            None => drained(s, ActionView::Tick),
        },
        EventView::Tick { avc420 } => (
            s,
            if s.capture == CaptureSource::Sckit {
                ActionView::NextSample
            } else if sends_bitmaps(s, avc420) {
                ActionView::CapturePixels
            } else {
                ActionView::CapturePixelBuffer
            },
        ),
        EventView::SampleEnded => (s, ActionView::Return(None)),
        EventView::SampleEmpty => {
            let t = StreamView { missed_frames: s.missed_frames + 1, ..s };
            if t.missed_frames >= STALLED_AFTER {
                (t, ActionView::RecreateStream { size: s.stream_size, stalled: true })
            } else {
                (t, ActionView::Poll)
            }
        },
        EventView::SampleImage { width, height } => {
            let t = StreamView { missed_frames: 0, ..s };
            let size = DesktopSize { width: width as u16, height: height as u16 };
            if size != s.stream_size {
                (t, ActionView::RecreateStream { size, stalled: false })
            } else {
                (t, ActionView::InspectFrame)
            }
        },
        EventView::Recreated { size, outcome, stalled } => {
            let t = recreated(s, size, outcome);
            let ok = outcome == Recreation::Done;
            if stalled {
                if ok {
                    (StreamView { missed_frames: 0, ..t }, ActionView::Poll)
                } else {
                    (t, ActionView::Poll)
                }
            } else {
                (
                    t,
                    if ok {
                        ActionView::InspectFrame
                    } else {
                        ActionView::Poll
                    },
                )
            }
        },
        EventView::Frame { avc420 } => (
            s,
            if sends_bitmaps(s, avc420) {
                ActionView::LockForPixels
            } else if s.encoder is None {
                ActionView::Poll
            } else {
                ActionView::CheckKeyframe
            },
        ),
        EventView::LockFailed { code } => (s, ActionView::Fail { code }),
        EventView::Pixels(frame) => drained(
            StreamView { pipeline: after_push(s.pipeline, frame), ..s },
            ActionView::Poll,
        ),
        EventView::NoPixels => (s, ActionView::Poll),
        EventView::PixelBuffer { captured } => (
            s,
            if captured && s.encoder is Some {
                ActionView::CheckKeyframe
            } else {
                ActionView::CapturePixels
            },
        ),
        EventView::Keyframe { forced } => match s.encoder {
            Some(e) if forced => (
                s,
                ActionView::ReplaceEncoder { width: e.width, height: e.height },
            ),
            _ => encoding_next(s),
        },
        EventView::EncoderReplaced { ok } => match s.encoder {
            Some(e) if ok => encoding_next(
                StreamView { encoder: Some(new_encoder(e.width, e.height)), ..s },
            ),
            _ => encoding_next(s),
        },
        EventView::Locked => submitting(s),
        EventView::Submitted { status } => {
            if status == 0 {
                (s, ActionView::AwaitFrame)
            } else {
                (
                    StreamView {
                        encoder: match s.encoder {
                            Some(e) => Some(VtH264Encoder { encoding: false, ..e }),
                            None => None,
                        },
                        ..s
                    },
                    if s.capture == CaptureSource::CGDisplay {
                        ActionView::CapturePixels
                    } else {
                        ActionView::Poll
                    },
                )
            }
        },
        EventView::Encoded(frame) => match s.encoder {
            None => (s, ActionView::Poll),
            Some(e) => match frame {
                Some((data, is_keyframe)) if data.len() > 0 => (
                    StreamView {
                        encoder: Some(
                            VtH264Encoder {
                                encoding: false,
                                frame_id: (e.frame_id + 1) as u32,
                                ..e
                            },
                        ),
                        ..s
                    },
                    ActionView::Return(
                        Some(
                            UpdateView::Avc420 {
                                data,
                                width: e.width,
                                height: e.height,
                                is_keyframe,
                            },
                        ),
                    ),
                ),
                _ => (
                    StreamView { encoder: Some(VtH264Encoder { encoding: false, ..e }), ..s },
                    ActionView::Poll,
                ),
            },
        },
    }
}

/// The event can be processed: the frame can be pushed, and no counter is at
/// its end.
pub open spec fn can_step(s: StreamView, event: EventView) -> bool {
    &&& event is SampleEmpty ==> s.missed_frames < u32::MAX
    &&& event matches EventView::Pixels(frame) ==> can_push(s.pipeline, frame)
    &&& (event is Keyframe || event is EncoderReplaced || event is Locked) ==> (
    s.encoder matches Some(e) ==> e.encoding || e.frame_index < i64::MAX)
    &&& event matches EventView::Encoded(Some((data, _))) ==> (data.len() > 0 ==> (
    s.encoder matches Some(e) ==> e.frame_id < u32::MAX))
}

impl MacDisplayUpdates {
    pub open spec fn view(&self) -> StreamView {
        StreamView {
            capture: self.capture,
            stream_size: self.stream_size,
            target_size: self.target_size,
            mode: self.mode,
            pipeline: self.bgra_pipeline@,
            encoder: self.h264_encoder,
            missed_frames: self.missed_frames as int,
            target_fps: self.target_fps,
        }
    }

    /// A new stream, once the capture stream and, in H.264 mode, the encoder
    /// are there.
    pub fn start(plan: StreamPlan) -> (updates: Self)
        ensures
            updates@ == (StreamView {
                capture: if plan.use_cgdisplay {
                    CaptureSource::CGDisplay
                } else {
                    CaptureSource::Sckit
                },
                stream_size: plan.stream_size,
                target_size: plan.target_size,
                mode: plan.mode,
                pipeline: PipelineView {
                    target_size: plan.target_size,
                    aspect_mode: plan.aspect_mode,
                    prev: None,
                    pending: seq![],
                },
                encoder: if plan.mode == CaptureMode::H264 {
                    Some(new_encoder(plan.stream_size.width, plan.stream_size.height))
                } else {
                    None
                },
                missed_frames: 0,
                target_fps: plan.target_fps,
            }),
    {
        let h264_encoder: Option<VtH264Encoder> = match plan.mode {
            CaptureMode::H264 => Some(fresh_encoder(plan.stream_size)),
            CaptureMode::Bgra => None,
        };
        MacDisplayUpdates {
            capture: if plan.use_cgdisplay {
                CaptureSource::CGDisplay
            } else {
                CaptureSource::Sckit
            },
            stream_size: plan.stream_size,
            target_size: plan.target_size,
            mode: plan.mode,
            bgra_pipeline: BgraFramePipeline::new(plan.target_size, plan.aspect_mode),
            h264_encoder,
            missed_frames: 0,
            target_fps: plan.target_fps,
        }
    }

    fn sends_bitmaps(&self, avc420: bool) -> (r: bool)
        ensures
            r == sends_bitmaps(self@, avc420),
    {
        self.mode == CaptureMode::Bgra || !avc420
    }

    fn drain(&mut self, otherwise: UpdateAction) -> (action: UpdateAction)
        ensures
            (final(self)@, action@) == drained(old(self)@, otherwise@),
    {
        match self.bgra_pipeline.pop_update() {
            Some(update) => UpdateAction::Return(Some(update)),
            None => otherwise,
        }
    }

    fn submit(&mut self) -> (action: UpdateAction)
        requires
            old(self).h264_encoder matches Some(e) ==> e.encoding || e.frame_index < i64::MAX,
        ensures
            (final(self)@, action@) == submitting(old(self)@),
    {
        match self.h264_encoder {
            Some(e) => {
                let mut encoder: VtH264Encoder = e;
                if encoder.begin_encode() {
                    self.h264_encoder = Some(encoder);
                    UpdateAction::Submit
                } else {
                    UpdateAction::Poll
                }
            },
            None => UpdateAction::Poll,
        }
    }

    fn encode_next(&mut self) -> (action: UpdateAction)
        requires
            old(self).h264_encoder matches Some(e) ==> e.encoding || e.frame_index < i64::MAX,
        ensures
            (final(self)@, action@) == encoding_next(old(self)@),
    {
        match self.capture {
            CaptureSource::Sckit => UpdateAction::LockForEncoder,
            CaptureSource::CGDisplay => self.submit(),
        }
    }

    /// Recreate the stream and encoder at a new resolution.
    fn recreate_stream(&mut self, size: DesktopSize, outcome: Recreation)
        ensures
            final(self)@ == recreated(old(self)@, size, outcome),
    {
        match outcome {
            Recreation::StreamFailed => {},
            Recreation::EncoderFailed => {
                self.stream_size = size;
            },
            Recreation::Done => {
                self.stream_size = size;
                if self.mode == CaptureMode::H264 {
                    self.h264_encoder = Some(fresh_encoder(size));
                }
                self.bgra_pipeline.reset();
            },
        }
    }

    fn sample_arrived(&mut self, width: usize, height: usize) -> (action: UpdateAction)
        ensures
            (final(self)@, action@) == next_step(
                old(self)@,
                EventView::SampleImage { width, height },
            ),
    {
        self.missed_frames = 0;
        let frame_w: u16 = width as u16;
        let frame_h: u16 = height as u16;
        if frame_w != self.stream_size.width || frame_h != self.stream_size.height {
            UpdateAction::RecreateStream {
                size: DesktopSize { width: frame_w, height: frame_h },
                stalled: false,
            }
        } else {
            UpdateAction::InspectFrame
        }
    }

    fn frame_encoded(&mut self, delivery: Delivery) -> (action: UpdateAction)
        requires
            delivered(delivery) matches Some((data, _)) ==> (data.len() > 0 ==> (
            old(self).h264_encoder matches Some(e) ==> e.frame_id < u32::MAX)),
        ensures
            (final(self)@, action@) == next_step(
                old(self)@,
                UpdateEvent::Encoded(delivery)@,
            ),
    {
        match self.h264_encoder {
            None => UpdateAction::Poll,
            Some(e) => {
                let mut encoder: VtH264Encoder = e;
                let frame: Option<H264Frame> = encoder.finish_encode(delivery);
                self.h264_encoder = Some(encoder);
                match frame {
                    Some(H264Frame { frame_id: _, data, is_keyframe, width, height }) => {
                        UpdateAction::Return(
                            Some(
                                DisplayUpdate::Avc420(
                                    Avc420Update { data, width, height, is_keyframe },
                                ),
                            ),
                        )
                    },
                    None => UpdateAction::Poll,
                }
            },
        }
    }

    /// Takes note of what has happened and decides what is to be done next on
    /// the way to the next update. Each update starts with a poll.
    pub fn next_update(&mut self, event: UpdateEvent) -> (action: UpdateAction)
        requires
            can_step(old(self)@, event@),
        ensures
            (final(self)@, action@) == next_step(old(self)@, event@),
            event matches UpdateEvent::Encoded(Delivery::Delivered(frame)) ==> (
            old(self).h264_encoder matches Some(e) ==> (frame.data@.len() > 0 ==> (
            action matches UpdateAction::Return(Some(DisplayUpdate::Avc420(update))) && {
                &&& update.data@ == frame.data@
                &&& update.is_keyframe == frame.is_keyframe
                &&& update.width == e.width
                &&& update.height == e.height
            }))),
            event matches UpdateEvent::Poll { resize: Some(size), avc420 }
                ==> final(self).target_size == size,
    {
        match event {
            UpdateEvent::Poll { resize, avc420 } => {
                if let Some(size) = resize {
                    self.target_size = size;
                    self.bgra_pipeline.set_target(size);
                    if self.sends_bitmaps(avc420) {
                        return UpdateAction::Return(Some(DisplayUpdate::Resize(size)));
                    }
                    // In H264 mode the graphics surface is resized in place.
                }
                self.drain(UpdateAction::Tick)
            },
            UpdateEvent::Tick { avc420 } => match self.capture {
                CaptureSource::Sckit => UpdateAction::NextSample,
                CaptureSource::CGDisplay => {
                    if self.sends_bitmaps(avc420) {
                        UpdateAction::CapturePixels
                    } else {
                        UpdateAction::CapturePixelBuffer
                    }
                },
            },
            UpdateEvent::SampleEnded => UpdateAction::Return(None),
            UpdateEvent::SampleEmpty => {
                self.missed_frames += 1;
                if self.missed_frames >= STALLED_AFTER {
                    UpdateAction::RecreateStream { size: self.stream_size, stalled: true }
                } else {
                    UpdateAction::Poll
                }
            },
            UpdateEvent::SampleImage { width, height } => self.sample_arrived(width, height),
            UpdateEvent::Recreated { size, outcome, stalled } => {
                self.recreate_stream(size, outcome);
                let ok: bool = outcome == Recreation::Done;
                if stalled {
                    if ok {
                        self.missed_frames = 0;
                    }
                    UpdateAction::Poll
                } else if ok {
                    UpdateAction::InspectFrame
                } else {
                    UpdateAction::Poll
                }
            },
            UpdateEvent::Frame { avc420 } => {
                if self.sends_bitmaps(avc420) {
                    UpdateAction::LockForPixels
                } else if self.h264_encoder.is_none() {
                    UpdateAction::Poll
                } else {
                    UpdateAction::CheckKeyframe
                }
            },
            UpdateEvent::LockFailed { code } => UpdateAction::Fail { code },
            UpdateEvent::Pixels { data, width, height, stride } => {
                self.bgra_pipeline.push_frame(data, width, height, stride);
                self.drain(UpdateAction::Poll)
            },
            UpdateEvent::NoPixels => UpdateAction::Poll,
            UpdateEvent::PixelBuffer { captured } => {
                if captured && self.h264_encoder.is_some() {
                    UpdateAction::CheckKeyframe
                } else {
                    // Capture or encoder not available, fall back to BGRA.
                    UpdateAction::CapturePixels
                }
            },
            UpdateEvent::Keyframe { forced } => {
                if forced {
                    if let Some(encoder) = self.h264_encoder {
                        // A new session always produces a keyframe first.
                        return UpdateAction::ReplaceEncoder {
                            width: encoder.width(),
                            height: encoder.height(),
                        };
                    }
                }
                self.encode_next()
            },
            UpdateEvent::EncoderReplaced { ok } => {
                if ok {
                    if let Some(encoder) = self.h264_encoder {
                        self.h264_encoder = Some(
                            fresh_encoder(
                                DesktopSize { width: encoder.width, height: encoder.height },
                            ),
                        );
                    }
                }
                self.encode_next()
            },
            UpdateEvent::Locked => self.submit(),
            UpdateEvent::Submitted { status } => {
                if status == 0 {
                    return UpdateAction::AwaitFrame;
                }
                if let Some(e) = self.h264_encoder {
                    let mut encoder: VtH264Encoder = e;
                    let _ = encoder.submitted(status);
                    self.h264_encoder = Some(encoder);
                }
                match self.capture {
                    CaptureSource::CGDisplay => UpdateAction::CapturePixels,
                    CaptureSource::Sckit => UpdateAction::Poll,
                }
            },
            UpdateEvent::Encoded(delivery) => self.frame_encoded(delivery),
        }
    }
}

fn fresh_encoder(size: DesktopSize) -> (e: VtH264Encoder)
    ensures
        e == new_encoder(size.width, size.height),
{
    VtH264Encoder {
        width: size.width,
        height: size.height,
        frame_id: 0,
        frame_index: 0,
        encoding: false,
    }
}

/// The time between two frames, in milliseconds.
pub fn frame_interval_ms(target_fps: u32) -> (ms: u64)
    requires
        0 < target_fps <= 1000,
    ensures
        ms == 1000int / target_fps as int,
        ms > 0,
{
    proof {
        assert(1000int / target_fps as int >= 1) by (nonlinear_arith)
            requires
                0 < target_fps <= 1000,
        ;
    }
    1000 / target_fps as u64
}

/// Pixel formats that a capture stream delivers.
#[derive(Debug, Clone, Copy, PartialEq, Eq, Structural)]
pub enum StreamFormat {
    Bgra,
    YCbCr420v,
}

/// How a capture stream is configured.
#[derive(Debug, Clone, Copy, PartialEq, Eq, Structural)]
pub struct StreamConfig {
    pub width: u32,
    pub height: u32,
    pub format: StreamFormat,
    pub shows_cursor: bool,
    pub fps: u32,
    /// The number of samples that are kept for us.
    pub buffer_capacity: usize,
}

/// The configuration of a capture stream.
pub fn stream_config(width: u16, height: u16, mode: CaptureMode, target_fps: u32) -> (c:
    StreamConfig)
    ensures
        c == (StreamConfig {
            width: width as u32,
            height: height as u32,
            format: match mode {
                CaptureMode::Bgra => StreamFormat::Bgra,
                CaptureMode::H264 => StreamFormat::YCbCr420v,
            },
            shows_cursor: true,
            fps: target_fps,
            buffer_capacity: 2,
        }),
{
    StreamConfig {
        width: width as u32,
        height: height as u32,
        format: match mode {
            CaptureMode::Bgra => StreamFormat::Bgra,
            CaptureMode::H264 => StreamFormat::YCbCr420v,
        },
        shows_cursor: true,
        fps: target_fps,
        buffer_capacity: 2,
    }
}

/// How often the creation of a capture stream is attempted.
pub const MAX_ATTEMPTS: u32 = 3;

/// The seconds to wait before the creation of a capture stream is attempted
/// again after the given attempt has failed; `None` to give up.
pub fn retry_delay(attempt: u32) -> (secs: Option<u64>)
    ensures
        secs == (if attempt < MAX_ATTEMPTS {
            Some(attempt as u64)
        } else {
            None
        }),
{
    if attempt < MAX_ATTEMPTS {
        Some(attempt as u64)
    } else {
        None
    }
}

/// A new desktop size goes before anything that is queued where frames are sent
/// as bitmaps, and nothing queued is lost.
pub proof fn law_resize_comes_first(s: StreamView, size: DesktopSize, avc420: bool)
    requires
        sends_bitmaps(s, avc420),
    ensures
        ({
            let (t, action) = next_step(s, EventView::Poll { resize: Some(size), avc420 });
            &&& action == ActionView::Return(Some(UpdateView::Resize(size)))
            &&& t.pipeline.pending == s.pipeline.pending
            &&& t.target_size == size
            &&& t.pipeline.target_size == size
        }),
{
}

/// Where the client takes H.264, a new desktop size is not announced: the
/// client would drop its channels.
pub proof fn law_h264_resize_is_silent(s: StreamView, size: DesktopSize)
    requires
        s.mode == CaptureMode::H264,
    ensures
        next_step(s, EventView::Poll { resize: Some(size), avc420: true }).1
            != ActionView::Return(Some(UpdateView::Resize(size))),
{
}

/// What was chosen when the stream was started stays: the backend, the mode and
/// the frame rate. A stream of bitmaps has no encoder at any time.
pub proof fn law_stream_keeps_its_kind(s: StreamView, event: EventView)
    ensures
        ({
            let t = next_step(s, event).0;
            &&& t.capture == s.capture
            &&& t.mode == s.mode
            &&& t.target_fps == s.target_fps
            &&& s.mode == CaptureMode::Bgra && s.encoder is None ==> t.encoder is None
        }),
{
}

/// The target size of the stream and that of its frames are the same.
pub proof fn law_target_sizes_agree(s: StreamView, event: EventView)
    requires
        s.target_size == s.pipeline.target_size,
    ensures
        ({
            let t = next_step(s, event).0;
            t.target_size == t.pipeline.target_size
        }),
{
}

/// A stream that delivers no image for the thirtieth time in a row is recreated
/// at its size, and one image makes it start over.
pub proof fn law_stalled_stream_is_recreated(s: StreamView, width: usize, height: usize)
    requires
        0 <= s.missed_frames,
    ensures
        next_step(s, EventView::SampleEmpty).1 == (if s.missed_frames >= 29 {
            ActionView::RecreateStream { size: s.stream_size, stalled: true }
        } else {
            ActionView::Poll
        }),
        next_step(s, EventView::SampleImage { width, height }).0.missed_frames == 0,
{
}

/// After the stream was recreated the next frame is sent whole.
pub proof fn law_recreated_stream_starts_over(s: StreamView, size: DesktopSize, stalled: bool)
    ensures
        ({
            let t = next_step(
                s,
                EventView::Recreated { size, outcome: Recreation::Done, stalled },
            ).0;
            &&& t.stream_size == size
            &&& t.pipeline.prev is None
            &&& t.pipeline.pending.len() == 0
        }),
{
}

/// For every stream with an encoder, a frame that is delivered with data is
/// handed on as it came: the update carries these bytes, the encoder's size and
/// exactly the keyframe flag that was delivered. The encoder is free then and has
/// counted the frame, and nothing else changes.
pub proof fn law_delivered_frame_is_handed_on(
    s: StreamView,
    e: VtH264Encoder,
    data: Seq<u8>,
    is_keyframe: bool,
)
    requires
        s.encoder == Some(e),
        data.len() > 0,
        e.frame_id < u32::MAX,
    ensures
        ({
            let (t, action) = next_step(s, EventView::Encoded(Some((data, is_keyframe))));
            &&& action matches ActionView::Return(Some(update)) && (
            update matches UpdateView::Avc420 {
                data: sent,
                width,
                height,
                is_keyframe: flag,
            } && sent == data && width == e.width && height == e.height && flag == is_keyframe)
            &&& t.encoder matches Some(f) && {
                &&& !f.encoding
                &&& f.frame_id == e.frame_id + 1
                &&& f.frame_index == e.frame_index
                &&& f.width == e.width && f.height == e.height
            }
            &&& t == (StreamView { encoder: t.encoder, ..s })
        }),
{
}

/// Where no data came, or there is no encoder, no update is handed out. The
/// encoder is free again and has counted nothing.
pub proof fn law_nothing_encoded_is_no_update(s: StreamView, frame: Option<(Seq<u8>, bool)>)
    requires
        s.encoder is None || (frame matches Some((data, _)) ==> data.len() == 0),
    ensures
        ({
            let (t, action) = next_step(s, EventView::Encoded(frame));
            &&& action is Poll
            &&& t == (StreamView { encoder: t.encoder, ..s })
            &&& t.encoder is Some <==> s.encoder is Some
            &&& s.encoder matches Some(e) ==> (t.encoder matches Some(f) && !f.encoding
                && f.frame_id == e.frame_id && f.frame_index == e.frame_index && f.width == e.width
                && f.height == e.height)
        }),
{
}

/// Each kind of update comes of one kind of event: encoded frames of what the
/// encoder delivered, a new size of a poll, bitmaps of a poll or of pixels. The
/// stream ends only where the capture stream has ended, and fails only where
/// pixels cannot be reached, with the code that tells why.
pub proof fn law_updates_have_their_cause(s: StreamView, event: EventView)
    ensures
        ({
            let action = next_step(s, event).1;
            &&& action matches ActionView::Return(Some(UpdateView::Avc420 { .. })) ==> event
                is Encoded
            &&& action matches ActionView::Return(Some(UpdateView::Resize(size))) ==> (
            event matches EventView::Poll { resize, .. } && resize == Some(size))
            &&& action matches ActionView::Return(Some(UpdateView::Bitmap(_))) ==> event is Poll
                || event is Pixels
            &&& (action matches ActionView::Return(u) && u is None) <==> event is SampleEnded
            &&& action is Fail <==> event is LockFailed
            &&& event matches EventView::LockFailed { code } ==> action == (ActionView::Fail {
                code,
            })
        }),
{
}

/// Queued updates are handed out one by one, the oldest first, before anything
/// else is captured; none is lost and none comes twice.
pub proof fn law_queued_updates_come_in_order(s: StreamView, avc420: bool)
    ensures
        ({
            let (t, action) = next_step(s, EventView::Poll { resize: None, avc420 });
            let queued = s.pipeline.pending;
            &&& queued.len() > 0 ==> {
                &&& action == ActionView::Return(Some(UpdateView::Bitmap(queued[0])))
                &&& seq![queued[0]] + t.pipeline.pending == queued
            }
            &&& queued.len() == 0 ==> action is Tick && t == s
            &&& t.target_size == s.target_size
            &&& t.pipeline.prev == s.pipeline.prev
            &&& t.encoder == s.encoder
            &&& t.stream_size == s.stream_size
            &&& t.missed_frames == s.missed_frames
        }),
{
    let queued = s.pipeline.pending;
    if queued.len() > 0 {
        assert(seq![queued[0]] + queued.drop_first() =~= queued);
    }
}

/// Pixels go through the pipeline, and the first update that is queued then is
/// handed out at once; where there is none the stream goes on.
pub proof fn law_pixels_are_sent_at_once(s: StreamView, frame: Picture)
    ensures
        ({
            let (t, action) = next_step(s, EventView::Pixels(frame));
            let queued = after_push(s.pipeline, frame).pending;
            &&& queued.len() == 0 ==> action is Poll
            &&& queued.len() > 0 ==> action == ActionView::Return(
                Some(UpdateView::Bitmap(queued[0])),
            ) && t.pipeline.pending.len() == queued.len() - 1
            &&& forall|i: int|
                0 <= i < queued.len() - 1 ==> #[trigger] t.pipeline.pending[i] == queued[i + 1]
            &&& t.pipeline.prev == after_push(s.pipeline, frame).prev
            &&& t == (StreamView { pipeline: t.pipeline, ..s })
        }),
{
}

/// Only a poll, pixels and a new stream touch the queue of updates and the frame
/// that later ones are compared with.
pub proof fn law_other_events_keep_the_queue(s: StreamView, event: EventView)
    requires
        !(event is Poll) && !(event is Pixels) && !(event is Recreated),
    ensures
        next_step(s, event).0.pipeline == s.pipeline,
        next_step(s, event).0.stream_size == s.stream_size,
        next_step(s, event).0.target_size == s.target_size,
{
}

/// What is captured follows the backend and what the client takes: a capture
/// stream delivers samples; images of the display go into a pixel buffer only in
/// H.264 mode for a client that takes it, and are pixels else. Waiting changes
/// nothing.
pub proof fn law_capture_follows_the_client(s: StreamView, avc420: bool)
    ensures
        ({
            let (t, action) = next_step(s, EventView::Tick { avc420 });
            &&& t == s
            &&& action is NextSample <==> s.capture is Sckit
            &&& action is CapturePixelBuffer <==> s.capture is CGDisplay && s.mode is H264 && avc420
            &&& action is CapturePixels <==> s.capture is CGDisplay && (s.mode is Bgra || !avc420)
        }),
        ({
            let (t, action) = next_step(s, EventView::Frame { avc420 });
            &&& t == s
            &&& action is LockForPixels <==> s.mode is Bgra || !avc420
            &&& action is CheckKeyframe <==> s.mode is H264 && avc420 && s.encoder is Some
            &&& action is Poll <==> s.mode is H264 && avc420 && s.encoder is None
        }),
{
}

/// A pixel buffer goes to the encoder where there is one; else pixels are
/// captured. A capture that failed is tried again with the next frame.
pub proof fn law_capture_falls_back_to_pixels(s: StreamView, captured: bool)
    ensures
        ({
            let (t, action) = next_step(s, EventView::PixelBuffer { captured });
            &&& t == s
            &&& captured && s.encoder is Some ==> action is CheckKeyframe
            &&& !captured || s.encoder is None ==> action is CapturePixels
        }),
        next_step(s, EventView::NoPixels).0 == s,
        next_step(s, EventView::NoPixels).1 is Poll,
        next_step(s, EventView::SampleEnded).0 == s,
{
}

/// The encoder takes one frame at a time: a frame is handed to it exactly where
/// it is free, which makes it busy and counts the frame. Else the frame is
/// skipped and nothing changes.
pub proof fn law_one_frame_at_a_time(s: StreamView)
    requires
        s.encoder matches Some(e) ==> e.frame_index < i64::MAX,
    ensures
        ({
            let (t, action) = next_step(s, EventView::Locked);
            let free = s.encoder matches Some(e) && !e.encoding;
            &&& action is Submit <==> free
            &&& !free ==> action is Poll && t == s
            &&& free ==> (t.encoder matches Some(f) && {
                let e = s.encoder->Some_0;
                &&& f.encoding
                &&& f.frame_index == e.frame_index + 1
                &&& f.frame_id == e.frame_id
                &&& f.width == e.width && f.height == e.height
            })
            &&& t == (StreamView { encoder: t.encoder, ..s })
        }),
{
}

/// A forced keyframe has the encoder replaced by one of the same size that
/// starts over, and only where there is one. Whether it was replaced or not, the
/// frame is encoded next: a sample is locked first, an image goes straight to
/// the encoder.
pub proof fn law_forced_keyframe_replaces_the_encoder(s: StreamView, forced: bool, ok: bool)
    requires
        s.encoder matches Some(e) ==> e.frame_index < i64::MAX,
    ensures
        ({
            let (t, action) = next_step(s, EventView::Keyframe { forced });
            &&& action is ReplaceEncoder <==> forced && s.encoder is Some
            &&& action matches ActionView::ReplaceEncoder { width, height } ==> (
            s.encoder matches Some(e) && width == e.width && height == e.height)
            &&& action is ReplaceEncoder ==> t == s
            &&& action !is ReplaceEncoder && s.capture is Sckit ==> action is LockForEncoder && t
                == s
            &&& action !is ReplaceEncoder && s.capture is CGDisplay ==> (t, action) == next_step(
                s,
                EventView::Locked,
            )
        }),
        ({
            let (t, action) = next_step(s, EventView::EncoderReplaced { ok });
            &&& s.capture is Sckit ==> action is LockForEncoder
            &&& s.capture is CGDisplay && s.encoder is Some && ok ==> action is Submit
            &&& s.capture is CGDisplay && !(ok && s.encoder is Some) ==> (t, action) == next_step(
                s,
                EventView::Locked,
            )
            &&& s.capture is Sckit && !ok ==> t == s
            &&& ok ==> (s.encoder matches Some(e) ==> (t.encoder matches Some(f) && f.width
                == e.width && f.height == e.height && f.frame_id == 0 && f.encoding
                == (s.capture is CGDisplay)))
        }),
{
}

/// An accepted frame is waited for. One that is refused frees the encoder, which
/// has counted no frame; images of the display are sent as pixels instead.
pub proof fn law_refused_frame_frees_the_encoder(s: StreamView, status: i32)
    ensures
        ({
            let (t, action) = next_step(s, EventView::Submitted { status });
            &&& status == 0 ==> action is AwaitFrame && t == s
            &&& status != 0 ==> {
                &&& action is CapturePixels <==> s.capture is CGDisplay
                &&& action is Poll <==> s.capture is Sckit
                &&& t == (StreamView { encoder: t.encoder, ..s })
                &&& t.encoder is Some <==> s.encoder is Some
                &&& s.encoder matches Some(e) ==> (t.encoder matches Some(f) && !f.encoding
                    && f.frame_id == e.frame_id && f.frame_index == e.frame_index && f.width
                    == e.width && f.height == e.height)
            }
        }),
{
}

/// An image of another size than the stream's, in width or in height, has the
/// stream recreated at the image's size; one of the stream's size is processed.
pub proof fn law_image_of_another_size(s: StreamView, width: usize, height: usize)
    requires
        width <= u16::MAX,
        height <= u16::MAX,
    ensures
        ({
            let (t, action) = next_step(s, EventView::SampleImage { width, height });
            &&& action is InspectFrame <==> width == s.stream_size.width && height
                == s.stream_size.height
            &&& action !is InspectFrame ==> (action matches ActionView::RecreateStream {
                size,
                stalled,
            } && size.width == width && size.height == height && !stalled)
            &&& t == (StreamView { missed_frames: 0, ..s })
        }),
{
}

/// Each sample without an image counts once, and nothing else changes.
pub proof fn law_empty_samples_are_counted(s: StreamView)
    ensures
        ({
            let t = next_step(s, EventView::SampleEmpty).0;
            &&& t.missed_frames == s.missed_frames + 1
            &&& t == (StreamView { missed_frames: t.missed_frames, ..s })
        }),
{
}

/// What comes of recreating the stream. A stream that failed leaves everything
/// as it was. One without a new encoder has the new size. Else, in H.264 mode,
/// there is an encoder of the new size that starts over. A stalled stream is
/// waited for again; it no longer counts as stalled only where all went well.
/// Where an image is at hand it is processed only where all went well.
pub proof fn law_recreation_outcomes(
    s: StreamView,
    size: DesktopSize,
    outcome: Recreation,
    stalled: bool,
)
    ensures
        ({
            let (t, action) = next_step(s, EventView::Recreated { size, outcome, stalled });
            let done = outcome is Done;
            &&& outcome is StreamFailed ==> t == s
            &&& outcome is EncoderFailed ==> t == (StreamView { stream_size: size, ..s })
            &&& !(outcome is StreamFailed) ==> t.stream_size == size
            &&& done && s.mode is H264 ==> (t.encoder matches Some(f) && f.width == size.width
                && f.height == size.height && f.frame_id == 0 && !f.encoding)
            &&& !done || s.mode is Bgra ==> t.encoder == s.encoder
            &&& t.target_size == s.target_size
            &&& t.pipeline.target_size == s.pipeline.target_size
            &&& t.pipeline.aspect_mode == s.pipeline.aspect_mode
            &&& t.missed_frames == (if done && stalled {
                0
            } else {
                s.missed_frames
            })
            &&& action is InspectFrame <==> done && !stalled
            &&& action is Poll <==> !done || stalled
        }),
{
}

/// An event has the content of what has happened, field by field.
pub proof fn law_event_is_what_happened(event: UpdateEvent)
    ensures
        match (event, event@) {
            (
                UpdateEvent::Poll { resize, avc420 },
                EventView::Poll { resize: r, avc420: a },
            ) => resize == r && avc420 == a,
            (UpdateEvent::Tick { avc420 }, EventView::Tick { avc420: a }) => avc420 == a,
            (UpdateEvent::SampleEnded, EventView::SampleEnded) => true,
            (UpdateEvent::SampleEmpty, EventView::SampleEmpty) => true,
            (
                UpdateEvent::SampleImage { width, height },
                EventView::SampleImage { width: w, height: h },
            ) => width == w && height == h,
            (
                UpdateEvent::Recreated { size, outcome, stalled },
                EventView::Recreated { size: s, outcome: o, stalled: t },
            ) => size == s && outcome == o && stalled == t,
            (UpdateEvent::Frame { avc420 }, EventView::Frame { avc420: a }) => avc420 == a,
            (UpdateEvent::LockFailed { code }, EventView::LockFailed { code: c }) => code == c,
            (
                UpdateEvent::Pixels { data, width, height, stride },
                EventView::Pixels(frame),
            ) => data@ == frame.data && width == frame.width && height == frame.height && stride
                == frame.stride,
            (UpdateEvent::NoPixels, EventView::NoPixels) => true,
            (
                UpdateEvent::PixelBuffer { captured },
                EventView::PixelBuffer { captured: c },
            ) => captured == c,
            (UpdateEvent::Keyframe { forced }, EventView::Keyframe { forced: f }) => forced == f,
            (UpdateEvent::EncoderReplaced { ok }, EventView::EncoderReplaced { ok: o }) => ok == o,
            (UpdateEvent::Locked, EventView::Locked) => true,
            (UpdateEvent::Submitted { status }, EventView::Submitted { status: s }) => status == s,
            (UpdateEvent::Encoded(delivery), EventView::Encoded(frame)) => match delivery {
                Delivery::Delivered(e) => frame matches Some((data, key)) && data == e.data@ && key
                    == e.is_keyframe,
                Delivery::TimedOut => frame is None,
                Delivery::Disconnected => frame is None,
            },
            _ => false,
        },
{
}

/// An update has the content of what is handed out, field by field.
pub proof fn law_update_is_what_is_handed_out(update: DisplayUpdate)
    ensures
        match (update, update_view(update)) {
            (DisplayUpdate::Resize(a), UpdateView::Resize(b)) => a.width == b.width && a.height
                == b.height,
            (DisplayUpdate::Bitmap(a), UpdateView::Bitmap(b)) => a.x == b.x && a.y == b.y && a.width
                == b.width && a.height == b.height && a.stride == b.stride && contents(a.data)
                == b.data,
            (
                DisplayUpdate::Avc420(a),
                UpdateView::Avc420 { data, width, height, is_keyframe },
            ) => a.data@ == data && a.width == width && a.height == height && a.is_keyframe
                == is_keyframe,
            _ => false,
        },
{
}

/// An action has the content of what is asked for, field by field.
pub proof fn law_action_is_what_is_asked_for(action: UpdateAction)
    ensures
        match (action, action@) {
            (UpdateAction::Return(u), ActionView::Return(v)) => match (u, v) {
                (None, None) => true,
                (Some(update), Some(view)) => view == update_view(update),
                _ => false,
            },
            (UpdateAction::Fail { code }, ActionView::Fail { code: c }) => code == c,
            (UpdateAction::Poll, ActionView::Poll) => true,
            (UpdateAction::Tick, ActionView::Tick) => true,
            (UpdateAction::NextSample, ActionView::NextSample) => true,
            (
                UpdateAction::RecreateStream { size, stalled },
                ActionView::RecreateStream { size: s, stalled: t },
            ) => size == s && stalled == t,
            (UpdateAction::InspectFrame, ActionView::InspectFrame) => true,
            (UpdateAction::LockForPixels, ActionView::LockForPixels) => true,
            (UpdateAction::CapturePixels, ActionView::CapturePixels) => true,
            (UpdateAction::CapturePixelBuffer, ActionView::CapturePixelBuffer) => true,
            (UpdateAction::CheckKeyframe, ActionView::CheckKeyframe) => true,
            (
                UpdateAction::ReplaceEncoder { width, height },
                ActionView::ReplaceEncoder { width: w, height: h },
            ) => width == w && height == h,
            (UpdateAction::LockForEncoder, ActionView::LockForEncoder) => true,
            (UpdateAction::Submit, ActionView::Submit) => true,
            (UpdateAction::AwaitFrame, ActionView::AwaitFrame) => true,
            _ => false,
        },
{
}

/// Where the client takes H.264, a new desktop size is taken over all the same,
/// and what is queued is handed out as if there had been none.
pub proof fn law_new_size_is_taken_over(s: StreamView, size: DesktopSize, avc420: bool)
    ensures
        ({
            let (t, action) = next_step(s, EventView::Poll { resize: Some(size), avc420 });
            let (same, next) = next_step(s, EventView::Poll { resize: None, avc420 });
            &&& t.target_size == size
            &&& t.pipeline.target_size == size
            &&& t.pipeline.prev == s.pipeline.prev
            &&& t.stream_size == s.stream_size
            &&& t.encoder == s.encoder
            &&& t.missed_frames == s.missed_frames
            &&& s.mode is H264 && avc420 ==> action == next && t.pipeline.pending
                == same.pipeline.pending
            &&& s.mode is Bgra || !avc420 ==> (action matches ActionView::Return(
                Some(UpdateView::Resize(told)),
            ) && told.width == size.width && told.height == size.height)
        }),
{
}

} // verus!
