//! H.264 encoding.
//!
//! A hardware encoder takes one pixel buffer at a time and hands the encoded
//! frame to a callback. What is asked of the encoder, and what is made of its
//! answers, is decided here.
use vstd::prelude::*;

verus! {

/// 'avc1'
pub const K_CM_VIDEO_CODEC_TYPE_H264: u32 = 0x61766331;

/// '420v'
pub const KVPIXEL_FORMAT_420V: u32 = 0x34323076;

/// '420f'
pub const KVPIXEL_FORMAT_420F: u32 = 0x34323066;

/// 'BGRA'
pub const KVPIXEL_FORMAT_BGRA: u32 = 0x42475241;

/// Maximum time to wait for an encoded frame, in milliseconds.
pub const ENCODE_TIMEOUT_MS: u64 = 500;

/// A property of a compression session.
#[derive(Debug, Clone, Copy, PartialEq, Eq, Structural)]
pub enum SessionProperty {
    RealTime(bool),
    AllowFrameReordering(bool),
    AllowTemporalCompression(bool),
    ExpectRealTime(bool),
    ProfileLevel(i32),
    AverageBitRate(i64),
    MaxKeyFrameInterval(i32),
}

/// The properties that a new session is given, in order.
pub fn session_properties() -> (p: Vec<SessionProperty>)
    ensures
        p@ == seq![
            SessionProperty::RealTime(true),
            SessionProperty::AllowFrameReordering(false),
            SessionProperty::AllowTemporalCompression(false),
            SessionProperty::ExpectRealTime(true),
            SessionProperty::ProfileLevel(0x1E),
            SessionProperty::AverageBitRate(4_000_000),
            SessionProperty::MaxKeyFrameInterval(60),
        ],
{
    let mut p: Vec<SessionProperty> = Vec::new();
    p.push(SessionProperty::RealTime(true));
    p.push(SessionProperty::AllowFrameReordering(false));
    // Disable temporal compression for real-time screen sharing - each frame is unique
    p.push(SessionProperty::AllowTemporalCompression(false));
    // Force encoder to produce output immediately (no buffering)
    p.push(SessionProperty::ExpectRealTime(true));
    // H.264 Baseline profile
    p.push(SessionProperty::ProfileLevel(0x1E));
    // 4 Mbps average bitrate
    p.push(SessionProperty::AverageBitRate(4_000_000));
    // Keyframe every ~2 seconds at 30fps
    p.push(SessionProperty::MaxKeyFrameInterval(60));
    p
}

impl SessionProperty {
    /// The key under which the property is set.
    pub fn key(&self) -> (s: &'static str)
        ensures
            s@ == match *self {
                SessionProperty::RealTime(_) => "VTCompressionPropertyKey_RealTime"@,
                SessionProperty::AllowFrameReordering(_) =>
                    "VTCompressionPropertyKey_AllowFrameReordering"@,
                SessionProperty::AllowTemporalCompression(_) =>
                    "VTCompressionPropertyKey_AllowTemporalCompression"@,
                SessionProperty::ExpectRealTime(_) => "VTCompressionPropertyKey_ExpectRealTime"@,
                SessionProperty::ProfileLevel(_) => "VTCompressionPropertyKey_ProfileLevel"@,
                SessionProperty::AverageBitRate(_) => "VTCompressionPropertyKey_AverageBitRate"@,
                SessionProperty::MaxKeyFrameInterval(_) =>
                    "VTCompressionPropertyKey_MaxKeyFrameInterval"@,
            },
    {
        match *self {
            SessionProperty::RealTime(_) => "VTCompressionPropertyKey_RealTime",
            SessionProperty::AllowFrameReordering(_) =>
                "VTCompressionPropertyKey_AllowFrameReordering",
            SessionProperty::AllowTemporalCompression(_) =>
                "VTCompressionPropertyKey_AllowTemporalCompression",
            SessionProperty::ExpectRealTime(_) => "VTCompressionPropertyKey_ExpectRealTime",
            SessionProperty::ProfileLevel(_) => "VTCompressionPropertyKey_ProfileLevel",
            SessionProperty::AverageBitRate(_) => "VTCompressionPropertyKey_AverageBitRate",
            SessionProperty::MaxKeyFrameInterval(_) =>
                "VTCompressionPropertyKey_MaxKeyFrameInterval",
        }
    }
}

/// What the encoder notes about an encoded sample.
#[derive(Debug, Clone, Copy, PartialEq, Eq, Structural)]
pub struct SampleAttachments {
    pub depends_on_others: Option<bool>,
    pub not_sync: Option<bool>,
}

/// What the encoder hands to the callback.
#[derive(Debug)]
pub struct SampleBuffer {
    /// The bytes of the encoded frame, if they can be reached.
    pub block: Option<Vec<u8>>,
    pub attachments: Option<SampleAttachments>,
}

/// Result of encoding a single frame.
#[derive(Debug)]
pub struct EncodeResult {
    pub data: Vec<u8>,
    pub is_keyframe: bool,
}

/// A sample is a keyframe unless it is noted to depend on others or, where
/// nothing is noted on that, not to be a sync sample.
pub open spec fn keyframe(attachments: Option<SampleAttachments>) -> bool {
    match attachments {
        None => true,
        Some(a) => match (a.depends_on_others, a.not_sync) {
            (Some(depends), _) => !depends,
            (None, Some(not_sync)) => !not_sync,
            (None, None) => true,
        },
    }
}

pub fn is_keyframe(attachments: &Option<SampleAttachments>) -> (r: bool)
    ensures
        r == keyframe(*attachments),
{
    match attachments {
        None => true,
        Some(a) => {
            if let Some(depends) = a.depends_on_others {
                return !depends;
            }
            if let Some(not_sync) = a.not_sync {
                return !not_sync;
            }
            true
        },
    }
}

/// Extract NAL unit data and keyframe status from a sample.
pub fn extract_nal_data(sample: SampleBuffer) -> (r: Option<EncodeResult>)
    ensures
        match (r, sample.block) {
            (Some(e), Some(block)) => {
                &&& block@.len() > 0
                &&& e.data@ == block@
                &&& e.is_keyframe == keyframe(sample.attachments)
            },
            (Some(_), None) => false,
            (None, Some(block)) => block@.len() == 0,
            (None, None) => true,
        },
{
    let is_keyframe: bool = is_keyframe(&sample.attachments);
    match sample.block {
        Some(data) => {
            if data.len() == 0 {
                None
            } else {
                Some(EncodeResult { data, is_keyframe })
            }
        },
        None => None,
    }
}

/// What the callback delivers: nothing where the encoder reports an error or
/// hands over no sample, or no data in it.
pub fn encoding_callback(status: i32, sample: Option<SampleBuffer>) -> (r: Option<EncodeResult>)
    ensures
        r is Some <==> status == 0 && (sample matches Some(s) && s.block matches Some(block)
            && block@.len() > 0),
        r matches Some(e) ==> e.data@ == sample->Some_0.block->Some_0@ && e.is_keyframe == keyframe(
            sample->Some_0.attachments,
        ),
{
    if status != 0 {
        return None;
    }
    match sample {
        Some(s) => extract_nal_data(s),
        None => None,
    }
}

/// An encoded frame.
#[derive(Debug)]
pub struct H264Frame {
    pub frame_id: u32,
    pub data: Vec<u8>,
    pub is_keyframe: bool,
    pub width: u16,
    pub height: u16,
}

/// Why there is no encoder, or no encoded frame.
#[derive(Debug, Clone, Copy, PartialEq, Eq, Structural)]
pub enum EncoderError {
    /// The session could not be created.
    Create(i32),
    /// No session came of it.
    NullSession,
    /// The frame was not accepted.
    Encode(i32),
}

/// What came of a frame that the encoder accepted.
#[derive(Debug)]
pub enum Delivery {
    Delivered(EncodeResult),
    TimedOut,
    /// The callback had no output for this frame.
    Disconnected,
}

/// The state of an encoding session.
#[derive(Debug, Clone, Copy, PartialEq, Eq, Structural)]
pub struct VtH264Encoder {
    pub width: u16,
    pub height: u16,
    pub frame_id: u32,
    pub frame_index: i64,
    /// Ensure only one encode operation at a time
    pub encoding: bool,
}

/// The state of a new session.
pub open spec fn new_encoder(width: u16, height: u16) -> VtH264Encoder {
    VtH264Encoder { width, height, frame_id: 0, frame_index: 0, encoding: false }
}

/// The mathematical content of an [`H264Frame`].
pub struct FrameView {
    pub frame_id: u32,
    pub data: Seq<u8>,
    pub is_keyframe: bool,
    pub width: u16,
    pub height: u16,
}

impl H264Frame {
    pub open spec fn view(&self) -> FrameView {
        FrameView {
            frame_id: self.frame_id,
            data: self.data@,
            is_keyframe: self.is_keyframe,
            width: self.width,
            height: self.height,
        }
    }
}

/// What the encoder does about a frame that is handed to it: its answer, and the
/// bytes of the encoded frame and whether it is a keyframe, where one comes.
pub struct EncodeCall {
    pub status: i32,
    pub output: Option<(Seq<u8>, bool)>,
}

/// The bytes of a frame and whether it is a keyframe, where one was delivered.
pub open spec fn delivered(delivery: Delivery) -> Option<(Seq<u8>, bool)> {
    match delivery {
        Delivery::Delivered(e) => Some((e.data@, e.is_keyframe)),
        Delivery::TimedOut => None,
        Delivery::Disconnected => None,
    }
}

/// The call yields a frame.
pub open spec fn yields(call: EncodeCall) -> bool {
    call.status == 0 && (call.output matches Some((data, _)) && data.len() > 0)
}

/// The encoder after a call. While a frame is being encoded calls are skipped.
pub open spec fn after_encode(e: VtH264Encoder, call: EncodeCall) -> VtH264Encoder {
    if e.encoding {
        e
    } else {
        VtH264Encoder {
            frame_index: (e.frame_index + 1) as i64,
            frame_id: if yields(call) {
                (e.frame_id + 1) as u32
            } else {
                e.frame_id
            },
            ..e
        }
    }
}

/// What a call returns.
pub open spec fn encode_result(e: VtH264Encoder, call: EncodeCall) -> Result<
    Option<FrameView>,
    EncoderError,
> {
    if e.encoding {
        Ok(None)
    } else if call.status != 0 {
        Err(EncoderError::Encode(call.status))
    } else if yields(call) {
        Ok(
            Some(
                FrameView {
                    frame_id: e.frame_id,
                    data: call.output->Some_0.0,
                    is_keyframe: call.output->Some_0.1,
                    width: e.width,
                    height: e.height,
                },
            ),
        )
    } else {
        Ok(None)
    }
}

/// The encoder after some calls, the first one first.
pub open spec fn after_encodes(e: VtH264Encoder, calls: Seq<EncodeCall>) -> VtH264Encoder
    decreases calls.len(),
{
    if calls.len() == 0 {
        e
    } else {
        after_encode(after_encodes(e, calls.drop_last()), calls.last())
    }
}

/// How many of the calls yield a frame.
pub open spec fn frames_of(calls: Seq<EncodeCall>) -> nat
    decreases calls.len(),
{
    if calls.len() == 0 {
        0
    } else {
        frames_of(calls.drop_last()) + if yields(calls.last()) {
            1nat
        } else {
            0nat
        }
    }
}

impl VtH264Encoder {
    /// An encoder for the given dimensions, once the system was asked for a
    /// session.
    pub fn new(width: u16, height: u16, status: i32, has_session: bool) -> (r: Result<
        VtH264Encoder,
        EncoderError,
    >)
        ensures
            r == (if status != 0 {
                Err::<VtH264Encoder, EncoderError>(EncoderError::Create(status))
            } else if !has_session {
                Err::<VtH264Encoder, EncoderError>(EncoderError::NullSession)
            } else {
                Ok::<VtH264Encoder, EncoderError>(new_encoder(width, height))
            }),
    {
        if status != 0 {
            return Err(EncoderError::Create(status));
        }
        if !has_session {
            return Err(EncoderError::NullSession);
        }
        Ok(VtH264Encoder { width, height, frame_id: 0, frame_index: 0, encoding: false })
    }

    /// Whether a frame may be handed to the encoder now. A frame that comes
    /// while another one is being encoded is skipped.
    pub fn begin_encode(&mut self) -> (submit: bool)
        requires
            !old(self).encoding ==> old(self).frame_index < i64::MAX,
        ensures
            submit == !old(self).encoding,
            *final(self) == (if submit {
                VtH264Encoder {
                    encoding: true,
                    frame_index: (old(self).frame_index + 1) as i64,
                    ..*old(self)
                }
            } else {
                *old(self)
            }),
    {
        if self.encoding {
            return false;
        }
        self.encoding = true;
        self.frame_index += 1;
        true
    }

    /// Takes note of the answer to a frame that was handed to the encoder. Where
    /// the frame is accepted, [`Self::finish_encode`] ends the call.
    pub fn submitted(&mut self, status: i32) -> (r: Result<(), EncoderError>)
        ensures
            r == (if status != 0 {
                Err::<(), EncoderError>(EncoderError::Encode(status))
            } else {
                Ok::<(), EncoderError>(())
            }),
            *final(self) == (if status != 0 {
                VtH264Encoder { encoding: false, ..*old(self) }
            } else {
                *old(self)
            }),
    {
        if status != 0 {
            self.encoding = false;
            return Err(EncoderError::Encode(status));
        }
        Ok(())
    }

    /// Takes note of what came of an accepted frame. Frames are numbered in the
    /// order in which they come out.
    pub fn finish_encode(&mut self, delivery: Delivery) -> (r: Option<H264Frame>)
        requires
            delivered(delivery) matches Some((data, _)) && data.len() > 0 ==> old(self).frame_id
                < u32::MAX,
        ensures
            r is Some <==> (delivery matches Delivery::Delivered(e) && e.data@.len() > 0),
            r matches Some(f) ==> {
                &&& f.frame_id == old(self).frame_id
                &&& f.data@ == delivery->Delivered_0.data@
                &&& f.is_keyframe == delivery->Delivered_0.is_keyframe
                &&& f.width == old(self).width
                &&& f.height == old(self).height
            },
            *final(self) == (VtH264Encoder {
                encoding: false,
                frame_id: if r is Some {
                    (old(self).frame_id + 1) as u32
                } else {
                    old(self).frame_id
                },
                ..*old(self)
            }),
    {
        // Mark encoding as complete regardless of result
        self.encoding = false;
        match delivery {
            Delivery::Delivered(EncodeResult { data, is_keyframe }) => {
                if data.len() == 0 {
                    return None;
                }
                let frame_id: u32 = self.frame_id;
                self.frame_id += 1;
                Some(
                    H264Frame {
                        frame_id,
                        data,
                        is_keyframe,
                        width: self.width,
                        height: self.height,
                    },
                )
            },
            Delivery::TimedOut => None,
            Delivery::Disconnected => None,
        }
    }

    /// A whole call of the encoder: a frame is handed to it, it answers with a
    /// status, and what comes of an accepted frame is waited for.
    pub fn encode(&mut self, status: i32, delivery: Delivery) -> (r: Result<
        Option<H264Frame>,
        EncoderError,
    >)
        requires
            !old(self).encoding ==> old(self).frame_index < i64::MAX,
            !old(self).encoding && yields(EncodeCall { status, output: delivered(delivery) })
                ==> old(self).frame_id < u32::MAX,
        ensures
            ({
                let call = EncodeCall { status, output: delivered(delivery) };
                &&& *final(self) == after_encode(*old(self), call)
                &&& match (encode_result(*old(self), call), r) {
                    (Err(e), Err(error)) => e == error,
                    (Ok(None), Ok(None)) => true,
                    (Ok(Some(f)), Ok(Some(frame))) => f == frame@,
                    _ => false,
                }
            }),
    {
        if !self.begin_encode() {
            return Ok(None);
        }
        match self.submitted(status) {
            Err(e) => Err(e),
            Ok(()) => Ok(self.finish_encode(delivery)),
        }
    }

    pub fn width(&self) -> (w: u16)
        ensures
            w == self.width,
    {
        self.width
    }

    pub fn height(&self) -> (h: u16)
        ensures
            h == self.height,
    {
        self.height
    }
}

/// After any calls on a new encoder it is ready for the next one, and its counters
/// tell how many calls there were and how many of them yielded a frame.
proof fn lemma_after_encodes(width: u16, height: u16, calls: Seq<EncodeCall>)
    requires
        frames_of(calls) <= u32::MAX,
        calls.len() <= i64::MAX,
    ensures
        after_encodes(new_encoder(width, height), calls) == (VtH264Encoder {
            width,
            height,
            frame_id: frames_of(calls) as u32,
            frame_index: calls.len() as i64,
            encoding: false,
        }),
    decreases calls.len(),
{
    if calls.len() > 0 {
        lemma_after_encodes(width, height, calls.drop_last());
    }
}

/// Frames are numbered in the order in which they come out, whatever comes in
/// between. After any calls on a new encoder, the next one fails exactly if the
/// encoder does not accept the frame. Else it yields a frame exactly if bytes are
/// delivered, and nothing where it times out or there is no output. The frame
/// has the number of frames before it, the encoder's size and these bytes. A call
/// that fails or yields nothing uses up no number and does not block the next
/// call.
pub proof fn law_encoded_frames_are_numbered(
    width: u16,
    height: u16,
    calls: Seq<EncodeCall>,
    next: EncodeCall,
)
    requires
        frames_of(calls) < u32::MAX,
        calls.len() < i64::MAX,
    ensures
        ({
            let e = after_encodes(new_encoder(width, height), calls);
            let r = encode_result(e, next);
            let after = after_encode(e, next);
            &&& r is Err <==> next.status != 0
            &&& r matches Err(error) ==> error == EncoderError::Encode(next.status)
            &&& r matches Ok(Some(f)) ==> {
                &&& f.frame_id == frames_of(calls)
                &&& f.width == width && f.height == height
                &&& f.data.len() > 0
                &&& next.output == Some((f.data, f.is_keyframe))
                &&& after.frame_id == e.frame_id + 1
            }
            &&& r matches Ok(None) ==> (next.output matches Some((data, _)) ==> data.len() == 0)
            &&& !(r matches Ok(Some(_))) ==> after.frame_id == e.frame_id
            &&& !after.encoding
        }),
{
    lemma_after_encodes(width, height, calls);
}

/// A sample is no keyframe only where it is noted to depend on others, or where
/// nothing is noted on that and it is noted not to be a sync sample.
pub proof fn law_keyframe_notes(attachments: Option<SampleAttachments>)
    ensures
        !keyframe(attachments) <==> (attachments matches Some(a) && (a.depends_on_others == Some(
            true,
        ) || (a.depends_on_others is None && a.not_sync == Some(true)))),
{
}

/// A busy encoder skips a frame and is left as it is. Else the call is counted,
/// and it yields exactly what is delivered for an accepted frame, byte by byte,
/// with the flag that came with it and the encoder's size.
pub proof fn law_encode_call(e: VtH264Encoder, call: EncodeCall)
    requires
        e.frame_index < i64::MAX,
        e.frame_id < u32::MAX,
    ensures
        ({
            let r = encode_result(e, call);
            let after = after_encode(e, call);
            &&& after.width == e.width && after.height == e.height && after.encoding == e.encoding
            &&& e.encoding ==> after == e && (r matches Ok(f) && f is None)
            &&& !e.encoding ==> after.frame_index == e.frame_index + 1
            &&& !e.encoding && call.status != 0 ==> (r matches Err(error) && error
                == EncoderError::Encode(call.status)) && after.frame_id == e.frame_id
            &&& !e.encoding && call.status == 0 ==> match call.output {
                Some((data, is_keyframe)) if data.len() > 0 => {
                    &&& r matches Ok(Some(f)) && f.data == data && f.is_keyframe == is_keyframe
                        && f.width == e.width && f.height == e.height && f.frame_id == e.frame_id
                    &&& after.frame_id == e.frame_id + 1
                },
                _ => {
                    &&& r matches Ok(f) && f is None
                    &&& after.frame_id == e.frame_id
                },
            }
        }),
{
}

/// What was delivered is the encoder's bytes with their keyframe flag; a frame
/// that timed out or has no output delivers nothing.
pub proof fn law_delivery(delivery: Delivery)
    ensures
        delivered(delivery) is Some <==> delivery is Delivered,
        delivery matches Delivery::Delivered(e) ==> (delivered(delivery) matches Some((data, key))
            && data == e.data@ && key == e.is_keyframe),
{
}

/// A new encoder is free, has the given size, and counts from zero.
pub proof fn law_new_encoder(width: u16, height: u16)
    ensures
        ({
            let e = new_encoder(width, height);
            &&& e.width == width
            &&& e.height == height
            &&& e.frame_id == 0
            &&& e.frame_index == 0
            &&& !e.encoding
        }),
{
}

/// A frame has the content of what the encoder returns, field by field.
pub proof fn law_frame_is_what_is_returned(frame: H264Frame)
    ensures
        frame@.frame_id == frame.frame_id,
        frame@.data == frame.data@,
        frame@.is_keyframe == frame.is_keyframe,
        frame@.width == frame.width,
        frame@.height == frame.height,
{
}

} // verus!
