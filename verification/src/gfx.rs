//! The RDPGFX graphics channel.
//!
//! 1. The client advertises capabilities, the server confirms.
//! 2. The server sends `ResetGraphics`, `CreateSurface` and
//!    `MapSurfaceToOutput`.
//! 3. Per frame: `StartFrame`, `WireToSurface1` with AVC420 data, `EndFrame`.
//! 4. The client acknowledges with `FrameAcknowledge`.
use crate::codec::bitmap::le16;
use crate::update::{Avc420Update, DesktopSize};
use ironrdp_core::{decode, encode_vec};
use ironrdp_pdu::geometry::InclusiveRectangle;
use ironrdp_pdu::rdp::vc::dvc::gfx::CapabilitySet::{
    Unknown as WireUnknown, V10 as WireV10, V10_1 as WireV10_1, V10_2 as WireV10_2,
    V10_3 as WireV10_3, V10_4 as WireV10_4, V10_5 as WireV10_5, V10_6 as WireV10_6,
    V10_6Err as WireV10_6Err, V10_7 as WireV10_7, V8 as WireV8, V8_1 as WireV8_1,
};
use ironrdp_pdu::rdp::vc::dvc::gfx::{Avc420BitmapStream, ClientPdu as WirePdu, QuantQuality};
use std::collections::VecDeque;
use vstd::prelude::*;

verus! {

/// `SMALL_CACHE` in the flags of version 8.1.
pub const V81_SMALL_CACHE: u32 = 0x02;

/// `AVC420_ENABLED` in the flags of version 8.1.
pub const V81_AVC420_ENABLED: u32 = 0x10;

/// `AVC_DISABLED` in the flags of version 10 and later.
pub const V10_AVC_DISABLED: u32 = 0x20;

/// The quantization parameter that frames are sent with.
pub const QUANTIZATION_PARAMETER: u8 = 28;

/// A version of the graphics channel that a client takes, with its flags.
#[derive(Debug, Clone, Copy, PartialEq, Eq, Structural)]
pub enum CapabilitySet {
    V8 { flags: u32 },
    V8_1 { flags: u32 },
    V10 { flags: u32 },
    V10_2 { flags: u32 },
    V10_3 { flags: u32 },
    /// A version that the server cannot confirm.
    Other,
}

/// What a client sends on the channel.
#[derive(Debug)]
pub enum ClientPdu {
    FrameAcknowledge { frame_id: u32 },
    CapabilitiesAdvertise(Vec<CapabilitySet>),
}

/// The mathematical content of a [`ClientPdu`].
pub enum ClientMessage {
    FrameAcknowledge { frame_id: u32 },
    CapabilitiesAdvertise(Seq<CapabilitySet>),
}

impl ClientPdu {
    pub open spec fn view(&self) -> ClientMessage {
        match *self {
            ClientPdu::FrameAcknowledge { frame_id } => ClientMessage::FrameAcknowledge {
                frame_id,
            },
            ClientPdu::CapabilitiesAdvertise(caps) => ClientMessage::CapabilitiesAdvertise(caps@),
        }
    }
}

/// The message that the bytes from a client stand for, if they are one.
pub uninterp spec fn client_message(payload: Seq<u8>) -> Option<ClientMessage>;

/// The bytes begin with the type of a message of a client, whether or not it is
/// one that is understood.
pub open spec fn names_type(payload: Seq<u8>) -> bool {
    payload[1] == 0 && (payload[0] == 0x0d || payload[0] == 0x10 || payload[0] == 0x12
        || payload[0] == 0x16)
}

/// The bytes are long enough to be looked at: a type, and the rest of a header
/// where the type is that of a message.
pub open spec fn readable(payload: Seq<u8>) -> bool {
    payload.len() >= 8 || (payload.len() >= 2 && !names_type(payload))
}

/// Whether bytes from a client are long enough to be looked at.
pub fn is_readable(payload: &[u8]) -> (r: bool)
    ensures
        r == readable(payload@),
{
    let n: usize = payload.len();
    n >= 8 || (n >= 2 && !(payload[1] == 0 && (payload[0] == 0x0d || payload[0] == 0x10
        || payload[0] == 0x12 || payload[0] == 0x16)))
}

/// `ironrdp_core::decode` of a `ClientPdu`: what it returns depends on the
/// bytes alone. It reads the type and, where that is the type of a message of a
/// client, the rest of a header of eight bytes without looking whether they are
/// there. How the bytes are understood is left to the name.
#[verifier::external_body]
pub(crate) fn decode_client_pdu(payload: &[u8]) -> (r: Option<ClientPdu>)
    requires
        readable(payload@),
    ensures
        match r {
            Some(pdu) => client_message(payload@) == Some(pdu@),
            None => client_message(payload@) is None,
        },
{
    Some(match decode::<WirePdu>(payload).ok()? {
        WirePdu::FrameAcknowledge(a) => ClientPdu::FrameAcknowledge { frame_id: a.frame_id },
        WirePdu::CapabilitiesAdvertise(caps) => ClientPdu::CapabilitiesAdvertise(
            caps.0.into_iter().map(|c| match c {
                WireV8 { flags } => CapabilitySet::V8 { flags: flags.bits() },
                WireV8_1 { flags } => CapabilitySet::V8_1 { flags: flags.bits() },
                WireV10 { flags } => CapabilitySet::V10 { flags: flags.bits() },
                WireV10_2 { flags } => CapabilitySet::V10_2 { flags: flags.bits() },
                WireV10_3 { flags } => CapabilitySet::V10_3 { flags: flags.bits() },
                WireV10_1 | WireV10_4 { .. } | WireV10_5 { .. } | WireV10_6 { .. }
                | WireV10_6Err { .. } | WireV10_7 { .. } | WireUnknown(_) => CapabilitySet::Other,
            }).collect(),
        ),
    })
}

/// A frame in the AVC420 format: one rectangle from the origin, how it was
/// quantized, and the H.264 data.
pub open spec fn avc420_bytes(right: u16, bottom: u16, qp: u8, quality: u8, data: Seq<u8>) -> Seq<
    u8,
> {
    seq![1u8, 0u8, 0u8, 0u8] + le16(0) + le16(0) + le16(right) + le16(bottom) + seq![qp, quality]
        + data
}

/// `ironrdp_core::encode_vec` of an `Avc420BitmapStream` with one rectangle:
/// the number of rectangles in 32 bits, the rectangle, the quantization
/// parameter in six bits with the progressive flag cleared, the quality, and
/// the data. A parameter that does not fit makes it panic.
#[verifier::external_body]
pub(crate) fn encode_avc420(
    right: u16,
    bottom: u16,
    qp: u8,
    quality: u8,
    data: &[u8],
) -> (r: Option<Vec<u8>>)
    requires
        qp < 64,
        data@.len() + 14 <= isize::MAX,
    ensures
        r is Some,
        r->Some_0@ == avc420_bytes(right, bottom, qp, quality, data@),
{
    encode_vec(&Avc420BitmapStream {
        rectangles: vec![InclusiveRectangle { left: 0, top: 0, right, bottom }],
        quant_qual_vals: vec![QuantQuality {
            quantization_parameter: qp,
            progressive: false,
            quality,
        }],
        data,
    })
    .ok()
}

/// A time of day.
#[derive(Debug, Clone, Copy, PartialEq, Eq, Structural)]
pub struct Timestamp {
    pub milliseconds: u16,
    pub seconds: u8,
    pub minutes: u8,
    pub hours: u16,
}

/// The time of day of a time in milliseconds since an epoch at midnight.
pub open spec fn time_of_day(ms: int) -> Timestamp {
    Timestamp {
        milliseconds: (ms % 1000) as u16,
        seconds: (ms / 1000 % 60) as u8,
        minutes: (ms / 60_000 % 60) as u8,
        hours: (ms / 3_600_000 % 24) as u16,
    }
}

/// What the server sends on the channel.
#[derive(Debug)]
pub enum ServerPdu {
    CapabilitiesConfirm(CapabilitySet),
    /// One primary monitor from the origin.
    ResetGraphics { width: u32, height: u32, monitor_right: i32, monitor_bottom: i32 },
    CreateSurface { surface_id: u16, surface_width: u16, surface_height: u16 },
    /// Map the surface to the origin.
    MapSurfaceToOutput { surface_id: u16 },
    StartFrame { timestamp: Timestamp, frame_id: u32 },
    /// AVC420 data for a rectangle from the origin.
    WireToSurface1 { surface_id: u16, right: u16, bottom: u16, bitmap_data: Vec<u8> },
    EndFrame { frame_id: u32 },
}

/// The mathematical content of a [`ServerPdu`].
pub enum ServerMessage {
    CapabilitiesConfirm(CapabilitySet),
    ResetGraphics { width: int, height: int, monitor_right: int, monitor_bottom: int },
    CreateSurface { surface_id: u16, surface_width: u16, surface_height: u16 },
    MapSurfaceToOutput { surface_id: u16 },
    StartFrame { timestamp: Timestamp, frame_id: u32 },
    WireToSurface1 { surface_id: u16, right: u16, bottom: u16, bitmap_data: Seq<u8> },
    EndFrame { frame_id: u32 },
}

impl ServerPdu {
    pub open spec fn view(&self) -> ServerMessage {
        match *self {
            ServerPdu::CapabilitiesConfirm(c) => ServerMessage::CapabilitiesConfirm(c),
            ServerPdu::ResetGraphics { width, height, monitor_right, monitor_bottom } =>
                ServerMessage::ResetGraphics {
                width: width as int,
                height: height as int,
                monitor_right: monitor_right as int,
                monitor_bottom: monitor_bottom as int,
            },
            ServerPdu::CreateSurface { surface_id, surface_width, surface_height } =>
                ServerMessage::CreateSurface { surface_id, surface_width, surface_height },
            ServerPdu::MapSurfaceToOutput { surface_id } => ServerMessage::MapSurfaceToOutput {
                surface_id,
            },
            ServerPdu::StartFrame { timestamp, frame_id } => ServerMessage::StartFrame {
                timestamp,
                frame_id,
            },
            ServerPdu::WireToSurface1 { surface_id, right, bottom, bitmap_data } =>
                ServerMessage::WireToSurface1 {
                surface_id,
                right,
                bottom,
                bitmap_data: bitmap_data@,
            },
            ServerPdu::EndFrame { frame_id } => ServerMessage::EndFrame { frame_id },
        }
    }
}

/// Views of queued messages.
pub open spec fn messages(pdus: Seq<ServerPdu>) -> Seq<ServerMessage> {
    pdus.map_values(|p: ServerPdu| p@)
}

/// How far the channel has been set up.
#[derive(Debug, Clone, Copy, PartialEq, Eq, Structural)]
pub enum GfxState {
    /// Waiting for client capabilities.
    WaitingCapabilities,
    /// Surface created and mapped; ready to send frames.
    Active,
}

/// The server side of the graphics channel.
pub struct GfxServer {
    pub state: GfxState,
    /// The surface we allocate (currently single-surface).
    pub surface_id: u16,
    /// Current frame ID counter.
    pub frame_id: u32,
    /// Messages to send to the client, oldest first.
    pub pending: VecDeque<ServerPdu>,
    /// Desktop size for surface creation.
    pub desktop_width: u16,
    pub desktop_height: u16,
    /// The channel ID assigned when the channel starts.
    pub channel_id: Option<u32>,
    /// The static channel that carries the dynamic ones.
    pub drdynvc_channel_id: Option<u16>,
    /// Whether the server needs to send a keyframe before P-frames.
    pub needs_keyframe: bool,
    /// Whether the client takes AVC420.
    pub avc420_enabled: bool,
}

/// The mathematical content of a [`GfxServer`].
#[verifier::ext_equal]
pub struct GfxView {
    pub state: GfxState,
    pub surface_id: u16,
    pub frame_id: int,
    pub pending: Seq<ServerMessage>,
    pub desktop_width: u16,
    pub desktop_height: u16,
    pub channel_id: Option<u32>,
    pub drdynvc_channel_id: Option<u16>,
    pub needs_keyframe: bool,
    pub avc420_enabled: bool,
}

/// A version that the server can confirm and on which the client takes AVC420:
/// 8.1 where it is enabled, or 10, 10.2 or 10.3 where it is not disabled.
pub open spec fn takes_avc420(c: CapabilitySet) -> bool {
    match c {
        CapabilitySet::V8_1 { flags } => flags & V81_AVC420_ENABLED != 0,
        CapabilitySet::V10 { flags } | CapabilitySet::V10_2 { flags } | CapabilitySet::V10_3 {
            flags,
        } => flags & V10_AVC_DISABLED == 0,
        _ => false,
    }
}

/// Some of the advertised versions takes AVC420.
pub open spec fn client_takes_avc420(caps: Seq<CapabilitySet>) -> bool {
    exists|i: int| 0 <= i < caps.len() && takes_avc420(#[trigger] caps[i])
}

/// The version that the server confirms to every client that takes AVC420: 8.1,
/// whose monitor format it can send, with AVC420 and a small cache.
pub open spec fn confirmed() -> CapabilitySet {
    CapabilitySet::V8_1 { flags: 0x12 }
}

/// The messages that set up the surface.
pub open spec fn surface_messages(g: GfxView) -> Seq<ServerMessage> {
    seq![
        ServerMessage::ResetGraphics {
            width: g.desktop_width as int,
            height: g.desktop_height as int,
            monitor_right: g.desktop_width - 1,
            monitor_bottom: g.desktop_height - 1,
        },
        ServerMessage::CreateSurface {
            surface_id: g.surface_id,
            surface_width: g.desktop_width,
            surface_height: g.desktop_height,
        },
        ServerMessage::MapSurfaceToOutput { surface_id: g.surface_id },
    ]
}

/// The channel with a new surface, on which no keyframe has been sent.
pub open spec fn with_surface(g: GfxView) -> GfxView {
    GfxView {
        state: GfxState::Active,
        needs_keyframe: true,
        pending: g.pending + surface_messages(g),
        ..g
    }
}

/// The channel after the client advertised its capabilities. A client that does
/// not take AVC420 is not answered: it would close the channel.
pub open spec fn negotiated(g: GfxView, caps: Seq<CapabilitySet>) -> GfxView {
    if client_takes_avc420(caps) {
        with_surface(
            GfxView {
                avc420_enabled: true,
                pending: g.pending.push(ServerMessage::CapabilitiesConfirm(confirmed())),
                ..g
            },
        )
    } else {
        GfxView { avc420_enabled: false, ..g }
    }
}

/// The largest coordinate of a length.
pub open spec fn last_coordinate(len: u16) -> u16 {
    if len == 0 {
        0
    } else {
        (len - 1) as u16
    }
}

/// The quality of a frame: other frames than keyframes are rated lower.
pub open spec fn frame_quality(qp: u8, is_keyframe: bool) -> u8 {
    if is_keyframe {
        qp
    } else if qp + 4 < 51 {
        (qp + 4) as u8
    } else {
        51
    }
}

/// The messages for one frame.
pub open spec fn frame_messages(
    g: GfxView,
    data: Seq<u8>,
    width: u16,
    height: u16,
    qp: u8,
    is_keyframe: bool,
    ms: int,
) -> Seq<ServerMessage> {
    let right = last_coordinate(width);
    let bottom = last_coordinate(height);
    seq![
        ServerMessage::StartFrame { timestamp: time_of_day(ms), frame_id: g.frame_id as u32 },
        ServerMessage::WireToSurface1 {
            surface_id: g.surface_id,
            right,
            bottom,
            bitmap_data: avc420_bytes(
                right,
                bottom,
                qp,
                frame_quality(qp, is_keyframe),
                data,
            ),
        },
        ServerMessage::EndFrame { frame_id: g.frame_id as u32 },
    ]
}

/// The channel with one more frame queued; frames are not queued before the
/// surface is there.
pub open spec fn with_frame(
    g: GfxView,
    data: Seq<u8>,
    width: u16,
    height: u16,
    qp: u8,
    is_keyframe: bool,
    ms: int,
) -> GfxView {
    if g.state == GfxState::Active {
        GfxView {
            frame_id: g.frame_id + 1,
            pending: g.pending + frame_messages(g, data, width, height, qp, is_keyframe, ms),
            ..g
        }
    } else {
        g
    }
}

/// The channel with a surface of the given size.
pub open spec fn resized(g: GfxView, width: u16, height: u16) -> GfxView {
    with_surface(GfxView { desktop_width: width, desktop_height: height, ..g })
}

/// A surface of the frame's size has to be made.
pub open spec fn needs_surface(g: GfxView, width: u16, height: u16) -> bool {
    g.desktop_width != width || g.desktop_height != height
}

/// The frame cannot be shown yet. Frames wait for the surface. Others than
/// keyframes wait for a keyframe where one is needed, and where a surface of
/// their size would have to be made.
pub open spec fn held_back(g: GfxView, width: u16, height: u16, is_keyframe: bool) -> bool {
    g.state != GfxState::Active || ((g.needs_keyframe || needs_surface(g, width, height))
        && !is_keyframe)
}

/// What becomes of an encoded frame of the display, and whether the encoder is
/// to be asked for a keyframe. The surface takes the size of a keyframe. Once a
/// keyframe is sent none is needed any more.
pub open spec fn routed(
    g: GfxView,
    data: Seq<u8>,
    width: u16,
    height: u16,
    is_keyframe: bool,
    ms: int,
) -> (GfxView, bool) {
    if held_back(g, width, height, is_keyframe) {
        (g, true)
    } else {
        let surface = if needs_surface(g, width, height) {
            resized(g, width, height)
        } else {
            g
        };
        let sent = with_frame(
            surface,
            data,
            width,
            height,
            QUANTIZATION_PARAMETER,
            is_keyframe,
            ms,
        );
        (GfxView { needs_keyframe: sent.needs_keyframe && !is_keyframe, ..sent }, false)
    }
}

fn does_take_avc420(c: CapabilitySet) -> (r: bool)
    ensures
        r == takes_avc420(c),
{
    match c {
        CapabilitySet::V8_1 { flags } => flags & V81_AVC420_ENABLED != 0,
        CapabilitySet::V10 { flags } => flags & V10_AVC_DISABLED == 0,
        CapabilitySet::V10_2 { flags } => flags & V10_AVC_DISABLED == 0,
        CapabilitySet::V10_3 { flags } => flags & V10_AVC_DISABLED == 0,
        CapabilitySet::V8 { .. } => false,
        CapabilitySet::Other => false,
    }
}

/// Check if the client advertised AVC420 support on a version the server can
/// confirm.
pub fn client_supports_avc420(caps: &Vec<CapabilitySet>) -> (r: bool)
    ensures
        r == client_takes_avc420(caps@),
{
    let mut i: usize = 0;
    while i < caps.len()
        invariant
            i <= caps@.len(),
            forall|j: int| 0 <= j < i ==> !takes_avc420(#[trigger] caps@[j]),
        decreases caps@.len() - i,
    {
        if does_take_avc420(caps[i]) {
            assert(takes_avc420(caps@[i as int]));
            return true;
        }
        i += 1;
    }
    false
}

impl GfxServer {
    pub open spec fn view(&self) -> GfxView {
        GfxView {
            state: self.state,
            surface_id: self.surface_id,
            frame_id: self.frame_id as int,
            pending: messages(self.pending@),
            desktop_width: self.desktop_width,
            desktop_height: self.desktop_height,
            channel_id: self.channel_id,
            drdynvc_channel_id: self.drdynvc_channel_id,
            needs_keyframe: self.needs_keyframe,
            avc420_enabled: self.avc420_enabled,
        }
    }

    pub fn new(desktop_width: u16, desktop_height: u16) -> (g: Self)
        ensures
            g@ == (GfxView {
                state: GfxState::WaitingCapabilities,
                surface_id: 1,
                frame_id: 0,
                pending: seq![],
                desktop_width,
                desktop_height,
                channel_id: None,
                drdynvc_channel_id: None,
                needs_keyframe: true,
                avc420_enabled: true,
            }),
    {
        GfxServer {
            state: GfxState::WaitingCapabilities,
            surface_id: 1,
            frame_id: 0,
            pending: VecDeque::new(),
            desktop_width,
            desktop_height,
            channel_id: None,
            drdynvc_channel_id: None,
            needs_keyframe: true,
            avc420_enabled: true,
        }
    }

    fn queue(&mut self, pdu: ServerPdu)
        ensures
            final(self)@ == (GfxView { pending: old(self)@.pending.push(pdu@), ..old(self)@ }),
    {
        let ghost before = self.pending@;
        self.pending.push_back(pdu);
        proof {
            assert(messages(before.push(pdu)) =~= messages(before).push(pdu@));
        }
    }

    /// Enqueue the messages that carry the AVC420 data of one frame. `ms` is the
    /// time in milliseconds since the epoch.
    pub fn send_avc420_frame(
        &mut self,
        h264_data: &[u8],
        width: u16,
        height: u16,
        quant_parameter: u8,
        is_keyframe: bool,
        ms: u64,
    )
        requires
            old(self).state == GfxState::Active ==> {
                &&& old(self).frame_id < u32::MAX
                &&& quant_parameter < 64
                &&& h264_data@.len() + 14 <= isize::MAX
            },
        ensures
            final(self)@ == with_frame(
                old(self)@,
                h264_data@,
                width,
                height,
                quant_parameter,
                is_keyframe,
                ms as int,
            ),
    {
        if self.state != GfxState::Active {
            return ;
        }
        let ghost g = self@;
        let frame_id: u32 = self.frame_id;
        self.frame_id += 1;
        let timestamp = Timestamp {
            milliseconds: (ms % 1000) as u16,
            seconds: (ms / 1000 % 60) as u8,
            minutes: (ms / 60_000 % 60) as u8,
            hours: (ms / 3_600_000 % 24) as u16,
        };
        self.queue(ServerPdu::StartFrame { timestamp, frame_id });
        let right: u16 = width.saturating_sub(1);
        let bottom: u16 = height.saturating_sub(1);
        let quality: u8 = if is_keyframe {
            quant_parameter
        } else {
            let lowered: u8 = quant_parameter.saturating_add(4);
            if lowered < 51 {
                lowered
            } else {
                51
            }
        };
        let bitmap_data: Vec<u8> = match encode_avc420(
            right,
            bottom,
            quant_parameter,
            quality,
            h264_data,
        ) {
            Some(data) => data,
            None => {
                return ;
            },
        };
        self.queue(
            ServerPdu::WireToSurface1 { surface_id: self.surface_id, right, bottom, bitmap_data },
        );
        self.queue(ServerPdu::EndFrame { frame_id });
        proof {
            let more = frame_messages(
                g,
                h264_data@,
                width,
                height,
                quant_parameter,
                is_keyframe,
                ms as int,
            );
            assert(self@.pending =~= g.pending + more);
        }
    }

    /// Whether the graphics pipeline is active and ready to send frames.
    pub fn is_active(&self) -> (r: bool)
        ensures
            r == (self.state == GfxState::Active),
    {
        self.state == GfxState::Active
    }

    /// Takes note of the versions that the client takes and answers with the one
    /// to use, followed by the surface.
    pub fn handle_capabilities_advertise(&mut self, caps: &Vec<CapabilitySet>)
        ensures
            final(self)@ == negotiated(old(self)@, caps@),
    {
        let avc_ok: bool = client_supports_avc420(caps);
        self.avc420_enabled = avc_ok;
        if !avc_ok {
            return ;
        }
        self.queue(ServerPdu::CapabilitiesConfirm(CapabilitySet::V8_1 { flags: 0x12 }));
        self.init_surface();
    }

    /// Set up a surface of the desktop size.
    pub fn init_surface(&mut self)
        ensures
            final(self)@ == with_surface(old(self)@),
    {
        let ghost g = self@;
        self.needs_keyframe = true;  // New surface = need keyframe
        self.queue(
            ServerPdu::ResetGraphics {
                width: self.desktop_width as u32,
                height: self.desktop_height as u32,
                monitor_right: self.desktop_width as i32 - 1,
                monitor_bottom: self.desktop_height as i32 - 1,
            },
        );
        self.queue(
            ServerPdu::CreateSurface {
                surface_id: self.surface_id,
                surface_width: self.desktop_width,
                surface_height: self.desktop_height,
            },
        );
        self.queue(ServerPdu::MapSurfaceToOutput { surface_id: self.surface_id });
        self.state = GfxState::Active;
        proof {
            assert(self@.pending =~= g.pending + surface_messages(g));
        }
    }

    /// Update the desktop size (for deactivation-reactivation or
    /// resizing when the client requests a different resolution).
    pub fn set_desktop_size(&mut self, width: u16, height: u16)
        ensures
            final(self)@ == (GfxView {
                desktop_width: width,
                desktop_height: height,
                ..old(self)@
            }),
    {
        self.desktop_width = width;
        self.desktop_height = height;
    }

    /// Set the static channel ID for outbound messages.
    pub fn set_drdynvc_channel_id(&mut self, id: u16)
        ensures
            final(self)@ == (GfxView { drdynvc_channel_id: Some(id), ..old(self)@ }),
    {
        self.drdynvc_channel_id = Some(id);
    }

    /// Whether a keyframe is needed before sending P-frames.
    /// Returns true after init_surface() until a keyframe is sent.
    pub fn needs_keyframe(&self) -> (r: bool)
        ensures
            r == self.needs_keyframe,
    {
        self.needs_keyframe
    }

    /// Mark that a keyframe has been sent (no longer needs one).
    pub fn clear_needs_keyframe(&mut self)
        ensures
            final(self)@ == (GfxView { needs_keyframe: false, ..old(self)@ }),
    {
        self.needs_keyframe = false;
    }

    /// Take all pending messages, oldest first.
    pub fn drain_pending(&mut self) -> (pdus: Vec<ServerPdu>)
        ensures
            messages(pdus@) == old(self)@.pending,
            final(self)@ == (GfxView { pending: seq![], ..old(self)@ }),
    {
        let ghost start = self@;
        let mut pdus: Vec<ServerPdu> = Vec::new();
        assert(messages(pdus@) + self@.pending =~= start.pending);
        loop
            invariant
                messages(pdus@) + self@.pending == start.pending,
                self@ == (GfxView { pending: self@.pending, ..start }),
            ensures
                messages(pdus@) == start.pending,
                self@ == (GfxView { pending: seq![], ..start }),
            decreases self.pending@.len(),
        {
            let ghost queue = self.pending@;
            let ghost taken = pdus@;
            match self.pending.pop_front() {
                Some(pdu) => {
                    pdus.push(pdu);
                    proof {
                        assert(self.pending@ =~= queue.drop_first());
                        assert(messages(taken.push(pdu)) =~= messages(taken).push(pdu@));
                        assert(messages(taken) + messages(queue) =~= messages(pdus@)
                            + messages(self.pending@));
                    }
                },
                None => {
                    proof {
                        assert(messages(self.pending@) =~= seq![]);
                        assert(messages(pdus@) + messages(self.pending@) =~= messages(pdus@));
                    }
                    break ;
                },
            }
        }
        pdus
    }

    /// The channel is opened.
    pub fn start(&mut self, channel_id: u32)
        ensures
            final(self)@ == (GfxView {
                state: GfxState::WaitingCapabilities,
                channel_id: Some(channel_id),
                pending: seq![],
                ..old(self)@
            }),
    {
        self.state = GfxState::WaitingCapabilities;
        self.channel_id = Some(channel_id);
        self.pending.clear();
    }

    /// Processes a message of the client and returns what is to be sent. Bytes
    /// that are no message are ignored, and what is queued stays queued.
    pub fn process(&mut self, payload: &[u8]) -> (pdus: Vec<ServerPdu>)
        requires
            readable(payload@),
        ensures
            match client_message(payload@) {
                None => messages(pdus@) == Seq::<ServerMessage>::empty() && final(self)@ == old(
                    self,
                )@,
                Some(message) => {
                    let g = processed(old(self)@, message);
                    &&& messages(pdus@) == g.pending
                    &&& final(self)@ == (GfxView { pending: seq![], ..g })
                },
            },
    {
        match decode_client_pdu(payload) {
            None => {
                let none: Vec<ServerPdu> = Vec::new();
                assert(messages(none@) =~= seq![]);
                none
            },
            Some(pdu) => self.answer(pdu),
        }
    }

    /// Takes a message of the client and returns what is to be sent.
    pub fn answer(&mut self, pdu: ClientPdu) -> (pdus: Vec<ServerPdu>)
        ensures
            messages(pdus@) == processed(old(self)@, pdu@).pending,
            final(self)@ == (GfxView { pending: seq![], ..processed(old(self)@, pdu@) }),
    {
        match pdu {
            ClientPdu::CapabilitiesAdvertise(caps) => self.handle_capabilities_advertise(&caps),
            ClientPdu::FrameAcknowledge { .. } => {},
        }
        self.drain_pending()
    }

    /// The channel is closed.
    pub fn close(&mut self)
        ensures
            final(self)@ == (GfxView {
                state: GfxState::WaitingCapabilities,
                channel_id: None,
                ..old(self)@
            }),
    {
        self.state = GfxState::WaitingCapabilities;
        self.channel_id = None;
    }

    /// The desktop has a new size. Returns whether the surface was resized in
    /// place; else the connection has to be reactivated.
    pub fn resize(&mut self, size: DesktopSize) -> (in_place: bool)
        ensures
            in_place == (old(self).state == GfxState::Active && old(self).avc420_enabled),
            final(self)@ == (if in_place {
                resized(old(self)@, size.width, size.height)
            } else {
                old(self)@
            }),
    {
        if self.state == GfxState::Active && self.avc420_enabled {
            self.set_desktop_size(size.width, size.height);
            self.init_surface();
            true
        } else {
            false
        }
    }

    /// Queues an encoded frame of the display, if it can be shown. Returns
    /// whether the encoder is to be asked for a keyframe. `ms` is the time in
    /// milliseconds since the epoch.
    pub fn route_frame(&mut self, frame: &Avc420Update, ms: u64) -> (force_keyframe: bool)
        requires
            !held_back(old(self)@, frame.width, frame.height, frame.is_keyframe) ==> {
                &&& old(self).frame_id < u32::MAX
                &&& frame.data@.len() + 14 <= isize::MAX
            },
        ensures
            (final(self)@, force_keyframe) == routed(
                old(self)@,
                frame.data@,
                frame.width,
                frame.height,
                frame.is_keyframe,
                ms as int,
            ),
            force_keyframe ==> final(self)@ == old(self)@,
            force_keyframe == (old(self).state != GfxState::Active || (!frame.is_keyframe && (
            old(self).needs_keyframe || old(self).desktop_width != frame.width || old(self).desktop_height
                != frame.height))),
            !force_keyframe ==> final(self).desktop_width == frame.width
                && final(self).desktop_height == frame.height && final(self).frame_id == old(self).frame_id + 1,
    {
        if !self.is_active() {
            return true;
        }
        let resizes: bool = self.desktop_width != frame.width || self.desktop_height
            != frame.height;
        if (self.needs_keyframe || resizes) && !frame.is_keyframe {
            return true;
        }
        if resizes {
            self.set_desktop_size(frame.width, frame.height);
            self.init_surface();
        }
        self.send_avc420_frame(
            frame.data.as_slice(),
            frame.width,
            frame.height,
            QUANTIZATION_PARAMETER,
            frame.is_keyframe,
            ms,
        );
        if frame.is_keyframe {
            self.clear_needs_keyframe();
        }
        false
    }
}

/// The channel after a message of the client, before what is queued is sent.
pub open spec fn processed(g: GfxView, message: ClientMessage) -> GfxView {
    match message {
        ClientMessage::CapabilitiesAdvertise(caps) => negotiated(g, caps),
        ClientMessage::FrameAcknowledge { .. } => g,
    }
}

/// A client that takes AVC420 is told 8.1, whose monitor format the server can
/// send, before anything else on the channel.
pub proof fn law_confirmed_version_is_8_1(g: GfxView, caps: Seq<CapabilitySet>)
    requires
        client_takes_avc420(caps),
    ensures
        negotiated(g, caps).pending == g.pending + seq![
            ServerMessage::CapabilitiesConfirm(CapabilitySet::V8_1 { flags: 0x12 }),
        ] + surface_messages(g),
{
    assert(negotiated(g, caps).pending =~= g.pending + seq![
        ServerMessage::CapabilitiesConfirm(CapabilitySet::V8_1 { flags: 0x12 }),
    ] + surface_messages(g));
}

/// A client that does not take AVC420 gets nothing on the channel, and frames
/// are not routed there: nothing changes but that AVC420 is off.
pub proof fn law_client_without_avc420_gets_nothing(g: GfxView, caps: Seq<CapabilitySet>)
    requires
        !client_takes_avc420(caps),
    ensures
        negotiated(g, caps).pending == g.pending,
        negotiated(g, caps).state == g.state,
        !negotiated(g, caps).avc420_enabled,
        negotiated(g, caps) == (GfxView { avc420_enabled: false, ..g }),
{
}

/// On a new surface the first frame that is sent is a keyframe. Other frames are
/// held back until then, and the encoder is asked for one; they make no surface
/// and are only sent where no keyframe is needed. A keyframe is sent as soon as
/// there is a surface, and none is needed then.
pub proof fn law_keyframe_comes_first(
    g: GfxView,
    data: Seq<u8>,
    width: u16,
    height: u16,
    ms: int,
)
    ensures
        routed(with_surface(g), data, width, height, false, ms) == (with_surface(g), true),
        ({
            let (after, held) = routed(g, data, width, height, false, ms);
            if held {
                after == g
            } else {
                &&& !g.needs_keyframe && !after.needs_keyframe
                &&& g.desktop_width == width && g.desktop_height == height
                &&& after.pending == g.pending + frame_messages(
                    g,
                    data,
                    width,
                    height,
                    QUANTIZATION_PARAMETER,
                    false,
                    ms,
                )
            }
        }),
        ({
            let (sent, held) = routed(g, data, width, height, true, ms);
            g.state == GfxState::Active ==> !held && !sent.needs_keyframe
        }),
{
}

/// Frames are numbered one after the other.
pub proof fn law_frames_are_numbered(
    g: GfxView,
    data: Seq<u8>,
    width: u16,
    height: u16,
    is_keyframe: bool,
    ms: int,
)
    ensures
        ({
            let (after, held) = routed(g, data, width, height, is_keyframe, ms);
            after.frame_id == (if held {
                g.frame_id
            } else {
                g.frame_id + 1
            })
        }),
{
}

/// Whenever a frame is sent, the surface has the frame's size. Where it had
/// another size, in width or in height, a surface of the frame's size is set up
/// before the frame; where it had that size, the frame alone is sent. What was
/// queued before stays queued before it.
pub proof fn law_surface_has_frame_size(
    g: GfxView,
    data: Seq<u8>,
    width: u16,
    height: u16,
    is_keyframe: bool,
    ms: int,
)
    ensures
        ({
            let (after, held) = routed(g, data, width, height, is_keyframe, ms);
            let n = g.pending.len() as int;
            let fits = g.desktop_width == width && g.desktop_height == height;
            let first = if fits {
                n
            } else {
                n + 3
            };
            !held ==> {
                &&& after.desktop_width == width
                &&& after.desktop_height == height
                &&& after.state == GfxState::Active
                &&& after.pending.len() == first + 3
                &&& after.pending.take(n) == g.pending
                &&& !fits ==> {
                    &&& after.pending[n] == (ServerMessage::ResetGraphics {
                        width: width as int,
                        height: height as int,
                        monitor_right: width - 1,
                        monitor_bottom: height - 1,
                    })
                    &&& after.pending[n + 1] == (ServerMessage::CreateSurface {
                        surface_id: g.surface_id,
                        surface_width: width,
                        surface_height: height,
                    })
                    &&& after.pending[n + 2] == (ServerMessage::MapSurfaceToOutput {
                        surface_id: g.surface_id,
                    })
                }
                &&& after.pending[first] is StartFrame
                &&& after.pending[first + 1] is WireToSurface1
                &&& after.pending[first + 2] is EndFrame
            }
        }),
{
    let (after, held) = routed(g, data, width, height, is_keyframe, ms);
    if !held {
        assert(after.pending.take(g.pending.len() as int) =~= g.pending);
    }
}

/// A frame is held back exactly where there is no surface yet, or where it is no
/// keyframe and one is needed, because the surface is new or has another size.
/// Then nothing is queued and nothing changes.
pub proof fn law_frames_are_held_back(
    g: GfxView,
    data: Seq<u8>,
    width: u16,
    height: u16,
    is_keyframe: bool,
    ms: int,
)
    ensures
        ({
            let (after, held) = routed(g, data, width, height, is_keyframe, ms);
            &&& held <==> g.state == GfxState::WaitingCapabilities || (!is_keyframe && !(
            !g.needs_keyframe && width == g.desktop_width && height == g.desktop_height))
            &&& held ==> after == g
            &&& after.surface_id == g.surface_id
            &&& after.channel_id == g.channel_id
            &&& after.drdynvc_channel_id == g.drdynvc_channel_id
            &&& after.avc420_enabled == g.avc420_enabled
            &&& after.state == g.state
        }),
{
}

/// A frame that is queued is sent whole: its messages carry the same frame
/// number and the time of day, the rectangle ends at the last pixel of the
/// frame, a keyframe is rated by its quantization parameter and another frame
/// four above it, up to 51, and the H.264 data stands unchanged at the end.
pub proof fn law_frame_is_sent_whole(
    g: GfxView,
    data: Seq<u8>,
    width: u16,
    height: u16,
    qp: u8,
    is_keyframe: bool,
    ms: int,
)
    requires
        g.state == GfxState::Active,
        0 <= g.frame_id < u32::MAX,
    ensures
        ({
            let after = with_frame(g, data, width, height, qp, is_keyframe, ms);
            let n = g.pending.len() as int;
            &&& after.pending.len() == n + 3
            &&& after.pending.take(n) == g.pending
            &&& after.frame_id == g.frame_id + 1
            &&& after.pending[n] matches ServerMessage::StartFrame { timestamp, frame_id }
                && frame_id == g.frame_id && timestamp == time_of_day(ms)
            &&& after.pending[n + 2] matches ServerMessage::EndFrame { frame_id } && frame_id
                == g.frame_id
            &&& after.pending[n + 1] matches ServerMessage::WireToSurface1 {
                surface_id,
                right,
                bottom,
                bitmap_data,
            } && {
                &&& surface_id == g.surface_id
                &&& width > 0 ==> right + 1 == width
                &&& height > 0 ==> bottom + 1 == height
                &&& width == 0 ==> right == 0
                &&& height == 0 ==> bottom == 0
                &&& bitmap_data.len() == 14 + data.len()
                &&& bitmap_data.take(8) == seq![1u8, 0u8, 0u8, 0u8, 0u8, 0u8, 0u8, 0u8]
                &&& bitmap_data[8] + 256 * bitmap_data[9] == right
                &&& bitmap_data[10] + 256 * bitmap_data[11] == bottom
                &&& bitmap_data[12] == qp
                &&& is_keyframe ==> bitmap_data[13] == qp
                &&& !is_keyframe && qp <= 47 ==> bitmap_data[13] == qp + 4
                &&& !is_keyframe && qp > 47 ==> bitmap_data[13] == 51
                &&& bitmap_data.skip(14) == data
            }
        }),
{
    let after = with_frame(g, data, width, height, qp, is_keyframe, ms);
    let right = last_coordinate(width);
    let bottom = last_coordinate(height);
    let bytes = avc420_bytes(right, bottom, qp, frame_quality(qp, is_keyframe), data);
    assert(after.pending.take(g.pending.len() as int) =~= g.pending);
    assert(bytes.take(8) =~= seq![1u8, 0u8, 0u8, 0u8, 0u8, 0u8, 0u8, 0u8]);
    assert(bytes.skip(14) =~= data);
}

/// Before the surface is there no frame is queued, and none is counted.
pub proof fn law_no_frame_without_surface(
    g: GfxView,
    data: Seq<u8>,
    width: u16,
    height: u16,
    qp: u8,
    is_keyframe: bool,
    ms: int,
)
    requires
        g.state != GfxState::Active,
    ensures
        with_frame(g, data, width, height, qp, is_keyframe, ms) == g,
        routed(g, data, width, height, is_keyframe, ms) == (g, true),
{
}

/// Every frame of the display is sent with quantization parameter 28.
pub proof fn law_frames_have_one_quantization(
    g: GfxView,
    data: Seq<u8>,
    width: u16,
    height: u16,
    is_keyframe: bool,
    ms: int,
)
    ensures
        ({
            let (after, held) = routed(g, data, width, height, is_keyframe, ms);
            !held ==> (after.pending[after.pending.len() - 2] matches ServerMessage::WireToSurface1 {
                bitmap_data,
                ..
            } && bitmap_data[12] == 28 && bitmap_data[13] == if is_keyframe {
                28int
            } else {
                32int
            } && bitmap_data.skip(14) == data)
        }),
{
    let (after, held) = routed(g, data, width, height, is_keyframe, ms);
    let right = last_coordinate(width);
    let bottom = last_coordinate(height);
    let bytes = avc420_bytes(
        right,
        bottom,
        QUANTIZATION_PARAMETER,
        frame_quality(QUANTIZATION_PARAMETER, is_keyframe),
        data,
    );
    assert(bytes.skip(14) =~= data);
}

/// A time of day tells the time back to the millisecond, up to whole days.
pub proof fn law_time_of_day_keeps_time(ms: int)
    requires
        0 <= ms,
    ensures
        ({
            let t = time_of_day(ms);
            let told = ((t.hours * 60 + t.minutes) * 60 + t.seconds) * 1000 + t.milliseconds;
            &&& t.hours < 24
            &&& t.minutes < 60
            &&& t.seconds < 60
            &&& t.milliseconds < 1000
            &&& told == ms % 86_400_000
        }),
{
    let seconds = ms / 1000;
    let minutes = seconds / 60;
    let hours = minutes / 60;
    assert(ms / 60_000 == minutes);
    assert(ms / 3_600_000 == hours);
    assert(ms / 86_400_000 == hours / 24);
    assert(ms == 1000 * seconds + ms % 1000);
    assert(seconds == 60 * minutes + seconds % 60);
    assert(minutes == 60 * hours + minutes % 60);
}

/// The surface that is set up has the desktop's size, and a keyframe is needed
/// on it, whatever was sent before; frames go on being counted.
pub proof fn law_new_surface_is_whole_desktop(g: GfxView, width: u16, height: u16)
    ensures
        ({
            let after = resized(g, width, height);
            let n = g.pending.len() as int;
            &&& after.state == GfxState::Active
            &&& after.needs_keyframe
            &&& after.desktop_width == width && after.desktop_height == height
            &&& after.frame_id == g.frame_id
            &&& after.surface_id == g.surface_id
            &&& after.channel_id == g.channel_id
            &&& after.avc420_enabled == g.avc420_enabled
            &&& after.pending.len() == n + 3
            &&& after.pending.take(n) == g.pending
            &&& after.pending[n] matches ServerMessage::ResetGraphics {
                width: w,
                height: h,
                monitor_right,
                monitor_bottom,
            } && w == width && h == height && monitor_right == w - 1 && monitor_bottom == h - 1
            &&& after.pending[n + 1] matches ServerMessage::CreateSurface {
                surface_id,
                surface_width,
                surface_height,
            } && surface_id == g.surface_id && surface_width == width && surface_height == height
            &&& after.pending[n + 2] matches ServerMessage::MapSurfaceToOutput { surface_id }
                && surface_id == g.surface_id
        }),
{
    assert(resized(g, width, height).pending.take(g.pending.len() as int) =~= g.pending);
}

/// A client takes AVC420 exactly where it advertises 8.1 with the fifth flag
/// set, or 10, 10.2 or 10.3 with the sixth flag clear. The order in which it
/// advertises them does not matter, nor what else it advertises.
pub proof fn law_avc420_flags(caps: Seq<CapabilitySet>)
    ensures
        client_takes_avc420(caps) <==> exists|i: int|
            0 <= i < caps.len() && match #[trigger] caps[i] {
                CapabilitySet::V8_1 { flags } => flags / 16 % 2 == 1,
                CapabilitySet::V10 { flags } => flags / 32 % 2 == 0,
                CapabilitySet::V10_2 { flags } => flags / 32 % 2 == 0,
                CapabilitySet::V10_3 { flags } => flags / 32 % 2 == 0,
                CapabilitySet::V8 { .. } => false,
                CapabilitySet::Other => false,
            },
{
    assert(forall|flags: u32| (#[trigger] (flags & 0x10) != 0) == (flags / 16 % 2 == 1))
        by (bit_vector);
    assert(forall|flags: u32| (#[trigger] (flags & 0x20) == 0) == (flags / 32 % 2 == 0))
        by (bit_vector);
    if client_takes_avc420(caps) {
        let i = choose|i: int| 0 <= i < caps.len() && takes_avc420(#[trigger] caps[i]);
        assert(takes_avc420(caps[i]));
    }
    assert forall|i: int| 0 <= i < caps.len() && match #[trigger] caps[i] {
        CapabilitySet::V8_1 { flags } => flags / 16 % 2 == 1,
        CapabilitySet::V10 { flags } => flags / 32 % 2 == 0,
        CapabilitySet::V10_2 { flags } => flags / 32 % 2 == 0,
        CapabilitySet::V10_3 { flags } => flags / 32 % 2 == 0,
        CapabilitySet::V8 { .. } => false,
        CapabilitySet::Other => false,
    } implies client_takes_avc420(caps) by {
        assert(takes_avc420(caps[i]));
    }
}

/// A client that takes AVC420 has a surface of the desktop's size once it has
/// been answered, on which a keyframe is needed. An acknowledged frame changes
/// nothing.
pub proof fn law_negotiation_sets_up_the_surface(
    g: GfxView,
    caps: Seq<CapabilitySet>,
    frame_id: u32,
)
    ensures
        client_takes_avc420(caps) ==> {
            let after = processed(g, ClientMessage::CapabilitiesAdvertise(caps));
            let n = g.pending.len() as int;
            &&& after.state == GfxState::Active
            &&& after.avc420_enabled
            &&& after.needs_keyframe
            &&& after.frame_id == g.frame_id
            &&& after.desktop_width == g.desktop_width
            &&& after.desktop_height == g.desktop_height
            &&& after.pending.len() == n + 4
            &&& after.pending[n] is CapabilitiesConfirm
            &&& after.pending[n + 1] == (ServerMessage::ResetGraphics {
                width: g.desktop_width as int,
                height: g.desktop_height as int,
                monitor_right: g.desktop_width - 1,
                monitor_bottom: g.desktop_height - 1,
            })
            &&& after.pending[n + 2] == (ServerMessage::CreateSurface {
                surface_id: g.surface_id,
                surface_width: g.desktop_width,
                surface_height: g.desktop_height,
            })
            &&& after.pending[n + 3] == (ServerMessage::MapSurfaceToOutput {
                surface_id: g.surface_id,
            })
        },
        processed(g, ClientMessage::FrameAcknowledge { frame_id }) == g,
{
}

/// A message has the content of what is sent, field by field.
pub proof fn law_message_is_what_is_sent(pdu: ServerPdu)
    ensures
        match (pdu, pdu@) {
            (
                ServerPdu::CapabilitiesConfirm(a),
                ServerMessage::CapabilitiesConfirm(b),
            ) => a == b,
            (
                ServerPdu::ResetGraphics { width, height, monitor_right, monitor_bottom },
                ServerMessage::ResetGraphics {
                    width: w,
                    height: h,
                    monitor_right: r,
                    monitor_bottom: b,
                },
            ) => width == w && height == h && monitor_right == r && monitor_bottom == b,
            (
                ServerPdu::CreateSurface { surface_id, surface_width, surface_height },
                ServerMessage::CreateSurface {
                    surface_id: id,
                    surface_width: w,
                    surface_height: h,
                },
            ) => surface_id == id && surface_width == w && surface_height == h,
            (
                ServerPdu::MapSurfaceToOutput { surface_id },
                ServerMessage::MapSurfaceToOutput { surface_id: id },
            ) => surface_id == id,
            (
                ServerPdu::StartFrame { timestamp, frame_id },
                ServerMessage::StartFrame { timestamp: t, frame_id: id },
            ) => timestamp == t && frame_id == id,
            (
                ServerPdu::WireToSurface1 { surface_id, right, bottom, bitmap_data },
                ServerMessage::WireToSurface1 {
                    surface_id: id,
                    right: r,
                    bottom: b,
                    bitmap_data: data,
                },
            ) => surface_id == id && right == r && bottom == b && bitmap_data@ == data,
            (ServerPdu::EndFrame { frame_id }, ServerMessage::EndFrame { frame_id: id }) => frame_id
                == id,
            _ => false,
        },
{
}

/// Bytes are looked at from eight on, and never below two. Between, they are
/// looked at unless the first two, in little-endian order, are the type of a
/// message of a client.
pub proof fn law_short_bytes(payload: Seq<u8>)
    ensures
        payload.len() >= 8 ==> readable(payload),
        payload.len() < 2 ==> !readable(payload),
        2 <= payload.len() < 8 ==> {
            let kind = payload[0] + 256 * payload[1];
            readable(payload) <==> kind != 0x0d && kind != 0x10 && kind != 0x12 && kind != 0x16
        },
{
}

} // verus!
