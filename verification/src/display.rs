//! The display that is offered to the client.
use crate::binary64::{
    below, law_rounded_to_nearest, lemma_of_int_exact, of_int, product, quotient, to_int, unit,
    Binary64, Magnitude,
};
use crate::display_mode::{
    request, restore_flag, DisplayModeSwitcher, RestoreStep, SwitchOutcome,
};
use crate::letterbox::{
    lemma_divided_by_ratio, lemma_exact_ratio, lemma_ratio_range, lemma_tall_fits,
    lemma_times_ratio, lemma_unit_large, lemma_wide_fits, ratio,
};
use crate::text::{chars_of, texts};
use crate::update::DesktopSize;
use vstd::prelude::*;

verus! {

/// Controls how the desktop aspect ratio is adjusted relative to the client.
///
/// - `Fit`: Letterbox the native desktop to fit inside the client's window.
///   The full desktop is visible with black bars filling the remaining space.
///   No content is cropped or discarded.
/// - `Native`: Preserve the server's native aspect ratio, allowing
///   the client to handle letterboxing when the ratios differ.
#[derive(Debug, Clone, Copy, PartialEq, Eq, Structural)]
pub enum AspectMode {
    Fit,
    Native,
}

impl Default for AspectMode {
    fn default() -> (mode: Self)
        ensures
            mode == AspectMode::Fit,
    {
        AspectMode::Fit
    }
}

/// An ASCII letter in lower case; any other character as it is.
pub open spec fn lower(c: char) -> char {
    if 'A' <= c <= 'Z' {
        (c as int + 32) as char
    } else {
        c
    }
}

/// The setting is the word "native", in letters of either case.
pub open spec fn says_native(s: Seq<char>) -> bool {
    s.map_values(|c: char| lower(c)) == seq!['n', 'a', 't', 'i', 'v', 'e']
}

/// The character is the given lower-case letter, or its upper-case form.
fn is_letter(c: char, letter: char, capital: char) -> (r: bool)
    requires
        'a' <= letter <= 'z',
        capital as int == letter as int - 32,
    ensures
        r == (lower(c) == letter),
{
    c == letter || c == capital
}

/// Parse aspect mode from the value of the environment variable
/// `OSXRDP_ASPECT`, if it is set: `fit` (default) or `native`.
pub fn aspect_mode_from_env(value: Option<&str>) -> (mode: AspectMode)
    ensures
        mode == (if value matches Some(s) && says_native(s@) {
            AspectMode::Native
        } else {
            AspectMode::Fit
        }),
{
    match value {
        None => AspectMode::Fit,
        Some(s) => {
            let c: Vec<char> = chars_of(s);
            let ghost low = s@.map_values(|c: char| lower(c));
            let ghost word = seq!['n', 'a', 't', 'i', 'v', 'e'];
            let native: bool = c.len() == 6 && is_letter(c[0], 'n', 'N') && is_letter(
                c[1],
                'a',
                'A',
            ) && is_letter(c[2], 't', 'T') && is_letter(c[3], 'i', 'I') && is_letter(c[4], 'v', 'V')
                && is_letter(c[5], 'e', 'E');
            proof {
                if native {
                    assert(low =~= word);
                } else if low == word {
                    assert(low.len() == 6);
                    assert(low[0] == word[0] && low[1] == word[1] && low[2] == word[2] && low[3]
                        == word[3] && low[4] == word[4] && low[5] == word[5]);
                }
            }
            if native {
                AspectMode::Native
            } else {
                AspectMode::Fit
            }
        },
    }
}

/// Whether to capture in BGRA (fall back) or YCbCr 4:2:0 (H.264) mode.
#[derive(Debug, Clone, Copy, PartialEq, Eq, Structural)]
pub enum CaptureMode {
    /// Capture BGRA, send as raw/BitmapUpdate (default).
    Bgra,
    /// Capture YCbCr 4:2:0, encode with VideoToolbox H.264, send as Avc420Update.
    H264,
}

impl Default for CaptureMode {
    fn default() -> (mode: Self)
        ensures
            mode == CaptureMode::Bgra,
    {
        CaptureMode::Bgra
    }
}

/// Default target frame rate.
pub const TARGET_FPS: u32 = 30;

/// Frame interval in milliseconds derived from [`TARGET_FPS`].
pub const FRAME_INTERVAL_MS: u64 = 33;

/// The state of the display that is kept for the whole server lifetime.
#[derive(Debug, Clone, Copy, PartialEq, Eq, Structural)]
pub struct MacDisplay {
    /// Size the RDP client wants / the desktop size we report to the client.
    /// Set by `request_layout`, reported via `size()`. None = use native.
    pub current_size: Option<DesktopSize>,
    /// Native physical display size, cached from the first successful query.
    pub native_size: Option<DesktopSize>,
    /// Capture mode: BGRA fallback or H.264 via VideoToolbox.
    pub mode: CaptureMode,
    /// Target FPS (default: 30).
    pub target_fps: u32,
    /// How to handle aspect ratio mismatch between native display and client.
    pub aspect_mode: AspectMode,
    /// Switches the physical display to a resolution matching the client.
    /// Lives here for the whole server lifetime; restored to the original
    /// mode in client_disconnected() when a connection ends.
    pub mode_switcher: Option<DisplayModeSwitcher>,
    /// When a mode switch was performed, we must wait for macOS to propagate
    /// the change before creating a capture stream. This field stores the
    /// switched resolution.
    pub mode_switch_pending: Option<DesktopSize>,
    /// True after any display mode switch. The display must be captured without
    /// a stream from then on. This persists across deactivation-reactivation
    /// cycles.
    pub cg_display_forced: bool,
}

/// What a layout request leads to.
#[derive(Debug, Clone, Copy, PartialEq, Eq, Structural)]
pub enum LayoutStep {
    /// The desktop keeps its size.
    Unchanged,
    /// The desktop has a new size, of which the update stream is to be told.
    Resize(DesktopSize),
    /// Try to switch the physical display to this size.
    SwitchMode(DesktopSize),
}

/// How to start a stream of display updates.
#[derive(Debug, Clone, Copy, PartialEq, Eq, Structural)]
pub struct StreamPlan {
    /// The size to capture at.
    pub stream_size: DesktopSize,
    /// The size that the client sees.
    pub target_size: DesktopSize,
    pub mode: CaptureMode,
    pub aspect_mode: AspectMode,
    pub target_fps: u32,
    pub use_cgdisplay: bool,
}

/// A size as it is sent: 16 bits in each direction, and at least one pixel.
pub open spec fn wire_length(n: nat) -> u16 {
    if n as u16 == 0 {
        1
    } else {
        n as u16
    }
}

/// The desktop size for a client's window.
pub open spec fn client_desktop(width: u32, height: u32) -> DesktopSize {
    DesktopSize { width: wire_length(width as nat), height: wire_length(height as nat) }
}

/// A length in pixels from a length in double precision: rounded, between 1 and
/// the largest that can be sent.
pub open spec fn pixel_length(a: Magnitude) -> u16 {
    let n = to_int(a, u16::MAX as nat);
    if n == 0 {
        1
    } else {
        n as u16
    }
}

/// The largest size of the display's own aspect ratio that fits the client's
/// window.
pub open spec fn native_layout(width: u32, height: u32, native: DesktopSize) -> DesktopSize {
    let r = ratio(native.width as nat, native.height as nat);
    if below(r, ratio(width as nat, height as nat)) {
        DesktopSize {
            width: pixel_length(product(of_int(height as nat), r)),
            height: pixel_length(of_int(height as nat)),
        }
    } else {
        DesktopSize {
            width: pixel_length(of_int(width as nat)),
            height: pixel_length(quotient(of_int(width as nat), r)),
        }
    }
}

/// The display with the given desktop size, and whether that is a change.
pub open spec fn settled(d: MacDisplay, size: DesktopSize) -> (MacDisplay, LayoutStep) {
    if d.current_size == Some(size) {
        (d, LayoutStep::Unchanged)
    } else {
        (MacDisplay { current_size: Some(size), ..d }, LayoutStep::Resize(size))
    }
}

/// What a layout request of the client does, where its first monitor has the
/// given size. `now` is the size of the display.
pub open spec fn layout_requested(
    d: MacDisplay,
    monitor: Option<(u32, u32)>,
    now: DesktopSize,
) -> (MacDisplay, LayoutStep) {
    match monitor {
        None => (d, LayoutStep::Unchanged),
        Some((width, height)) => match d.aspect_mode {
            AspectMode::Fit => (d, LayoutStep::SwitchMode(client_desktop(width, height))),
            AspectMode::Native => settled(
                d,
                native_layout(
                    width,
                    height,
                    match d.native_size {
                        Some(native) => native,
                        None => now,
                    },
                ),
            ),
        },
    }
}

/// What comes of a mode switch. The resolution of the display is the desktop
/// size. Where that is new, or the display has switched, the size of the display
/// has to be queried again. Where the display has switched, the switch has to
/// settle, and the display is captured without a stream from then on. Where no
/// mode suits, the client's size is the desktop size, and frames are letterboxed.
pub open spec fn mode_switch_done(
    d: MacDisplay,
    client: DesktopSize,
    outcome: SwitchOutcome,
) -> (MacDisplay, LayoutStep) {
    match outcome {
        SwitchOutcome::Already(w, h) => {
            let size = DesktopSize { width: w as u16, height: h as u16 };
            let (after, step) = settled(d, size);
            if step is Resize {
                (MacDisplay { native_size: None, ..after }, step)
            } else {
                (after, step)
            }
        },
        SwitchOutcome::Switched(w, h) => {
            let size = DesktopSize { width: w as u16, height: h as u16 };
            settled(
                MacDisplay {
                    native_size: None,
                    mode_switch_pending: Some(size),
                    cg_display_forced: true,
                    ..d
                },
                size,
            )
        },
        SwitchOutcome::Failed => settled(d, client),
    }
}

/// The display once its native size is known. `now` is the size of the display.
pub open spec fn measured(d: MacDisplay, now: DesktopSize) -> MacDisplay {
    match d.native_size {
        Some(_) => d,
        None => MacDisplay { native_size: Some(now), ..d },
    }
}

/// The display with a mode switcher for the display with the given id and size.
pub open spec fn with_switcher(
    d: MacDisplay,
    display_id: u32,
    width: u64,
    height: u64,
) -> MacDisplay {
    match d.mode_switcher {
        Some(_) => d,
        None => MacDisplay {
            mode_switcher: Some(
                DisplayModeSwitcher {
                    display_id,
                    original_width: width,
                    original_height: height,
                    switched: false,
                },
            ),
            ..d
        },
    }
}

/// The display once its client is gone.
pub open spec fn forgotten(d: MacDisplay) -> MacDisplay {
    MacDisplay {
        current_size: None,
        native_size: None,
        mode_switch_pending: None,
        mode_switcher: match d.mode_switcher {
            Some(s) => Some(DisplayModeSwitcher { switched: false, ..s }),
            None => None,
        },
        ..d
    }
}

/// The display has to be captured without a stream.
pub open spec fn avoids_stream(d: MacDisplay) -> bool {
    d.mode_switch_pending is Some || d.cg_display_forced
}

/// A call that changes the display.
pub enum DisplayCall {
    EnsureNativeSize(DesktopSize),
    Size(DesktopSize),
    TakePendingSwitch,
    StreamPlan(DesktopSize),
    RequestLayout(Option<(u32, u32)>, DesktopSize),
    EnsureModeSwitcher(u32, u64, u64),
    ModeSwitched(DesktopSize, SwitchOutcome),
    ClientDisconnected,
}

/// The display after a call.
pub open spec fn after_call(d: MacDisplay, call: DisplayCall) -> MacDisplay {
    match call {
        DisplayCall::EnsureNativeSize(now) => measured(d, now),
        DisplayCall::Size(now) => if d.current_size is Some {
            d
        } else {
            measured(d, now)
        },
        DisplayCall::TakePendingSwitch => MacDisplay { mode_switch_pending: None, ..d },
        DisplayCall::StreamPlan(now) => measured(d, now),
        DisplayCall::RequestLayout(monitor, now) => layout_requested(d, monitor, now).0,
        DisplayCall::EnsureModeSwitcher(id, w, h) => with_switcher(d, id, w, h),
        DisplayCall::ModeSwitched(client, outcome) => mode_switch_done(d, client, outcome).0,
        DisplayCall::ClientDisconnected => forgotten(d),
    }
}

/// The display after some calls, the first one first.
pub open spec fn after_calls(d: MacDisplay, calls: Seq<DisplayCall>) -> MacDisplay
    decreases calls.len(),
{
    if calls.len() == 0 {
        d
    } else {
        after_call(after_calls(d, calls.drop_last()), calls.last())
    }
}

/// The call tells that the display was switched to another mode.
pub open spec fn tells_switch(call: DisplayCall) -> bool {
    call matches DisplayCall::ModeSwitched(_, outcome) && outcome is Switched
}

/// A display that no client has seen yet.
pub open spec fn new_display(mode: CaptureMode, aspect_mode: AspectMode) -> MacDisplay {
    MacDisplay {
        current_size: None,
        native_size: None,
        mode,
        target_fps: TARGET_FPS,
        aspect_mode,
        mode_switcher: None,
        mode_switch_pending: None,
        cg_display_forced: false,
    }
}

/// The size of the display from the pixels that the system reports.
pub fn cg_display_size(pixels_wide: u64, pixels_high: u64) -> (size: DesktopSize)
    ensures
        size == (DesktopSize {
            width: wire_length(pixels_wide as nat),
            height: wire_length(pixels_high as nat),
        }),
{
    let width: u16 = pixels_wide as u16;
    let height: u16 = pixels_high as u16;
    DesktopSize {
        width: if width == 0 {
            1
        } else {
            width
        },
        height: if height == 0 {
            1
        } else {
            height
        },
    }
}

/// The size of the first display that can be captured, or a common size where
/// there is none or displays cannot be queried.
pub fn native_display_size_fallback(first: Option<(u32, u32)>) -> (size: DesktopSize)
    ensures
        size == match first {
            Some((w, h)) => DesktopSize {
                width: wire_length(w as nat),
                height: wire_length(h as nat),
            },
            None => DesktopSize { width: 1920, height: 1080 },
        },
{
    match first {
        Some((w, h)) => cg_display_size(w as u64, h as u64),
        None => DesktopSize { width: 1920, height: 1080 },
    }
}

fn to_pixel_length(a: Binary64) -> (n: u16)
    requires
        a.wf(),
    ensures
        n == pixel_length(a@),
{
    let n: u64 = a.round_to_u64(u16::MAX as u64);
    if n == 0 {
        1
    } else {
        n as u16
    }
}

fn compute_native_layout(width: u32, height: u32, native: DesktopSize) -> (size: DesktopSize)
    ensures
        size == native_layout(width, height, native),
{
    let client_w = Binary64::from_u64(width as u64);
    let client_h = Binary64::from_u64(height as u64);
    let native_ratio = Binary64::from_u64(native.width as u64).div(
        Binary64::from_u64(native.height as u64),
    );
    let client_ratio = client_w.div(client_h);
    assert(native_ratio.within(194));
    if native_ratio.less_than(client_ratio) {
        DesktopSize {
            width: to_pixel_length(client_h.mul(native_ratio)),
            height: to_pixel_length(client_h),
        }
    } else {
        DesktopSize {
            width: to_pixel_length(client_w),
            height: to_pixel_length(client_w.div(native_ratio)),
        }
    }
}

impl MacDisplay {
    /// A display in the default capture mode.
    pub fn new(aspect_mode: AspectMode) -> (d: Self)
        ensures
            d == new_display(CaptureMode::Bgra, aspect_mode),
    {
        MacDisplay::with_mode(CaptureMode::default(), aspect_mode)
    }

    /// Create with a specific capture mode.
    pub fn with_mode(mode: CaptureMode, aspect_mode: AspectMode) -> (d: Self)
        ensures
            d == new_display(mode, aspect_mode),
    {
        MacDisplay {
            current_size: None,
            native_size: None,
            mode,
            target_fps: TARGET_FPS,
            aspect_mode,
            mode_switcher: None,
            mode_switch_pending: None,
            cg_display_forced: false,
        }
    }

    /// Ensure `native_size` is populated. `now` is the size of the display.
    pub fn ensure_native_size(&mut self, now: DesktopSize) -> (native: DesktopSize)
        ensures
            *final(self) == after_call(*old(self), DisplayCall::EnsureNativeSize(now)),
            final(self).native_size == Some(native),
    {
        match self.native_size {
            Some(size) => size,
            None => {
                self.native_size = Some(now);
                now
            },
        }
    }

    /// The desktop size that is reported to the client. `now` is the size of the
    /// display.
    pub fn size(&mut self, now: DesktopSize) -> (size: DesktopSize)
        ensures
            *final(self) == after_call(*old(self), DisplayCall::Size(now)),
            Some(size) == (if old(self).current_size is Some {
                old(self).current_size
            } else {
                final(self).native_size
            }),
    {
        if let Some(size) = self.current_size {
            return size;
        }
        self.ensure_native_size(now)
    }

    /// Whether to wait another 10 ms for a layout from the client before the
    /// update stream starts.
    pub fn awaits_layout(&self, polled: u32) -> (wait: bool)
        ensures
            wait == (self.current_size is None && polled < 50),
    {
        self.current_size.is_none() && polled < 50
    }

    /// Whether the display has to be captured without a stream, and the mode
    /// switch, if any, that has to settle for 500 ms before that.
    pub fn take_pending_switch(&mut self) -> (r: (bool, Option<DesktopSize>))
        ensures
            r == (avoids_stream(*old(self)), old(self).mode_switch_pending),
            *final(self) == after_call(*old(self), DisplayCall::TakePendingSwitch),
    {
        let pending: Option<DesktopSize> = self.mode_switch_pending;
        let use_cgdisplay: bool = pending.is_some() || self.cg_display_forced;
        self.mode_switch_pending = None;
        (use_cgdisplay, pending)
    }

    /// How to start the update stream. `now` is the size of the display. Frames
    /// are captured at the native size and brought to the target size later.
    pub fn stream_plan(&mut self, now: DesktopSize, use_cgdisplay: bool) -> (plan: StreamPlan)
        ensures
            *final(self) == after_call(*old(self), DisplayCall::StreamPlan(now)),
            ({
                let native = final(self).native_size->Some_0;
                plan == (StreamPlan {
                    stream_size: native,
                    target_size: match old(self).current_size {
                        Some(size) => size,
                        None => native,
                    },
                    mode: old(self).mode,
                    aspect_mode: old(self).aspect_mode,
                    target_fps: old(self).target_fps,
                    use_cgdisplay,
                })
            }),
    {
        let native: DesktopSize = self.ensure_native_size(now);
        let target_size: DesktopSize = match self.current_size {
            Some(size) => size,
            None => native,
        };
        StreamPlan {
            stream_size: native,
            target_size,
            mode: self.mode,
            aspect_mode: self.aspect_mode,
            target_fps: self.target_fps,
            use_cgdisplay,
        }
    }

    fn settle(&mut self, size: DesktopSize) -> (step: LayoutStep)
        ensures
            (*final(self), step) == settled(*old(self), size),
    {
        match self.current_size {
            Some(current) => {
                if current.width == size.width && current.height == size.height {
                    return LayoutStep::Unchanged;
                }
            },
            None => {},
        }
        self.current_size = Some(size);
        LayoutStep::Resize(size)
    }

    /// The client asks for a layout whose first monitor has the given size.
    /// `now` is the size of the display.
    ///
    /// In fit mode the answer is to try and switch the physical display; the
    /// request ends with [`Self::mode_switched`].
    pub fn request_layout(&mut self, monitor: Option<(u32, u32)>, now: DesktopSize) -> (step:
        LayoutStep)
        ensures
            (*final(self), step) == layout_requested(*old(self), monitor, now),
    {
        match monitor {
            None => LayoutStep::Unchanged,
            Some((width, height)) => match self.aspect_mode {
                AspectMode::Fit => LayoutStep::SwitchMode(
                    cg_display_size(width as u64, height as u64),
                ),
                AspectMode::Native => {
                    let native: DesktopSize = match self.native_size {
                        Some(size) => size,
                        None => now,
                    };
                    self.settle(compute_native_layout(width, height, native))
                },
            },
        }
    }

    /// Create the mode switcher on the first layout request in fit mode, for the
    /// display with the given id and size.
    pub fn ensure_mode_switcher(&mut self, display_id: u32, width: u64, height: u64)
        ensures
            *final(self) == with_switcher(*old(self), display_id, width, height),
    {
        if self.mode_switcher.is_none() {
            self.mode_switcher = Some(DisplayModeSwitcher::new(display_id, width, height));
        }
    }

    /// The mode switch that a layout request asked for has ended with the given
    /// outcome.
    pub fn mode_switched(&mut self, client: DesktopSize, outcome: SwitchOutcome) -> (step:
        LayoutStep)
        ensures
            (*final(self), step) == mode_switch_done(*old(self), client, outcome),
            final(self).cg_display_forced == (old(self).cg_display_forced || outcome is Switched),
            ({
                let (width, height) = match outcome {
                    SwitchOutcome::Already(w, h) => (w as u16, h as u16),
                    SwitchOutcome::Switched(w, h) => (w as u16, h as u16),
                    SwitchOutcome::Failed => (client.width, client.height),
                };
                &&& final(self).current_size == Some(DesktopSize { width, height })
                &&& step == (if old(self).current_size matches Some(c) && c.width == width
                    && c.height == height {
                    LayoutStep::Unchanged
                } else {
                    LayoutStep::Resize(DesktopSize { width, height })
                })
            }),
    {
        match outcome {
            SwitchOutcome::Already(w, h) => {
                let step = self.settle(DesktopSize { width: w as u16, height: h as u16 });
                if let LayoutStep::Resize(_) = step {
                    self.native_size = None;  // will be queried again
                }
                step
            },
            SwitchOutcome::Switched(w, h) => {
                let size = DesktopSize { width: w as u16, height: h as u16 };
                self.native_size = None;  // will be queried again
                self.mode_switch_pending = Some(size);
                self.cg_display_forced = true;
                self.settle(size)
            },
            SwitchOutcome::Failed => self.settle(client),
        }
    }

    /// The client is gone. Forget per-connection state so the next client
    /// negotiates from scratch, and restore the display's original mode.
    pub fn client_disconnected(&mut self) -> (step: RestoreStep)
        ensures
            *final(self) == forgotten(*old(self)),
            match step {
                RestoreStep::Nothing => !(old(self).mode_switcher matches Some(s) && s.switched),
                RestoreStep::NoOriginalMode => old(self).mode_switcher matches Some(s) && s.switched
                    && (s.original_width == 0 || s.original_height == 0),
                RestoreStep::RunHelper(args) => old(self).mode_switcher matches Some(s) && {
                    &&& s.switched
                    &&& s.original_width != 0 && s.original_height != 0
                    &&& texts(args@) == request(
                        restore_flag(),
                        s.display_id as nat,
                        s.original_width as nat,
                        s.original_height as nat,
                    )
                },
            },
    {
        let step = match self.mode_switcher {
            Some(s) => {
                let mut switcher: DisplayModeSwitcher = s;
                let step = switcher.restore();
                self.mode_switcher = Some(switcher);
                step
            },
            None => RestoreStep::Nothing,
        };
        self.current_size = None;
        self.native_size = None;
        self.mode_switch_pending = None;
        step
    }
}

/// A size that was settled on is not announced again.
pub proof fn law_same_layout_is_announced_once(
    d: MacDisplay,
    monitor: Option<(u32, u32)>,
    now: DesktopSize,
)
    requires
        d.aspect_mode == AspectMode::Native,
    ensures
        ({
            let (after, _) = layout_requested(d, monitor, now);
            layout_requested(after, monitor, now) == (after, LayoutStep::Unchanged)
        }),
{
}

/// A mode switch with the same outcome changes nothing the second time.
pub proof fn law_same_switch_is_announced_once(
    d: MacDisplay,
    client: DesktopSize,
    outcome: SwitchOutcome,
)
    ensures
        ({
            let (after, _) = mode_switch_done(d, client, outcome);
            mode_switch_done(after, client, outcome) == (after, LayoutStep::Unchanged)
        }),
{
}

/// The preferred backend is used as long as no mode switch has occurred: after
/// any calls on a new display, it has to be captured without a stream exactly if
/// one of them told of a switch. In the same way the flag that forces this tells
/// whether there was a switch.
pub proof fn law_stream_is_avoided_after_a_switch(
    mode: CaptureMode,
    aspect_mode: AspectMode,
    calls: Seq<DisplayCall>,
)
    ensures
        ({
            let d = after_calls(new_display(mode, aspect_mode), calls);
            let switched = exists|i: int| 0 <= i < calls.len() && tells_switch(#[trigger] calls[i]);
            &&& avoids_stream(d) == switched
            &&& d.cg_display_forced == switched
        }),
    decreases calls.len(),
{
    if calls.len() > 0 {
        let before = calls.drop_last();
        law_stream_is_avoided_after_a_switch(mode, aspect_mode, before);
        let last = calls.len() - 1;
        if exists|i: int| 0 <= i < before.len() && tells_switch(#[trigger] before[i]) {
            let i = choose|i: int| 0 <= i < before.len() && tells_switch(#[trigger] before[i]);
            assert(tells_switch(calls[i]));
        }
        if exists|i: int| 0 <= i < calls.len() && tells_switch(#[trigger] calls[i]) {
            let i = choose|i: int| 0 <= i < calls.len() && tells_switch(#[trigger] calls[i]);
            assert(i == last || before[i] == calls[i]);
        }
        if tells_switch(calls.last()) {
            assert(tells_switch(calls[last]));
        }
    }
}

/// A request for the resolution that the display has leaves the choice of the
/// capture backend alone.
pub proof fn law_layout_at_hand_keeps_backend(
    d: MacDisplay,
    client: DesktopSize,
    width: u32,
    height: u32,
)
    ensures
        ({
            let (after, _) = mode_switch_done(d, client, SwitchOutcome::Already(width, height));
            &&& after.cg_display_forced == d.cg_display_forced
            &&& after.mode_switch_pending == d.mode_switch_pending
        }),
{
}

/// The desktop always has at least one pixel.
pub proof fn law_layout_is_not_empty(width: u32, height: u32, native: DesktopSize)
    ensures
        client_desktop(width, height).width >= 1,
        client_desktop(width, height).height >= 1,
        native_layout(width, height, native).width >= 1,
        native_layout(width, height, native).height >= 1,
{
}

/// An integer that is rounded to an integer stays as it is.
proof fn lemma_pixel_length_of_int(n: nat)
    requires
        0 < n <= u16::MAX,
    ensures
        pixel_length(of_int(n)) == n,
{
    let u = unit();
    lemma_unit_large();
    lemma_of_int_exact(n);
    let x = n * u;
    assert((2 * x + u) / (2 * u) == n) by (nonlinear_arith)
        requires
            x == n * u,
            u > 0,
    ;
}

/// In native mode the desktop fits the client's window: it is as wide or as
/// high as the window, and not larger in the other direction.
pub proof fn law_native_layout_fits_window(width: u32, height: u32, native: DesktopSize)
    requires
        0 < width <= u16::MAX,
        0 < height <= u16::MAX,
        0 < native.width,
        0 < native.height,
    ensures
        ({
            let size = native_layout(width, height, native);
            &&& size.width <= width
            &&& size.height <= height
            &&& size.width == width || size.height == height
        }),
{
    let limit = u16::MAX as nat;
    let r = lemma_ratio_range(native.width as nat, native.height as nat);
    lemma_exact_ratio(width as nat, height as nat);
    lemma_pixel_length_of_int(width as nat);
    lemma_pixel_length_of_int(height as nat);
    if below(ratio(native.width as nat, native.height as nat), ratio(width as nat, height as nat)) {
        lemma_tall_fits(width as nat, height as nat, r, limit);
    } else {
        lemma_wide_fits(width as nat, height as nat, r, limit);
    }
}

/// In native mode the display's own aspect ratio is preserved, as far as whole
/// pixels allow: no side is more than half a pixel off. This does not hold where
/// the exact one is less than half a pixel, because the desktop is not empty.
pub proof fn law_native_layout_keeps_ratio(width: u32, height: u32, native: DesktopSize)
    requires
        0 < width <= u16::MAX,
        0 < height <= u16::MAX,
        0 < native.width,
        0 < native.height,
        2 * (width * native.height) >= native.width,
        2 * (height * native.width) >= native.height,
    ensures
        ({
            let size = native_layout(width, height, native);
            let off = size.width * native.height - size.height * native.width;
            let longest = if native.width >= native.height {
                native.width
            } else {
                native.height
            };
            -longest <= 2 * off <= longest
        }),
{
    let limit = u16::MAX as nat;
    // No side is cut off at this limit.
    let far = 0x1_0000_0000nat;
    let size = native_layout(width, height, native);
    let nw = native.width as nat;
    let nh = native.height as nat;
    let r = lemma_ratio_range(nw, nh);
    lemma_exact_ratio(width as nat, height as nat);
    lemma_pixel_length_of_int(width as nat);
    lemma_pixel_length_of_int(height as nat);
    if below(ratio(nw, nh), ratio(width as nat, height as nat)) {
        lemma_tall_fits(width as nat, height as nat, r, far);
        lemma_times_ratio(height as nat, nw, nh, far);
        let n = to_int(product(of_int(height as nat), ratio(nw, nh)), far);
        assert(n == to_int(product(of_int(height as nat), ratio(nw, nh)), limit));
        assert(size.height == height && size.width == (if n == 0 {
            1
        } else {
            n
        }));
        assert(n == 0 ==> n * nh == 0 && size.width * nh == nh) by (nonlinear_arith)
            requires
                n == 0 ==> size.width == 1,
        ;
    } else {
        lemma_wide_fits(width as nat, height as nat, r, far);
        lemma_divided_by_ratio(width as nat, nw, nh, far);
        let n = to_int(quotient(of_int(width as nat), ratio(nw, nh)), far);
        assert(n == to_int(quotient(of_int(width as nat), ratio(nw, nh)), limit));
        assert(size.width == width && size.height == (if n == 0 {
            1
        } else {
            n
        }));
        assert(n == 0 ==> n * nw == 0 && size.height * nw == nw) by (nonlinear_arith)
            requires
                n == 0 ==> size.height == 1,
        ;
    }
}

/// Whatever a mode switch leads to, that is the desktop size: the resolution of
/// the display where one was told, else the client's size. The step says
/// [`LayoutStep::Unchanged`] exactly where the desktop had that width and that
/// height before, and announces the size else.
pub proof fn law_switch_is_settled(d: MacDisplay, client: DesktopSize, outcome: SwitchOutcome)
    ensures
        ({
            let (after, step) = mode_switch_done(d, client, outcome);
            let (width, height) = match outcome {
                SwitchOutcome::Already(w, h) => (w as u16, h as u16),
                SwitchOutcome::Switched(w, h) => (w as u16, h as u16),
                SwitchOutcome::Failed => (client.width, client.height),
            };
            &&& after.current_size matches Some(size) && size.width == width && size.height
                == height
            &&& step is Unchanged <==> (d.current_size matches Some(before) && before.width == width
                && before.height == height)
            &&& step !is Unchanged ==> (step matches LayoutStep::Resize(size) && size.width == width
                && size.height == height)
        }),
{
}

/// After a switch the size of the display is queried again, the switch has to
/// settle, and no stream is used. Where the resolution was there already, the
/// size is queried again only if it is announced. Where no mode suits, nothing
/// but the desktop size changes.
pub proof fn law_switch_leaves_the_rest(
    d: MacDisplay,
    client: DesktopSize,
    outcome: SwitchOutcome,
)
    ensures
        ({
            let (after, step) = mode_switch_done(d, client, outcome);
            &&& after.mode == d.mode
            &&& after.target_fps == d.target_fps
            &&& after.aspect_mode == d.aspect_mode
            &&& after.mode_switcher == d.mode_switcher
            &&& outcome is Switched ==> after.native_size is None && after.mode_switch_pending
                == after.current_size && after.cg_display_forced
            &&& outcome !is Switched ==> after.mode_switch_pending == d.mode_switch_pending
                && after.cg_display_forced == d.cg_display_forced
            &&& outcome is Already ==> after.native_size == (if step is Unchanged {
                d.native_size
            } else {
                None
            })
            &&& outcome is Failed ==> after.native_size == d.native_size
        }),
{
}

/// In native mode a layout request ends at once: the size that fits the window
/// is the desktop size, and it is announced unless the desktop had that width
/// and that height before. Nothing else changes.
pub proof fn law_native_request_is_settled(
    d: MacDisplay,
    width: u32,
    height: u32,
    now: DesktopSize,
)
    requires
        d.aspect_mode == AspectMode::Native,
    ensures
        ({
            let (after, step) = layout_requested(d, Some((width, height)), now);
            let native = if d.native_size is Some {
                d.native_size->Some_0
            } else {
                now
            };
            let size = native_layout(width, height, native);
            &&& after.current_size matches Some(c) && c.width == size.width && c.height
                == size.height
            &&& step is Unchanged <==> (d.current_size matches Some(before) && before.width
                == size.width && before.height == size.height)
            &&& step !is Unchanged ==> step == LayoutStep::Resize(size)
            &&& after == (MacDisplay { current_size: after.current_size, ..d })
        }),
{
}

/// In fit mode a layout request changes nothing by itself: it asks for a mode of
/// the window's size, in which a side that is sent in 16 bits is kept, and an
/// empty one counts as one pixel.
pub proof fn law_fit_request_asks_for_a_switch(
    d: MacDisplay,
    width: u32,
    height: u32,
    now: DesktopSize,
)
    requires
        d.aspect_mode == AspectMode::Fit,
    ensures
        ({
            let (after, step) = layout_requested(d, Some((width, height)), now);
            &&& after == d
            &&& step matches LayoutStep::SwitchMode(size) && {
                &&& 0 < width <= u16::MAX ==> size.width == width
                &&& 0 < height <= u16::MAX ==> size.height == height
                &&& width == 0 ==> size.width == 1
                &&& height == 0 ==> size.height == 1
            }
        }),
{
}

/// A request without a monitor changes nothing.
pub proof fn law_empty_request_changes_nothing(d: MacDisplay, now: DesktopSize)
    ensures
        layout_requested(d, None, now) == (d, LayoutStep::Unchanged),
{
}

/// A side is sent in 16 bits; what is left of it is never empty.
pub proof fn law_wire_length(n: u64)
    ensures
        wire_length(n as nat) == (if n % 0x10000 == 0 {
            1
        } else {
            n as nat % 0x10000
        }),
{
    assert(n as u16 == n % 0x10000) by (bit_vector);
}

/// The display is measured once: the size that was found first stays until it is
/// to be queried again, and asking for it changes nothing else.
pub proof fn law_display_is_measured_once(d: MacDisplay, now: DesktopSize, later: DesktopSize)
    ensures
        ({
            let known = after_call(d, DisplayCall::EnsureNativeSize(now));
            &&& known.native_size == (if d.native_size is Some {
                d.native_size
            } else {
                Some(now)
            })
            &&& known == (MacDisplay { native_size: known.native_size, ..d })
            &&& after_call(known, DisplayCall::EnsureNativeSize(later)) == known
            &&& after_call(known, DisplayCall::StreamPlan(later)) == known
            &&& after_call(known, DisplayCall::Size(later)) == known
            &&& after_call(d, DisplayCall::StreamPlan(now)) == known
            &&& d.current_size is None ==> after_call(d, DisplayCall::Size(now)) == known
            &&& d.current_size is Some ==> after_call(d, DisplayCall::Size(now)) == d
        }),
{
}

/// A pending switch is taken once, and nothing else changes with it: whether
/// the display may be captured by a stream then depends on the flag alone.
pub proof fn law_pending_switch_is_taken_once(d: MacDisplay)
    ensures
        ({
            let after = after_call(d, DisplayCall::TakePendingSwitch);
            &&& after.mode_switch_pending is None
            &&& after == (MacDisplay { mode_switch_pending: None, ..d })
            &&& avoids_stream(after) == d.cg_display_forced
            &&& d.mode_switch_pending is Some ==> avoids_stream(d)
        }),
{
}

/// The first mode switcher stays for the whole lifetime, so that it is the mode
/// from before any switch that is restored.
pub proof fn law_first_switcher_stays(
    d: MacDisplay,
    id: u32,
    width: u64,
    height: u64,
    later_id: u32,
    later_width: u64,
    later_height: u64,
)
    ensures
        ({
            let after = with_switcher(d, id, width, height);
            &&& after.mode_switcher is Some
            &&& after == (MacDisplay { mode_switcher: after.mode_switcher, ..d })
            &&& d.mode_switcher is Some ==> after == d
            &&& d.mode_switcher is None ==> (after.mode_switcher matches Some(s) && s.display_id
                == id && s.original_width == width && s.original_height == height && !s.switched)
            &&& with_switcher(after, later_id, later_width, later_height) == after
        }),
{
}

/// The next client negotiates from scratch: nothing of the connection is left.
/// What the server was started with stays, and so does the mode switcher with
/// the original mode, and whether the display was ever switched.
pub proof fn law_next_client_starts_over(d: MacDisplay)
    ensures
        ({
            let after = forgotten(d);
            &&& after.current_size is None
            &&& after.native_size is None
            &&& after.mode_switch_pending is None
            &&& after.mode == d.mode
            &&& after.target_fps == d.target_fps
            &&& after.aspect_mode == d.aspect_mode
            &&& after.cg_display_forced == d.cg_display_forced
            &&& after.mode_switcher is Some == d.mode_switcher is Some
            &&& d.mode_switcher matches Some(s) ==> (after.mode_switcher matches Some(t)
                && !t.switched && t.display_id == s.display_id && t.original_width
                == s.original_width && t.original_height == s.original_height)
        }),
{
}

/// A new display reports its own size, at 30 frames per second, and may be
/// captured by a stream.
pub proof fn law_new_display(mode: CaptureMode, aspect_mode: AspectMode)
    ensures
        ({
            let d = new_display(mode, aspect_mode);
            &&& d.current_size is None
            &&& d.native_size is None
            &&& d.mode_switcher is None
            &&& d.mode == mode
            &&& d.aspect_mode == aspect_mode
            &&& d.target_fps == 30
            &&& !avoids_stream(d)
        }),
{
}

/// Only the word "native" chooses native mode, its letters each in either case.
pub proof fn law_native_setting(s: Seq<char>)
    ensures
        says_native(s) <==> {
            &&& s.len() == 6
            &&& s[0] == 'n' || s[0] == 'N'
            &&& s[1] == 'a' || s[1] == 'A'
            &&& s[2] == 't' || s[2] == 'T'
            &&& s[3] == 'i' || s[3] == 'I'
            &&& s[4] == 'v' || s[4] == 'V'
            &&& s[5] == 'e' || s[5] == 'E'
        },
{
    let low = s.map_values(|c: char| lower(c));
    let word = seq!['n', 'a', 't', 'i', 'v', 'e'];
    if low == word {
        assert(low.len() == 6);
        assert(low[0] == 'n' && low[1] == 'a' && low[2] == 't' && low[3] == 'i' && low[4] == 'v'
            && low[5] == 'e');
    }
    if s.len() == 6 && (s[0] == 'n' || s[0] == 'N') && (s[1] == 'a' || s[1] == 'A') && (s[2] == 't'
        || s[2] == 'T') && (s[3] == 'i' || s[3] == 'I') && (s[4] == 'v' || s[4] == 'V') && (s[5]
        == 'e' || s[5] == 'E') {
        assert(low =~= word);
    }
}

/// A length is rounded to the nearest pixel, upwards from a half; what would be
/// empty is one pixel, and what is too long for the wire is the longest that can
/// be sent.
pub proof fn law_pixel_length(x: nat)
    ensures
        ({
            let n = pixel_length(Magnitude::Finite(x));
            let u = unit();
            &&& n >= 1
            &&& n > 1 ==> 2 * (n * u) <= 2 * x + u
            &&& n < u16::MAX ==> 2 * x + u < 2 * ((n + 1) * u)
        }),
        pixel_length(Magnitude::Infinite) == u16::MAX,
        pixel_length(Magnitude::NotANumber) == 1,
{
    law_rounded_to_nearest(x, u16::MAX as nat);
    let u = unit();
    let n = to_int(Magnitude::Finite(x), u16::MAX as nat);
    assert((0 + 1) * u <= (1 + 1) * u) by (nonlinear_arith);
}

} // verus!
