use osxrdp::display::{
    aspect_mode_from_env, cg_display_size, native_display_size_fallback, AspectMode, CaptureMode,
    LayoutStep, MacDisplay, StreamPlan, FRAME_INTERVAL_MS, TARGET_FPS,
};
use osxrdp::display_mode::{DisplayModeSwitcher, RestoreStep, SwitchOutcome, SwitchStep};
use osxrdp::stream::{CaptureSource, MacDisplayUpdates};
use osxrdp::update::DesktopSize;

fn sz(width: u16, height: u16) -> DesktopSize {
    DesktopSize { width, height }
}

/// Regression test for the reconnect half of the "display does not adapt"
/// bug: current_size persisted across connections, so on reconnect the
/// server saw client_size == display_size and never called
/// request_layout — no mode switch was attempted and the client got a
/// letterboxed native desktop.
#[test]
fn client_disconnected_clears_per_connection_state() {
    let mut display = MacDisplay::new(aspect_mode_from_env(None));
    display.current_size = Some(DesktopSize { width: 1920, height: 1080 });
    display.native_size = Some(DesktopSize { width: 2560, height: 1600 });
    display.mode_switch_pending = Some(DesktopSize { width: 1920, height: 1080 });

    display.client_disconnected();

    assert_eq!(display.current_size, None);
    assert_eq!(display.native_size, None);
    assert_eq!(display.mode_switch_pending, None);
}

#[test]
fn client_disconnected_restores_a_switched_display() {
    let mut display = MacDisplay::with_mode(CaptureMode::H264, AspectMode::Fit);
    assert!(matches!(display.client_disconnected(), RestoreStep::Nothing));
    display.ensure_mode_switcher(7, 2560, 1600);
    assert!(matches!(display.client_disconnected(), RestoreStep::Nothing));
    display.mode_switcher = Some(DisplayModeSwitcher::new_with_id(7, 2560, 1600));
    let RestoreStep::RunHelper(args) = display.client_disconnected() else { panic!("helper") };
    assert_eq!(args, ["--display-mode-restore", "7", "2560", "1600"]);
    assert!(matches!(display.client_disconnected(), RestoreStep::Nothing));
    display.mode_switcher = Some(DisplayModeSwitcher::new_with_id(7, 0, 1600));
    assert!(matches!(display.client_disconnected(), RestoreStep::NoOriginalMode));
}

#[test]
fn defaults() {
    assert_eq!(AspectMode::default(), AspectMode::Fit);
    assert_eq!(CaptureMode::default(), CaptureMode::Bgra);
    assert_eq!(TARGET_FPS, 30);
    assert_eq!(FRAME_INTERVAL_MS, 1000 / TARGET_FPS as u64);
    let display = MacDisplay::new(AspectMode::Native);
    assert_eq!(display.mode, CaptureMode::Bgra);
    assert_eq!(display.target_fps, 30);
    assert_eq!(display.aspect_mode, AspectMode::Native);
    assert_eq!(display.mode_switcher, None);
    assert!(!display.cg_display_forced);
}

#[test]
fn aspect_mode_setting() {
    assert_eq!(aspect_mode_from_env(None), AspectMode::Fit);
    for (value, mode) in [
        ("", AspectMode::Fit),
        ("fit", AspectMode::Fit),
        ("native", AspectMode::Native),
        ("NATIVE", AspectMode::Native),
        ("NaTiVe", AspectMode::Native),
        ("native ", AspectMode::Fit),
        ("nativ", AspectMode::Fit),
        ("natıve", AspectMode::Fit),
        ("NATİVE", AspectMode::Fit),
    ] {
        assert_eq!(aspect_mode_from_env(Some(value)), mode, "{value}");
        assert_eq!(value.to_lowercase() == "native", mode == AspectMode::Native);
    }
}

#[test]
fn display_sizes() {
    assert_eq!(cg_display_size(2560, 1600), sz(2560, 1600));
    assert_eq!(cg_display_size(0, 65536), sz(1, 1));
    assert_eq!(cg_display_size(65537, 70000), sz(1, 4464));
    assert_eq!(native_display_size_fallback(None), sz(1920, 1080));
    assert_eq!(native_display_size_fallback(Some((0, 900))), sz(1, 900));
}

#[test]
fn size_prefers_what_the_client_wants() {
    let mut d = MacDisplay::new(AspectMode::Fit);
    assert_eq!(d.size(sz(2560, 1600)), sz(2560, 1600));
    assert_eq!(d.native_size, Some(sz(2560, 1600)));
    assert_eq!(d.size(sz(10, 10)), sz(2560, 1600));
    d.current_size = Some(sz(1024, 768));
    assert_eq!(d.size(sz(10, 10)), sz(1024, 768));
}

#[test]
fn fit_layout_tries_to_switch_then_letterboxes() {
    let mut d = MacDisplay::new(AspectMode::Fit);
    assert_eq!(d.request_layout(None, sz(1, 1)), LayoutStep::Unchanged);
    let step = d.request_layout(Some((1280, 65536)), sz(2560, 1600));
    assert_eq!(step, LayoutStep::SwitchMode(sz(1280, 1)));
    assert_eq!(d.mode_switched(sz(1280, 1), SwitchOutcome::Failed), LayoutStep::Resize(sz(1280, 1)));
    assert_eq!(d.mode_switched(sz(1280, 1), SwitchOutcome::Failed), LayoutStep::Unchanged);
    assert_eq!(d.current_size, Some(sz(1280, 1)));
    assert!(!d.cg_display_forced);
}

#[test]
fn fit_layout_takes_the_switched_resolution() {
    let mut d = MacDisplay::new(AspectMode::Fit);
    d.native_size = Some(sz(2560, 1600));
    d.ensure_mode_switcher(1, 2560, 1600);
    let first = d.mode_switcher;
    d.ensure_mode_switcher(2, 1, 1);
    assert_eq!(d.mode_switcher, first);
    let step = d.mode_switched(sz(1300, 800), SwitchOutcome::Switched(1280, 800));
    assert_eq!(step, LayoutStep::Resize(sz(1280, 800)));
    assert_eq!(d.native_size, None);
    assert_eq!(d.mode_switch_pending, Some(sz(1280, 800)));
    assert!(d.cg_display_forced);
    assert_eq!(d.mode_switched(sz(1300, 800), SwitchOutcome::Switched(1280, 800)), LayoutStep::Unchanged);
    assert_eq!(d.take_pending_switch(), (true, Some(sz(1280, 800))));
    assert_eq!(d.take_pending_switch(), (true, None));
}

#[test]
fn display_at_the_requested_size_is_captured_by_a_stream() {
    let mut d = MacDisplay::with_mode(CaptureMode::Bgra, AspectMode::Fit);
    let now = sz(1920, 1080);
    let LayoutStep::SwitchMode(client) = d.request_layout(Some((1920, 1080)), now) else {
        panic!("switch")
    };
    d.ensure_mode_switcher(1, 1920, 1080);
    let step = d.mode_switcher.unwrap().switch_to_best_mode(1920, 1080, 1920, 1080);
    let SwitchStep::Already(w, h) = step else { panic!("already") };
    assert_eq!(d.mode_switched(client, SwitchOutcome::Already(w, h)), LayoutStep::Resize(now));
    assert!(!d.cg_display_forced);
    assert_eq!((d.mode_switch_pending, d.native_size), (None, None));
    d.native_size = Some(sz(5, 5));
    assert_eq!(d.mode_switched(client, SwitchOutcome::Already(w, h)), LayoutStep::Unchanged);
    assert_eq!(d.native_size, Some(sz(5, 5)));
    d.native_size = None;
    let (use_cgdisplay, pending) = d.take_pending_switch();
    assert_eq!((use_cgdisplay, pending), (false, None));
    let updates = MacDisplayUpdates::start(d.stream_plan(now, use_cgdisplay));
    assert_eq!(updates.capture, CaptureSource::Sckit);
}

#[test]
fn display_is_captured_without_a_stream_after_a_switch() {
    let mut d = MacDisplay::with_mode(CaptureMode::Bgra, AspectMode::Fit);
    d.current_size = Some(sz(1280, 800));
    d.native_size = Some(sz(2560, 1600));
    let step = d.mode_switched(sz(1280, 800), SwitchOutcome::Switched(1280, 800));
    assert_eq!(step, LayoutStep::Unchanged, "the client has that size");
    assert!(d.cg_display_forced);
    assert_eq!(d.native_size, None);
    d.client_disconnected();
    d.mode_switched(sz(2560, 1600), SwitchOutcome::Already(2560, 1600));
    let (use_cgdisplay, _) = d.take_pending_switch();
    assert!(use_cgdisplay);
    let updates = MacDisplayUpdates::start(d.stream_plan(sz(2560, 1600), use_cgdisplay));
    assert_eq!(updates.capture, CaptureSource::CGDisplay);
}

#[test]
fn native_layout_keeps_the_ratio() {
    for (w, h, native, want) in [
        (1920u32, 1080u32, sz(2560, 1600), sz(1728, 1080)),
        (1024, 768, sz(2560, 1600), sz(1024, 640)),
        (2560, 1600, sz(2560, 1600), sz(2560, 1600)),
        (1, 1, sz(2560, 1600), sz(1, 1)),
        (0, 0, sz(2560, 1600), sz(1, 1)),
        (100_000, 100_000, sz(16, 9), sz(65535, 56250)),
    ] {
        let mut d = MacDisplay::new(AspectMode::Native);
        assert_eq!(d.request_layout(Some((w, h)), native), LayoutStep::Resize(want), "{w}x{h}");
        assert_eq!(d.request_layout(Some((w, h)), native), LayoutStep::Unchanged);
        assert_eq!(d.native_size, None);
    }
}

#[test]
fn native_layout_agrees_with_floating_point_and_fits() {
    let sides = [1u32, 2, 3, 10, 599, 768, 1080, 1366, 1920, 4096, 65535];
    for &w in &sides {
        for &h in &sides {
            for &(nw, nh) in &[(2560u16, 1600u16), (1, 1), (3024, 1964), (1080, 1920), (65535, 1)] {
                let native_ratio = nw as f64 / nh as f64;
                let (aw, ah) = if (w as f64 / h as f64) > native_ratio {
                    (h as f64 * native_ratio, h as f64)
                } else {
                    (w as f64, w as f64 / native_ratio)
                };
                let want = sz((aw.round() as u16).max(1), (ah.round() as u16).max(1));
                let mut d = MacDisplay::new(AspectMode::Native);
                d.native_size = Some(sz(nw, nh));
                assert_eq!(d.request_layout(Some((w, h)), sz(9, 9)), LayoutStep::Resize(want));
                assert!(want.width as u32 <= w && want.height as u32 <= h);
                assert!(want.width as u32 == w || want.height as u32 == h);
                let (nw, nh) = (nw as i64, nh as i64);
                if 2 * w as i64 * nh >= nw && 2 * h as i64 * nw >= nh {
                    let off = want.width as i64 * nh - want.height as i64 * nw;
                    assert!(2 * off.abs() <= nw.max(nh), "{w}x{h} {nw}x{nh}");
                }
            }
        }
    }
}

#[test]
fn stream_plans() {
    let mut d = MacDisplay::with_mode(CaptureMode::H264, AspectMode::Native);
    assert!(d.awaits_layout(0) && d.awaits_layout(49) && !d.awaits_layout(50));
    assert_eq!(d.take_pending_switch(), (false, None));
    assert_eq!(
        d.stream_plan(sz(2560, 1600), false),
        StreamPlan {
            stream_size: sz(2560, 1600),
            target_size: sz(2560, 1600),
            mode: CaptureMode::H264,
            aspect_mode: AspectMode::Native,
            target_fps: 30,
            use_cgdisplay: false,
        }
    );
    d.current_size = Some(sz(800, 600));
    assert!(!d.awaits_layout(0));
    let plan = d.stream_plan(sz(1, 1), true);
    assert_eq!((plan.stream_size, plan.target_size), (sz(2560, 1600), sz(800, 600)));
    assert!(plan.use_cgdisplay);
}

#[test]
fn display_is_restored_after_a_reply_with_the_size_at_hand() {
    let mut d = MacDisplay::with_mode(CaptureMode::Bgra, AspectMode::Fit);
    d.ensure_mode_switcher(4, 2560, 1600);
    let mut switcher = d.mode_switcher.unwrap();
    let outcome = switcher.switch_finished(1280, 800, Some(b"OK 1280 800\n"));
    assert_eq!(outcome, SwitchOutcome::Already(1280, 800));
    d.mode_switcher = Some(switcher);
    d.mode_switched(sz(1281, 800), outcome);
    assert!(!d.cg_display_forced);
    let RestoreStep::RunHelper(args) = d.client_disconnected() else { panic!("helper") };
    assert_eq!(args, ["--display-mode-restore", "4", "2560", "1600"]);
}
