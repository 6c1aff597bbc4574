use osxrdp::display::{AspectMode, CaptureMode, StreamPlan};
use osxrdp::h264::{Delivery, EncodeResult};
use osxrdp::stream::{
    frame_interval_ms, retry_delay, stream_config, MacDisplayUpdates, Recreation, StreamFormat,
    UpdateAction, UpdateEvent,
};
use osxrdp::update::{DesktopSize, DisplayUpdate};

fn sz(width: u16, height: u16) -> DesktopSize {
    DesktopSize { width, height }
}

fn start(mode: CaptureMode, use_cgdisplay: bool) -> MacDisplayUpdates {
    MacDisplayUpdates::start(StreamPlan {
        stream_size: sz(4, 4),
        target_size: sz(4, 4),
        mode,
        aspect_mode: AspectMode::Native,
        target_fps: 30,
        use_cgdisplay,
    })
}

fn pixels(data: &[u8]) -> UpdateEvent<'_> {
    UpdateEvent::Pixels { data, width: 4, height: 4, stride: 16 }
}

const IDLE: UpdateEvent<'static> = UpdateEvent::Poll { resize: None, avc420: true };

#[test]
fn bitmap_stream_delivers_changed_frames() {
    let mut u = start(CaptureMode::Bgra, false);
    assert!(u.h264_encoder.is_none());
    let frame = [1u8; 64];
    assert!(matches!(u.next_update(IDLE), UpdateAction::Tick));
    assert!(matches!(u.next_update(UpdateEvent::Tick { avc420: true }), UpdateAction::NextSample));
    let image = UpdateEvent::SampleImage { width: 4, height: 4 };
    assert!(matches!(u.next_update(image), UpdateAction::InspectFrame));
    let action = u.next_update(UpdateEvent::Frame { avc420: true });
    assert!(matches!(action, UpdateAction::LockForPixels));
    let UpdateAction::Return(Some(DisplayUpdate::Bitmap(b))) = u.next_update(pixels(&frame)) else {
        panic!("expected a bitmap")
    };
    assert_eq!((b.width, b.height, &b.data[..]), (4, 4, &frame[..]));
    assert!(matches!(u.next_update(pixels(&frame)), UpdateAction::Poll));
    assert!(matches!(u.next_update(UpdateEvent::LockFailed { code: -3 }), UpdateAction::Fail { code: -3 }));
    assert!(matches!(u.next_update(UpdateEvent::SampleEnded), UpdateAction::Return(None)));
}

#[test]
fn resize_goes_before_queued_updates() {
    let mut u = start(CaptureMode::Bgra, true);
    u.bgra_pipeline.push_frame(&[7; 64], 4, 4, 16);
    let poll = UpdateEvent::Poll { resize: Some(sz(9, 8)), avc420: true };
    let UpdateAction::Return(Some(DisplayUpdate::Resize(size))) = u.next_update(poll) else {
        panic!("expected a resize")
    };
    assert_eq!((size, u.target_size), (sz(9, 8), sz(9, 8)));
    let action = u.next_update(IDLE);
    assert!(matches!(action, UpdateAction::Return(Some(DisplayUpdate::Bitmap(_)))));
    assert!(matches!(u.next_update(IDLE), UpdateAction::Tick));
}

#[test]
fn resize_is_silent_for_h264() {
    let mut u = start(CaptureMode::H264, false);
    let poll = UpdateEvent::Poll { resize: Some(sz(9, 8)), avc420: true };
    assert!(matches!(u.next_update(poll), UpdateAction::Tick));
    assert_eq!(u.target_size, sz(9, 8));
    let poll = UpdateEvent::Poll { resize: Some(sz(7, 6)), avc420: false };
    let action = u.next_update(poll);
    assert!(matches!(action, UpdateAction::Return(Some(DisplayUpdate::Resize(_)))));
}

#[test]
fn stalled_stream_is_recreated_after_thirty_misses() {
    let mut u = start(CaptureMode::Bgra, false);
    for _ in 0..29 {
        assert!(matches!(u.next_update(UpdateEvent::SampleEmpty), UpdateAction::Poll));
    }
    let UpdateAction::RecreateStream { size, stalled } = u.next_update(UpdateEvent::SampleEmpty)
    else {
        panic!("expected a new stream")
    };
    assert!(stalled && size == sz(4, 4));
    let failed = UpdateEvent::Recreated { size, outcome: Recreation::StreamFailed, stalled };
    assert!(matches!(u.next_update(failed), UpdateAction::Poll));
    assert_eq!(u.missed_frames, 30);
    let action = u.next_update(UpdateEvent::SampleEmpty);
    assert!(matches!(action, UpdateAction::RecreateStream { .. }));
    let done = UpdateEvent::Recreated { size, outcome: Recreation::Done, stalled };
    assert!(matches!(u.next_update(done), UpdateAction::Poll));
    assert_eq!(u.missed_frames, 0);
}

#[test]
fn new_frame_size_recreates_the_stream() {
    let mut u = start(CaptureMode::H264, false);
    u.bgra_pipeline.push_frame(&[7; 64], 4, 4, 16);
    u.missed_frames = 3;
    let image = UpdateEvent::SampleImage { width: 5, height: 65538 };
    let UpdateAction::RecreateStream { size, stalled } = u.next_update(image) else {
        panic!("expected a new stream")
    };
    assert_eq!((size, stalled, u.missed_frames), (sz(5, 2), false, 0));
    let half = UpdateEvent::Recreated { size, outcome: Recreation::EncoderFailed, stalled };
    assert!(matches!(u.next_update(half), UpdateAction::Poll));
    assert_eq!(u.stream_size, sz(5, 2));
    assert_eq!(u.h264_encoder.map(|e| (e.width, e.height)), Some((4, 4)));
    let done = UpdateEvent::Recreated { size, outcome: Recreation::Done, stalled };
    assert!(matches!(u.next_update(done), UpdateAction::InspectFrame));
    assert_eq!(u.h264_encoder.map(|e| (e.width, e.height)), Some((5, 2)));
    assert!(u.bgra_pipeline.pop_update().is_none(), "queued updates are gone");
}

#[test]
fn stream_samples_are_encoded() {
    let mut u = start(CaptureMode::H264, false);
    assert!(matches!(u.next_update(UpdateEvent::Frame { avc420: true }), UpdateAction::CheckKeyframe));
    let action = u.next_update(UpdateEvent::Keyframe { forced: true });
    assert!(matches!(action, UpdateAction::ReplaceEncoder { width: 4, height: 4 }));
    let action = u.next_update(UpdateEvent::EncoderReplaced { ok: true });
    assert!(matches!(action, UpdateAction::LockForEncoder));
    assert!(matches!(u.next_update(UpdateEvent::Locked), UpdateAction::Submit));
    assert!(matches!(u.next_update(UpdateEvent::Locked), UpdateAction::Poll), "busy");
    assert!(matches!(u.next_update(UpdateEvent::Submitted { status: 0 }), UpdateAction::AwaitFrame));
    let done = Delivery::Delivered(EncodeResult { data: vec![1, 2, 3], is_keyframe: true });
    let UpdateAction::Return(Some(DisplayUpdate::Avc420(a))) = u.next_update(UpdateEvent::Encoded(done))
    else {
        panic!("expected a frame")
    };
    assert_eq!((a.data, a.width, a.height, a.is_keyframe), (vec![1, 2, 3], 4, 4, true));
    assert_eq!(u.h264_encoder.map(|e| (e.frame_id, e.encoding)), Some((1, false)));
    let action = u.next_update(UpdateEvent::Keyframe { forced: false });
    assert!(matches!(action, UpdateAction::LockForEncoder));
    assert!(matches!(u.next_update(UpdateEvent::Locked), UpdateAction::Submit));
    assert!(matches!(u.next_update(UpdateEvent::Submitted { status: -1 }), UpdateAction::Poll));
    assert!(matches!(u.next_update(UpdateEvent::Locked), UpdateAction::Submit));
    let none = UpdateEvent::Encoded(Delivery::TimedOut);
    assert!(matches!(u.next_update(none), UpdateAction::Poll));
    u.h264_encoder = None;
    assert!(matches!(u.next_update(UpdateEvent::Frame { avc420: true }), UpdateAction::Poll));
}

#[test]
fn failed_replacement_keeps_the_encoder() {
    let mut u = start(CaptureMode::H264, true);
    u.h264_encoder.as_mut().unwrap().frame_id = 9;
    assert!(matches!(u.next_update(UpdateEvent::EncoderReplaced { ok: false }), UpdateAction::Submit));
    assert_eq!(u.h264_encoder.map(|e| e.frame_id), Some(9));
}

#[test]
fn display_images_fall_back_to_bitmaps() {
    let mut u = start(CaptureMode::H264, true);
    let action = u.next_update(UpdateEvent::Tick { avc420: true });
    assert!(matches!(action, UpdateAction::CapturePixelBuffer));
    let action = u.next_update(UpdateEvent::Tick { avc420: false });
    assert!(matches!(action, UpdateAction::CapturePixels));
    let action = u.next_update(UpdateEvent::PixelBuffer { captured: false });
    assert!(matches!(action, UpdateAction::CapturePixels));
    let action = u.next_update(UpdateEvent::PixelBuffer { captured: true });
    assert!(matches!(action, UpdateAction::CheckKeyframe));
    assert!(matches!(u.next_update(UpdateEvent::Keyframe { forced: false }), UpdateAction::Submit));
    let action = u.next_update(UpdateEvent::Submitted { status: -1 });
    assert!(matches!(action, UpdateAction::CapturePixels));
    assert!(matches!(u.next_update(UpdateEvent::NoPixels), UpdateAction::Poll));
    u.h264_encoder = None;
    let action = u.next_update(UpdateEvent::PixelBuffer { captured: true });
    assert!(matches!(action, UpdateAction::CapturePixels));
}

#[test]
fn intervals_and_retries() {
    assert_eq!(frame_interval_ms(30), 33);
    assert_eq!(frame_interval_ms(1000), 1);
    assert_eq!([retry_delay(1), retry_delay(2), retry_delay(3)], [Some(1), Some(2), None]);
    let c = stream_config(1920, 1080, CaptureMode::H264, 30);
    assert_eq!((c.width, c.height, c.fps, c.buffer_capacity), (1920, 1080, 30, 2));
    assert_eq!(c.format, StreamFormat::YCbCr420v);
    assert!(c.shows_cursor);
    assert_eq!(stream_config(1, 1, CaptureMode::Bgra, 1).format, StreamFormat::Bgra);
}
