use osxrdp::cg_capture::{
    captured_frame, frame_layout, pixel_buffer_attributes, pixel_buffer_created,
    CVPixelBufferWrapper, PixelBufferAttributes, PixelBufferError, K_CV_PIXEL_FORMAT_TYPE_32BGRA,
};
use osxrdp::h264::{
    encoding_callback, extract_nal_data, is_keyframe, session_properties, Delivery, EncodeResult,
    EncoderError, SampleAttachments, SampleBuffer, SessionProperty, VtH264Encoder,
    K_CM_VIDEO_CODEC_TYPE_H264,
};

#[test]
fn rows_are_aligned() {
    assert_eq!(frame_layout(0, 5), None);
    assert_eq!(frame_layout(5, 0), None);
    for w in 1..200usize {
        let l = frame_layout(w, 3).unwrap();
        assert_eq!(l.stride, (w * 4 + 15) & !15);
        assert_eq!(l.size, l.stride * 3);
    }
}

#[test]
fn captured_pixels_are_opaque() {
    assert!(captured_frame(0, 1, &[]).is_none());
    let drawn: Vec<u8> = (1..=20).collect();
    let f = captured_frame(3, 2, &drawn).unwrap();
    assert_eq!((f.width, f.height, f.stride, f.data.len()), (3, 2, 16, 32));
    for (i, &b) in f.data.iter().enumerate() {
        let want = if i % 4 == 3 {
            255
        } else if i < 20 {
            drawn[i]
        } else {
            0
        };
        assert_eq!(b, want, "{i}");
    }
}

#[test]
fn pixel_buffers() {
    assert_eq!(K_CV_PIXEL_FORMAT_TYPE_32BGRA, u32::from_be_bytes(*b"BGRA"));
    assert_eq!(
        pixel_buffer_attributes(1366, 768),
        PixelBufferAttributes {
            width: 1366,
            height: 768,
            bytes_per_row_alignment: 5504,
            cg_image_compatibility: 1,
            cg_bitmap_context_compatibility: 1,
        }
    );
    assert_eq!(pixel_buffer_attributes(16, 1).bytes_per_row_alignment, 64);
    assert_eq!(pixel_buffer_created(-6660, false), Err(PixelBufferError::Create(-6660)));
    assert_eq!(pixel_buffer_created(0, false), Err(PixelBufferError::Null));
    assert_eq!(pixel_buffer_created(0, true), Ok(()));
    assert_eq!(CVPixelBufferWrapper::locked(-1, 8, 2, 1), Err(PixelBufferError::Lock(-1)));
    let b = CVPixelBufferWrapper::locked(0, 12, 2, 2).unwrap();
    assert_eq!((b.bytes_per_row(), b.width(), b.height()), (12, 2, 2));
}

#[test]
fn padding_is_left_alone() {
    let b = CVPixelBufferWrapper::locked(0, 12, 2, 2).unwrap();
    let mut memory: Vec<u8> = (0..25).collect();
    b.make_opaque(&mut memory);
    for (i, &v) in memory.iter().enumerate() {
        let alpha = [3usize, 7, 15, 19].contains(&i);
        assert_eq!(v, if alpha { 255 } else { i as u8 });
    }
}

#[test]
fn new_sessions() {
    assert_eq!(K_CM_VIDEO_CODEC_TYPE_H264, u32::from_be_bytes(*b"avc1"));
    assert_eq!(VtH264Encoder::new(8, 6, -12900, true), Err(EncoderError::Create(-12900)));
    assert_eq!(VtH264Encoder::new(8, 6, 0, false), Err(EncoderError::NullSession));
    let e = VtH264Encoder::new(8, 6, 0, true).unwrap();
    assert_eq!((e.width(), e.height(), e.frame_id, e.frame_index), (8, 6, 0, 0));
    let p = session_properties();
    assert_eq!(p.len(), 7);
    assert_eq!(p[4], SessionProperty::ProfileLevel(0x1e));
    assert_eq!(p[5], SessionProperty::AverageBitRate(4_000_000));
    assert_eq!(p[6], SessionProperty::MaxKeyFrameInterval(60));
    assert_eq!(p[0].key(), "VTCompressionPropertyKey_RealTime");
    assert_eq!(p[3].key(), "VTCompressionPropertyKey_ExpectRealTime");
}

#[test]
fn keyframes() {
    let note = |depends_on_others, not_sync| Some(SampleAttachments { depends_on_others, not_sync });
    assert!(is_keyframe(&None));
    assert!(is_keyframe(&note(None, None)));
    assert!(!is_keyframe(&note(Some(true), Some(false))));
    assert!(is_keyframe(&note(Some(false), Some(true))));
    assert!(!is_keyframe(&note(None, Some(true))));
    assert!(is_keyframe(&note(None, Some(false))));
}

#[test]
fn samples_without_data_have_no_output() {
    let sample = |block| SampleBuffer { block, attachments: None };
    assert!(extract_nal_data(sample(None)).is_none());
    assert!(extract_nal_data(sample(Some(vec![]))).is_none());
    assert!(encoding_callback(-1, Some(sample(Some(vec![1])))).is_none());
    assert!(encoding_callback(0, None).is_none());
    let r = encoding_callback(0, Some(sample(Some(vec![1, 2])))).unwrap();
    assert_eq!((r.data, r.is_keyframe), (vec![1, 2], true));
}

#[test]
fn frames_are_encoded_one_at_a_time() {
    let mut e = VtH264Encoder::new(8, 6, 0, true).unwrap();
    assert!(e.begin_encode());
    assert!(!e.begin_encode());
    assert_eq!(e.frame_index, 1);
    assert_eq!(e.submitted(0), Ok(()));
    assert!(!e.begin_encode());
    let r = EncodeResult { data: vec![5], is_keyframe: true };
    let f = e.finish_encode(Delivery::Delivered(r)).unwrap();
    assert_eq!((f.frame_id, f.data, f.is_keyframe, f.width, f.height), (0, vec![5], true, 8, 6));
    assert!(e.begin_encode());
    assert_eq!(e.submitted(-5), Err(EncoderError::Encode(-5)));
    assert!(e.begin_encode());
    assert!(e.finish_encode(Delivery::TimedOut).is_none());
    assert!(e.begin_encode());
    assert!(e.finish_encode(Delivery::Disconnected).is_none());
    assert!(e.begin_encode());
    let empty = EncodeResult { data: vec![], is_keyframe: false };
    assert!(e.finish_encode(Delivery::Delivered(empty)).is_none());
    assert!(e.begin_encode());
    let r = EncodeResult { data: vec![6], is_keyframe: false };
    assert_eq!(e.finish_encode(Delivery::Delivered(r)).unwrap().frame_id, 1);
    assert_eq!(e.frame_index, 6);
}

#[test]
fn encoded_frames_are_numbered_in_order() {
    let mut e = VtH264Encoder::new(8, 6, 0, true).unwrap();
    let mut next = 0u32;
    for round in 0..12i32 {
        let data = vec![round as u8; (round % 3) as usize];
        let (status, delivery) = match round % 4 {
            0 => (-12900 - round, Delivery::Disconnected),
            1 => (0, Delivery::TimedOut),
            _ => (0, Delivery::Delivered(EncodeResult { data: data.clone(), is_keyframe: true })),
        };
        match e.encode(status, delivery) {
            Err(error) => assert_eq!(error, EncoderError::Encode(status)),
            Ok(Some(f)) => {
                assert_eq!((f.frame_id, f.width, f.height), (next, 8, 6));
                assert_eq!(f.data, data);
                assert!(!f.data.is_empty() && f.is_keyframe);
                next += 1;
            }
            Ok(None) => assert!(status == 0 && (round % 4 == 1 || data.is_empty())),
        }
        assert!(!e.encoding);
        assert_eq!(e.frame_id, next);
    }
    assert_eq!((next, e.frame_index), (4, 12));
    e.encoding = true;
    assert!(matches!(e.encode(-1, Delivery::TimedOut), Ok(None)));
    assert_eq!(e.frame_index, 12);
}
