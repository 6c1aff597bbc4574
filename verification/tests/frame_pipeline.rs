use osxrdp::display::AspectMode;
use osxrdp::frame_pipeline::{make_bitmap, BgraFramePipeline, BitmapError};
use osxrdp::letterbox::{compute_letterbox_rect, draw_letterboxed};
use osxrdp::update::{DesktopSize, DisplayUpdate};

fn sz(w: u16, h: u16) -> DesktopSize {
    DesktopSize { width: w, height: h }
}

fn solid_bgra(w: usize, h: usize, b: u8, g: u8, r: u8) -> Vec<u8> {
    let mut data = vec![0u8; h * w * 4];
    for pixel in data.chunks_exact_mut(4) {
        pixel[0] = b;
        pixel[1] = g;
        pixel[2] = r;
        pixel[3] = 255;
    }
    data
}

fn push(p: &mut BgraFramePipeline, data: &[u8], w: usize, h: usize) {
    p.push_frame(data, w, h, w * 4);
}

fn pixel_at(data: &[u8], stride: usize, x: usize, y: usize) -> [u8; 4] {
    let off = y * stride + x * 4;
    [data[off], data[off + 1], data[off + 2], data[off + 3]]
}

// first push → full bitmap

#[test]
fn first_frame_produces_full_bitmap() {
    let mut p = BgraFramePipeline::new(sz(4, 4), AspectMode::Native);
    let frame = solid_bgra(4, 4, 0, 0, 255);
    push(&mut p, &frame, 4, 4);
    let update = p.pop_update().expect("first frame must produce an update");
    let DisplayUpdate::Bitmap(b) = update else { panic!("expected Bitmap, got {update:?}") };
    assert_eq!((b.x, b.y), (0, 0));
    assert_eq!(b.width, 4);
    assert_eq!(b.height, 4);
}

// identical second frame → no update

#[test]
fn identical_frame_produces_no_update() {
    let mut p = BgraFramePipeline::new(sz(4, 4), AspectMode::Native);
    let frame = solid_bgra(4, 4, 0, 0, 255);
    push(&mut p, &frame, 4, 4);
    p.pop_update();

    push(&mut p, &frame, 4, 4);
    assert!(p.pop_update().is_none());
}

// >50% pixels change → single full bitmap

#[test]
fn large_change_produces_single_full_bitmap() {
    let (w, h) = (128usize, 128usize);
    let mut p = BgraFramePipeline::new(sz(w as u16, h as u16), AspectMode::Native);
    let frame1 = solid_bgra(w, h, 0, 0, 0);
    push(&mut p, &frame1, w, h);
    p.pop_update();

    let frame2 = solid_bgra(w, h, 0, 0, 255);
    push(&mut p, &frame2, w, h);

    let update = p.pop_update().expect("full change must produce update");
    let DisplayUpdate::Bitmap(b) = update else { panic!("expected Bitmap") };
    assert_eq!(b.width, w as u16);
    assert_eq!(b.height, h as u16);
    assert!(p.pop_update().is_none(), "fast path must not queue sub-regions");
}

// small change → sub-region covering the changed tile

#[test]
fn small_change_produces_sub_region_update() {
    let (w, h) = (128usize, 128usize);
    let stride = w * 4;
    let mut p = BgraFramePipeline::new(sz(w as u16, h as u16), AspectMode::Native);
    let frame1 = solid_bgra(w, h, 0, 0, 0);
    push(&mut p, &frame1, w, h);
    p.pop_update();

    // Change one pixel in tile (1,1) — x=65, y=65
    let mut frame2 = frame1.clone();
    frame2[65 * stride + 65 * 4] = 255;

    push(&mut p, &frame2, w, h);
    let update = p.pop_update().expect("small change must produce update");
    let DisplayUpdate::Bitmap(b) = update else { panic!("expected Bitmap") };

    assert!(b.width < w as u16, "expected sub-region, not full frame");
    // Changed pixel (65,65) must be inside the reported rect
    assert!(b.x <= 65 && b.x + b.width > 65);
    assert!(b.y <= 65 && b.y + b.height > 65);
}

// multiple dirty tiles → drain one per pop_update()

#[test]
fn sub_regions_drain_one_per_call() {
    let (w, h) = (128usize, 128usize);
    let stride = w * 4;
    let mut p = BgraFramePipeline::new(sz(w as u16, h as u16), AspectMode::Native);
    let frame1 = solid_bgra(w, h, 0, 0, 0);
    push(&mut p, &frame1, w, h);
    p.pop_update();

    // Dirty tile (0,0) via pixel (0,0) and tile (1,1) via pixel (64,64).
    // Total dirty = 64*64 + 64*64 = 8192 = 128*128/2, which is NOT > half,
    // so the pipeline must queue two sub-regions rather than one full frame.
    let mut frame2 = frame1.clone();
    frame2[0 * stride + 0 * 4] = 255;
    frame2[64 * stride + 64 * 4] = 255;

    push(&mut p, &frame2, w, h);

    let first = p.pop_update().expect("first sub-region");
    let second = p.pop_update().expect("second sub-region");
    assert!(p.pop_update().is_none(), "no further updates expected");

    let (DisplayUpdate::Bitmap(b1), DisplayUpdate::Bitmap(b2)) = (first, second) else {
        panic!("expected two Bitmap updates");
    };
    assert_ne!((b1.x, b1.y), (b2.x, b2.y), "sub-regions must be at different positions");
}

// source dimension change → full refresh

#[test]
fn dimension_change_triggers_full_refresh() {
    let mut p = BgraFramePipeline::new(sz(64, 64), AspectMode::Native);
    let frame1 = solid_bgra(64, 64, 0, 0, 0);
    push(&mut p, &frame1, 64, 64);
    p.pop_update();

    let frame2 = solid_bgra(128, 128, 0, 0, 255);
    push(&mut p, &frame2, 128, 128);

    let update = p.pop_update().expect("dimension change must produce update");
    let DisplayUpdate::Bitmap(b) = update else { panic!("expected Bitmap") };
    assert_eq!(b.width, 128);
    assert_eq!(b.height, 128);
}

// reset() → next push treated as first frame

#[test]
fn reset_makes_next_push_a_full_refresh() {
    let mut p = BgraFramePipeline::new(sz(4, 4), AspectMode::Native);
    let frame = solid_bgra(4, 4, 0, 0, 0);
    push(&mut p, &frame, 4, 4);
    p.pop_update();

    p.reset();

    // Same pixel data — but after reset it is a "first frame"
    push(&mut p, &frame, 4, 4);
    assert!(p.pop_update().is_some(), "post-reset push must produce an update");
}

// Fit mode, non-matching ratio → black bars

#[test]
fn fit_mode_nonmatching_ratio_produces_black_bars() {
    // Source 100×100 (1:1), target 200×100 (2:1).
    // Source is narrower than target → pillarbox: bars at x∈[0,50) and x∈[150,200).
    let mut p = BgraFramePipeline::new(sz(200, 100), AspectMode::Fit);
    let frame = solid_bgra(100, 100, 0, 0, 255); // solid red
    push(&mut p, &frame, 100, 100);

    let update = p.pop_update().expect("expected update");
    let DisplayUpdate::Bitmap(b) = update else { panic!("expected Bitmap") };
    assert_eq!(b.width, 200);
    assert_eq!(b.height, 100);

    let stride = b.stride;
    // Left bar at x=0 must be opaque black
    assert_eq!(pixel_at(&b.data, stride, 0, 0), [0, 0, 0, 255]);
    // First content pixel at x=50 must be red (BGRA: B=0, G=0, R=255, A=255)
    assert_eq!(pixel_at(&b.data, stride, 50, 0), [0, 0, 255, 255]);
}

// Fit mode, matching ratio → no black bars

#[test]
fn fit_mode_matching_ratio_has_no_bars() {
    // Source 100×50 (2:1), target 200×100 (2:1) → ratios match → no bars.
    let mut p = BgraFramePipeline::new(sz(200, 100), AspectMode::Fit);
    let frame = solid_bgra(100, 50, 0, 0, 255); // solid red
    push(&mut p, &frame, 100, 50);

    let update = p.pop_update().expect("expected update");
    let DisplayUpdate::Bitmap(b) = update else { panic!("expected Bitmap") };
    assert_eq!(b.width, 200);
    assert_eq!(b.height, 100);

    let stride = b.stride;
    // x=0 must be content (red), not a black bar
    assert_eq!(pixel_at(&b.data, stride, 0, 0), [0, 0, 255, 255]);
}

// Native mode → output has source dimensions

#[test]
fn native_mode_ignores_target_size() {
    // Source 300×200, target 100×100 — Native mode bypasses letterboxing.
    let mut p = BgraFramePipeline::new(sz(100, 100), AspectMode::Native);
    let frame = solid_bgra(300, 200, 0, 0, 255);
    push(&mut p, &frame, 300, 200);

    let update = p.pop_update().expect("expected update");
    let DisplayUpdate::Bitmap(b) = update else { panic!("expected Bitmap") };
    assert_eq!(b.width, 300, "Native mode must use source width");
    assert_eq!(b.height, 200, "Native mode must use source height");
}

// Own cases.

fn float_letterbox_rect(
    src_w: usize,
    src_h: usize,
    dst_w: usize,
    dst_h: usize,
) -> (usize, usize, usize, usize) {
    let src_ratio = src_w as f64 / src_h as f64;
    let dst_ratio = dst_w as f64 / dst_h as f64;
    if (src_ratio - dst_ratio).abs() < 0.001 {
        (0, 0, dst_w, dst_h)
    } else if src_ratio > dst_ratio {
        let scaled_h = (dst_w as f64 / src_ratio).round() as usize & !1;
        (0, dst_h.saturating_sub(scaled_h) / 2, dst_w, scaled_h)
    } else {
        let scaled_w = (dst_h as f64 * src_ratio).round() as usize & !1;
        (dst_w.saturating_sub(scaled_w) / 2, 0, scaled_w, dst_h)
    }
}

#[test]
fn letterbox_rect_of_wide_source() {
    assert_eq!(compute_letterbox_rect(1920, 1080, 1024, 768), (0, 96, 1024, 576));
}

#[test]
fn letterbox_rect_of_tall_source() {
    assert_eq!(compute_letterbox_rect(768, 1024, 1920, 1080), (555, 0, 810, 1080));
}

#[test]
fn letterbox_rect_agrees_with_floating_point() {
    let sides = [0usize, 1, 2, 3, 7, 16, 63, 64, 65, 100, 333, 480, 720, 1080, 1440, 1920, 2560, 65535, 100_003];
    let targets = [0usize, 1, 2, 3, 99, 100, 768, 1024, 1080, 1920, 65535];
    for &sw in &sides {
        for &sh in &sides {
            for &dw in &targets {
                for &dh in &targets {
                    assert_eq!(
                        compute_letterbox_rect(sw, sh, dw, dh),
                        float_letterbox_rect(sw, sh, dw, dh),
                        "{sw}x{sh} on {dw}x{dh}",
                    );
                }
            }
        }
    }
}

#[test]
fn letterbox_rect_of_huge_source_agrees_with_floating_point() {
    for &(sw, sh) in &[
        (usize::MAX, 1usize),
        (1, usize::MAX),
        (usize::MAX, usize::MAX - 1),
        ((1usize << 53) + 1, (1usize << 53) - 1),
        (0x1234_5678_9abc_def1, 0x0fed_cba9_8765_4321),
    ] {
        assert_eq!(
            compute_letterbox_rect(sw, sh, 1920, 1080),
            float_letterbox_rect(sw, sh, 1920, 1080),
        );
    }
}

#[test]
fn letterbox_rect_lies_on_desktop() {
    for sw in [1usize, 5, 17, 640, 1001, 4096] {
        for sh in [1usize, 9, 33, 480, 999, 2160] {
            let (x, y, w, h) = compute_letterbox_rect(sw, sh, 1366, 767);
            assert!(x + w <= 1366 && y + h <= 767);
            assert!(w == 1366 || h == 767);
            assert!(1366 - w - x <= x + 1 && 767 - h - y <= y + 1);
        }
    }
}

#[test]
fn same_ratio_fills_desktop() {
    assert_eq!(compute_letterbox_rect(640, 480, 1024, 768), (0, 0, 1024, 768));
    assert_eq!(compute_letterbox_rect(3840, 2160, 1280, 720), (0, 0, 1280, 720));
}

#[test]
fn letterbox_samples_nearest_pixels() {
    // 2×1 source on a 4×4 desktop: content in rows 1 and 2, each pixel doubled.
    let src = [1u8, 2, 3, 4, 5, 6, 7, 8];
    let dst = draw_letterboxed(&src, 2, 1, 8, 4, 4);
    assert_eq!(dst.len(), 64);
    assert_eq!(pixel_at(&dst, 16, 0, 0), [0, 0, 0, 255]);
    assert_eq!(pixel_at(&dst, 16, 3, 3), [0, 0, 0, 255]);
    assert_eq!(pixel_at(&dst, 16, 0, 1), [1, 2, 3, 4]);
    assert_eq!(pixel_at(&dst, 16, 1, 2), [1, 2, 3, 4]);
    assert_eq!(pixel_at(&dst, 16, 2, 1), [5, 6, 7, 8]);
    assert_eq!(pixel_at(&dst, 16, 3, 2), [5, 6, 7, 8]);
}

#[test]
fn fit_mode_has_target_size() {
    let mut p = BgraFramePipeline::new(sz(31, 17), AspectMode::Fit);
    push(&mut p, &solid_bgra(8, 8, 1, 2, 3), 8, 8);
    let Some(DisplayUpdate::Bitmap(b)) = p.pop_update() else { panic!("expected Bitmap") };
    assert_eq!((b.width, b.height, b.stride), (31, 17, 31 * 4));
    assert_eq!(b.data.len(), 31 * 17 * 4);
}

#[test]
fn fit_mode_at_target_size_keeps_the_frame() {
    let mut p = BgraFramePipeline::new(sz(8, 8), AspectMode::Fit);
    let frame = solid_bgra(8, 8, 1, 2, 3);
    push(&mut p, &frame, 8, 8);
    let Some(DisplayUpdate::Bitmap(b)) = p.pop_update() else { panic!("expected Bitmap") };
    assert_eq!(&b.data[..], &frame[..]);
}

#[test]
fn set_target_changes_what_is_shown() {
    let mut p = BgraFramePipeline::new(sz(8, 8), AspectMode::Fit);
    p.set_target(sz(16, 16));
    push(&mut p, &solid_bgra(8, 8, 1, 2, 3), 8, 8);
    let Some(DisplayUpdate::Bitmap(b)) = p.pop_update() else { panic!("expected Bitmap") };
    assert_eq!((b.width, b.height), (16, 16));
}

#[test]
fn updates_repaint_the_previous_frame() {
    let (w, h) = (200usize, 150usize);
    let stride = w * 4;
    let mut p = BgraFramePipeline::new(sz(w as u16, h as u16), AspectMode::Native);
    let mut screen = vec![0u8; h * stride];
    let mut frame = solid_bgra(w, h, 9, 9, 9);
    for round in 0..4usize {
        for k in 0..round * 3 {
            let x = (k * 37 + round * 11) % w;
            let y = (k * 53 + round * 29) % h;
            frame[y * stride + x * 4 + 1] ^= 0x5a;
        }
        push(&mut p, &frame, w, h);
        while let Some(update) = p.pop_update() {
            let DisplayUpdate::Bitmap(b) = update else { panic!("expected Bitmap") };
            for row in 0..b.height as usize {
                let from = row * b.stride;
                let to = (b.y as usize + row) * stride + b.x as usize * 4;
                let n = b.width as usize * 4;
                screen[to..to + n].copy_from_slice(&b.data[from..from + n]);
            }
        }
        assert_eq!(screen, frame);
    }
}

#[test]
fn sub_region_holds_the_new_pixels() {
    let (w, h) = (128usize, 128usize);
    let stride = w * 4;
    let mut p = BgraFramePipeline::new(sz(128, 128), AspectMode::Native);
    let frame1 = solid_bgra(w, h, 0, 0, 0);
    push(&mut p, &frame1, w, h);
    p.pop_update();
    let mut frame2 = frame1.clone();
    frame2[70 * stride + 66 * 4 + 2] = 77;
    push(&mut p, &frame2, w, h);
    let Some(DisplayUpdate::Bitmap(b)) = p.pop_update() else { panic!("expected Bitmap") };
    assert_eq!((b.x, b.y, b.width, b.height, b.stride), (64, 64, 64, 64, stride));
    assert_eq!(b.data.len(), 63 * stride + 64 * 4);
    assert_eq!(pixel_at(&b.data, b.stride, 2, 6), [0, 0, 77, 255]);
    assert!(p.pop_update().is_none());
}

#[test]
fn exactly_half_is_sent_in_parts_and_more_is_sent_whole() {
    let (w, h) = (128usize, 64usize);
    let mut p = BgraFramePipeline::new(sz(128, 64), AspectMode::Native);
    let frame1 = solid_bgra(w, h, 0, 0, 0);
    push(&mut p, &frame1, w, h);
    p.pop_update();
    let mut frame2 = frame1.clone();
    frame2[0] = 1;
    push(&mut p, &frame2, w, h);
    let Some(DisplayUpdate::Bitmap(b)) = p.pop_update() else { panic!("expected Bitmap") };
    assert_eq!(b.width, 64);
    let mut frame3 = frame2.clone();
    frame3[0] = 2;
    frame3[100 * 4] = 2;
    push(&mut p, &frame3, w, h);
    let Some(DisplayUpdate::Bitmap(b)) = p.pop_update() else { panic!("expected Bitmap") };
    assert_eq!(b.width, 128);
    assert!(p.pop_update().is_none());
}

#[test]
fn frame_without_pixels_is_dropped() {
    let mut p = BgraFramePipeline::new(sz(4, 4), AspectMode::Native);
    p.push_frame(&[], 0, 4, 0);
    assert!(p.pop_update().is_none());
    let frame = solid_bgra(4, 4, 0, 0, 0);
    push(&mut p, &frame, 4, 4);
    assert!(p.pop_update().is_some());
    p.push_frame(&[], 4, 0, 16);
    push(&mut p, &frame, 4, 4);
    assert!(p.pop_update().is_none(), "a dropped frame leaves the history alone");
}

#[test]
fn padded_rows_are_not_compared() {
    let mut p = BgraFramePipeline::new(sz(2, 2), AspectMode::Native);
    let mut frame = vec![7u8; 2 * 16];
    p.push_frame(&frame, 2, 2, 16);
    p.pop_update();
    frame[8] = 1;
    frame[31] = 2;
    p.push_frame(&frame, 2, 2, 16);
    assert!(p.pop_update().is_none());
}

#[test]
fn accepts_frame_tells_short_data() {
    let mut p = BgraFramePipeline::new(sz(4, 4), AspectMode::Native);
    let frame = solid_bgra(4, 4, 0, 0, 0);
    assert!(p.accepts_frame(&frame, 4, 4, 16));
    push(&mut p, &frame, 4, 4);
    assert!(p.accepts_frame(&frame, 4, 4, 16));
    assert!(!p.accepts_frame(&frame[..63], 4, 4, 16));
    assert!(!p.accepts_frame(&frame, 4, 4, 15));
    assert!(p.accepts_frame(&frame[..63], 5, 4, 16), "another size is not compared");
    let fit = BgraFramePipeline::new(sz(9, 9), AspectMode::Fit);
    assert!(fit.accepts_frame(&frame, 4, 4, 16));
    assert!(!fit.accepts_frame(&frame[..40], 4, 4, 16));
}

#[test]
fn make_bitmap_errors() {
    assert_eq!(make_bitmap(vec![].into(), 0, 1, 4).unwrap_err(), BitmapError::ZeroWidth);
    assert_eq!(make_bitmap(vec![].into(), 65536, 0, 0).unwrap_err(), BitmapError::ZeroWidth);
    assert_eq!(make_bitmap(vec![].into(), 1, 0, 4).unwrap_err(), BitmapError::ZeroHeight);
    assert_eq!(make_bitmap(vec![].into(), 1, 1, 0).unwrap_err(), BitmapError::ZeroStride);
    let b = make_bitmap(vec![1, 2, 3, 4].into(), 65537, 1, 4).unwrap();
    assert_eq!((b.x, b.y, b.width, b.height, b.stride), (0, 0, 1, 1, 4));
    assert_eq!(&b.data[..], &[1, 2, 3, 4]);
}

#[test]
fn sub_outside_of_bitmap_is_none() {
    let b = make_bitmap((0u8..64).collect::<Vec<u8>>().into(), 4, 4, 16).unwrap();
    assert!(b.sub(3, 0, 2, 1).is_none());
    assert!(b.sub(0, 4, 1, 1).is_none());
    assert!(b.sub(0, 0, 0, 1).is_none());
    assert!(b.sub(0, 0, 5, 1).is_none());
    let part = b.sub(1, 2, 3, 2).unwrap();
    assert_eq!((part.x, part.y, part.width, part.height, part.stride), (1, 2, 3, 2, 16));
    assert_eq!(&part.data[..4], &[36, 37, 38, 39]);
    assert_eq!(part.data.len(), 16 + 12);
}

#[test]
fn updates_are_made_of_whole_tiles() {
    let (w, h) = (200usize, 150usize);
    let stride = w * 4;
    let mut p = BgraFramePipeline::new(sz(200, 150), AspectMode::Native);
    let mut frame = solid_bgra(w, h, 9, 9, 9);
    push(&mut p, &frame, w, h);
    p.pop_update();
    for (x, y) in [(3usize, 3usize), (199, 149), (70, 70)] {
        frame[y * stride + x * 4] ^= 1;
    }
    push(&mut p, &frame, w, h);
    let mut count = 0;
    while let Some(update) = p.pop_update() {
        let DisplayUpdate::Bitmap(b) = update else { panic!("expected Bitmap") };
        let (right, bottom) = (b.x + b.width, b.y + b.height);
        assert_eq!((b.x % 64, b.y % 64), (0, 0));
        assert!(right % 64 == 0 || right == 200);
        assert!(bottom % 64 == 0 || bottom == 150);
        count += 1;
    }
    assert_eq!(count, 3, "one for each changed tile");
}

#[test]
fn letterboxed_frames_keep_their_shape() {
    let sides = [1usize, 2, 3, 10, 599, 768, 1080, 1366, 1920, 4096, 65535];
    for &sw in &sides {
        for &sh in &sides {
            for &(dw, dh) in &[(1920usize, 1080usize), (800, 600), (1, 65535), (65535, 3)] {
                let (_, _, w, h) = compute_letterbox_rect(sw, sh, dw, dh);
                if (w, h) == (dw, dh) {
                    continue;
                }
                let (off, side) = if w == dw {
                    assert_eq!(h % 2, 0);
                    (2 * (h as i64 * sw as i64 - dw as i64 * sh as i64), sw as i64)
                } else {
                    assert_eq!((w % 2, h), (0, dh));
                    (2 * (w as i64 * sh as i64 - dh as i64 * sw as i64), sh as i64)
                };
                assert!(-3 * side <= off && off <= side, "{sw}x{sh} on {dw}x{dh}");
            }
        }
    }
}

#[test]
fn one_changed_pixel_is_sent_as_one_tile() {
    let (w, h) = (128usize, 64usize);
    let mut p = BgraFramePipeline::new(sz(128, 64), AspectMode::Native);
    let mut frame = solid_bgra(w, h, 0, 0, 0);
    push(&mut p, &frame, w, h);
    p.pop_update();
    frame[(5 * w + 70) * 4] = 1;
    push(&mut p, &frame, w, h);
    let Some(DisplayUpdate::Bitmap(b)) = p.pop_update() else { panic!("expected Bitmap") };
    assert_eq!((b.x, b.y, b.width, b.height), (64, 0, 64, 64));
    assert!(p.pop_update().is_none());
}
