use osxrdp::capture::{CaptureError, Capturer, Frame, SckCapturer};
use osxrdp::codec::bitmap::{extract_tile, serialize_bitmap_update, BitmapEncoder, Tile};

fn le(v: u16) -> [u8; 2] {
    v.to_le_bytes()
}

fn frame(width: u32, height: u32) -> Frame {
    let data = (0..width as usize * height as usize * 4).map(|i| (i * 7 % 251) as u8).collect();
    Frame { data, width, height }
}

/// The rectangles of an update: place, size, depth, flags and data.
fn rectangles(bytes: &[u8]) -> Vec<(u16, u16, u16, u16, u16, u16, Vec<u8>)> {
    let word = |i: usize| u16::from_le_bytes([bytes[i], bytes[i + 1]]);
    assert_eq!(word(0), 1);
    let mut out = Vec::new();
    let mut at = 4;
    while at < bytes.len() {
        let (x, y, w, h) = (word(at), word(at + 2), word(at + 8), word(at + 10));
        assert_eq!((word(at + 4), word(at + 6)), (x + w - 1, y + h - 1));
        let n = word(at + 16) as usize;
        let data = bytes[at + 18..at + 18 + n].to_vec();
        out.push((x, y, w, h, word(at + 12), word(at + 14), data));
        at += 18 + n;
    }
    assert_eq!(word(2), out.len() as u16);
    out
}

#[test]
fn one_pixel_update() {
    let mut e = BitmapEncoder::new(1, 1);
    let bytes = e.encode(&Frame { data: vec![9, 8, 7, 6], width: 1, height: 1 }).unwrap();
    let mut want = Vec::new();
    for v in [1u16, 1, 0, 0, 0, 0, 1, 1, 32, 0, 4] {
        want.extend_from_slice(&le(v));
    }
    want.extend_from_slice(&[9, 8, 7, 6]);
    assert_eq!(bytes, want);
}

#[test]
fn empty_screen_has_no_tiles() {
    for (w, h) in [(0u16, 0u16), (0, 64), (64, 0)] {
        let bytes = BitmapEncoder::new(w, h).encode(&frame(8, 8)).unwrap();
        assert_eq!(bytes, [1, 0, 0, 0]);
    }
}

#[test]
fn tiles_cover_the_screen_once() {
    for (w, h) in [(1usize, 1usize), (64, 64), (65, 64), (130, 70), (63, 129)] {
        let f = frame(w as u32, h as u32);
        let bytes = BitmapEncoder::new(w as u16, h as u16).encode(&f).unwrap();
        let mut screen = vec![0u8; w * h * 4];
        let mut seen = vec![0u32; w * h];
        for (x, y, tw, th, bpp, flags, data) in rectangles(&bytes) {
            assert_eq!((bpp, flags), (32, 0));
            assert!(tw <= 64 && th <= 64 && x % 64 == 0 && y % 64 == 0);
            for r in 0..th as usize {
                for c in 0..tw as usize {
                    let p = (y as usize + r) * w + x as usize + c;
                    seen[p] += 1;
                    let d = (r * tw as usize + c) * 4;
                    screen[p * 4..p * 4 + 4].copy_from_slice(&data[d..d + 4]);
                }
            }
        }
        assert!(seen.iter().all(|&n| n == 1), "{w}x{h}");
        assert_eq!(screen, f.data, "{w}x{h}");
    }
}

#[test]
fn tiles_come_row_by_row() {
    let bytes = BitmapEncoder::new(100, 100).encode(&frame(100, 100)).unwrap();
    let places: Vec<_> = rectangles(&bytes).into_iter().map(|r| (r.0, r.1, r.2, r.3)).collect();
    assert_eq!(places, [(0, 0, 64, 64), (64, 0, 36, 64), (0, 64, 64, 36), (64, 64, 36, 36)]);
}

#[test]
fn rows_follow_the_width_of_the_frame() {
    let f = frame(10, 4);
    assert_eq!(extract_tile(&f.data, 10, 2, 1, 3, 2), [&f.data[48..60], &f.data[88..100]].concat());
    assert!(extract_tile(&[], 10, 0, 0, 3, 0).is_empty());
}

#[test]
fn serialized_header_fields() {
    let tile = Tile { x: 0x0102, y: 3, w: 2, h: 1, bpp: 16, data: vec![0xaa; 5] };
    let bytes = serialize_bitmap_update(vec![tile]).unwrap();
    assert_eq!(
        bytes,
        [
            1, 0, 1, 0, 2, 1, 3, 0, 3, 1, 3, 0, 2, 0, 1, 0, 16, 0, 0, 0, 5, 0, 0xaa, 0xaa, 0xaa,
            0xaa, 0xaa
        ]
    );
    assert_eq!(serialize_bitmap_update(vec![]).unwrap(), [1, 0, 0, 0]);
}

#[test]
fn capturer_without_a_stream_is_closed() {
    let mut c = Capturer::new().unwrap();
    let e = c.next_frame().unwrap_err();
    assert_eq!(e, CaptureError::StreamClosed);
    assert_eq!(e.message(), "capture stream closed");
}

#[test]
fn frames_are_taken_in_order() {
    let mut c = SckCapturer::new().unwrap();
    c.frames.push_back(frame(1, 1));
    c.frames.push_back(frame(2, 1));
    assert_eq!(c.next_frame().unwrap().width, 1);
    assert_eq!(c.next_frame().unwrap().width, 2);
    assert!(c.next_frame().is_err());
}
