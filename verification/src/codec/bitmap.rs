//! RDP bitmap update encoder.
//!
//! Encodes a full-screen BGRA frame into the payload of a bitmap update:
//! uncompressed, tiled into rectangles of 64 by 64 pixels.
use crate::capture::Frame;
use byteorder::{WriteBytesExt, LE};
use vstd::arithmetic::div_mod::{
    lemma_fundamental_div_mod, lemma_fundamental_div_mod_converse,
};
use vstd::prelude::*;

verus! {

/// The side of a tile.
pub const TILE: u16 = 64;

/// `std::io::Error`, with which writing to a stream fails.
#[verifier::external_type_specification]
#[verifier::external_body]
pub struct ExIoError(std::io::Error);

/// A 16-bit number in little-endian byte order.
pub open spec fn le16(v: u16) -> Seq<u8> {
    seq![(v % 256) as u8, (v / 256) as u8]
}

/// `byteorder::WriteBytesExt::write_u16::<LE>` on a vector: appends the low
/// byte, then the high byte. Writing to a vector does not fail.
#[verifier::external_body]
pub(crate) fn write_u16_le(buf: &mut Vec<u8>, v: u16) -> (r: Result<(), std::io::Error>)
    ensures
        r is Ok,
        final(buf)@ == old(buf)@ + le16(v),
{
    buf.write_u16::<LE>(v)
}

/// The place of a tile on the screen.
#[verifier::ext_equal]
pub struct Place {
    pub x: int,
    pub y: int,
    pub w: int,
    pub h: int,
}

/// The number of tiles that a length takes up.
pub open spec fn tile_count(len: int) -> int {
    (len + 63) / 64
}

/// The length of the tile that starts at `at`.
pub open spec fn tile_length(len: int, at: int) -> int {
    if len - at < 64 {
        len - at
    } else {
        64
    }
}

/// The place of the `i`th tile of a screen, row by row.
pub open spec fn tile_place(width: int, height: int, i: int) -> Place {
    let x = (i % tile_count(width)) * 64;
    let y = (i / tile_count(width)) * 64;
    Place { x, y, w: tile_length(width, x), h: tile_length(height, y) }
}

/// The number of tiles of a screen.
pub open spec fn screen_tiles(width: int, height: int) -> int {
    tile_count(width) * tile_count(height)
}

/// The pixels of a place in a picture of `src_w` pixels per row, row by row.
pub open spec fn tile_pixels(src: Seq<u8>, src_w: int, p: Place) -> Seq<u8> {
    Seq::new(
        (p.w * p.h * 4) as nat,
        |i: int| src[(p.y + i / (p.w * 4)) * (src_w * 4) + p.x * 4 + i % (p.w * 4)],
    )
}

/// A tile as it is sent: where it lies, its size, its depth, that it is not
/// compressed, the length of its data, and the data.
pub open spec fn tile_bytes(p: Place, bpp: u16, data: Seq<u8>) -> Seq<u8> {
    le16(p.x as u16) + le16(p.y as u16) + le16((p.x + p.w - 1) as u16) + le16(
        (p.y + p.h - 1) as u16,
    ) + le16(p.w as u16) + le16(p.h as u16) + le16(bpp) + le16(0) + le16(data.len() as u16) + data
}

/// A rectangle of pixels with its place on the screen.
#[derive(Debug)]
pub struct Tile {
    pub x: u16,
    pub y: u16,
    pub w: u16,
    pub h: u16,
    pub bpp: u16,
    pub data: Vec<u8>,
}

impl Tile {
    pub open spec fn place(&self) -> Place {
        Place { x: self.x as int, y: self.y as int, w: self.w as int, h: self.h as int }
    }

    /// The tile is not empty and lies on a screen.
    pub open spec fn on_screen(&self) -> bool {
        &&& 0 < self.w
        &&& 0 < self.h
        &&& self.x + self.w <= u16::MAX
        &&& self.y + self.h <= u16::MAX
    }
}

/// The tiles as they are sent, one after the other.
pub open spec fn tiles_bytes(tiles: Seq<Tile>) -> Seq<u8>
    decreases tiles.len(),
{
    if tiles.len() == 0 {
        seq![]
    } else {
        tiles_bytes(tiles.drop_last()) + tile_bytes(
            tiles.last().place(),
            tiles.last().bpp,
            tiles.last().data@,
        )
    }
}

/// The first `n` tiles of a frame as they are sent, one after the other.
pub open spec fn frame_bytes(src: Seq<u8>, src_w: int, width: int, height: int, n: int) -> Seq<u8>
    decreases n,
{
    if n <= 0 {
        seq![]
    } else {
        let p = tile_place(width, height, n - 1);
        frame_bytes(src, src_w, width, height, n - 1) + tile_bytes(
            p,
            32,
            tile_pixels(src, src_w, p),
        )
    }
}

/// A bitmap update: its type, the number of its rectangles in 16 bits, and the
/// rectangles.
pub open spec fn update_bytes(count: int, rectangles: Seq<u8>) -> Seq<u8> {
    le16(1) + le16(count as u16) + rectangles
}

/// Copies the pixels of a tile.
pub fn extract_tile(src: &[u8], src_w: u32, x: u16, y: u16, w: u16, h: u16) -> (out: Vec<u8>)
    requires
        src_w * 4 <= usize::MAX,
        w * h * 4 <= isize::MAX,
        h > 0 ==> (y + h - 1) * (src_w * 4) + x * 4 + w * 4 <= src.len(),
    ensures
        out@ == tile_pixels(
            src@,
            src_w as int,
            Place { x: x as int, y: y as int, w: w as int, h: h as int },
        ),
{
    let stride: usize = src_w as usize * 4;
    let ghost p = Place { x: x as int, y: y as int, w: w as int, h: h as int };
    let ghost goal = tile_pixels(src@, src_w as int, p);
    let ghost line = w * 4;
    proof {
        assert(w as usize * h as usize <= w * h * 4 && w * h * 4 == h * line) by (nonlinear_arith)
            requires
                line == w * 4,
                w >= 0,
                h >= 0,
        ;
        assert(0 * line == 0);
    }
    let mut out: Vec<u8> = Vec::with_capacity(w as usize * h as usize * 4);
    let mut row: usize = 0;
    let len: usize = src.len();
    while row < h as usize
        invariant
            row <= h,
            stride == src_w * 4,
            len == src.len(),
            line == w * 4,
            h > 0 ==> (y + h - 1) * (src_w * 4) + x * 4 + w * 4 <= src.len(),
            p == (Place { x: x as int, y: y as int, w: w as int, h: h as int }),
            goal == tile_pixels(src@, src_w as int, p),
            goal.len() == h * line,
            out@.len() == row * line,
            out@.len() <= goal.len(),
            forall|i: int| 0 <= i < out@.len() ==> #[trigger] out@[i] == goal[i],
        decreases h - row,
    {
        proof {
            assert(0 <= (y + row) * stride <= (y + h - 1) * (src_w * 4)) by (nonlinear_arith)
                requires
                    row <= h - 1,
                    stride == src_w * 4,
                    y >= 0,
                    row >= 0,
            ;
        }
        let start: usize = (y as usize + row) * stride + x as usize * 4;
        let end: usize = start + w as usize * 4;
        let ghost before = out@;
        let piece: &[u8] = vstd::slice::slice_subrange(src, start, end);
        out.extend_from_slice(piece);
        proof {
            assert((row + 1) * line == row * line + line) by (nonlinear_arith);
            assert((row + 1) * line <= h * line) by (nonlinear_arith)
                requires
                    row + 1 <= h,
                    line >= 0,
            ;
            assert forall|i: int| 0 <= i < out@.len() implies #[trigger] out@[i] == goal[i] by {
                if i < before.len() {
                    assert(out@[i] == before[i]);
                } else {
                    let c = i - row * line;
                    assert(out@[i] == src@[start + c]);
                    lemma_fundamental_div_mod_converse(i, line, row as int, c);
                    assert(p.w * 4 == line);
                }
            }
        }
        row += 1;
    }
    assert(out@ =~= goal);
    out
}

/// Serialises tiles into the wire format of a bitmap update.
pub fn serialize_bitmap_update(tiles: Vec<Tile>) -> (r: Result<Vec<u8>, std::io::Error>)
    requires
        forall|i: int| 0 <= i < tiles@.len() ==> (#[trigger] tiles@[i]).on_screen(),
    ensures
        r matches Ok(buf) && buf@ == update_bytes(tiles@.len() as int, tiles_bytes(tiles@)),
{
    let mut buf: Vec<u8> = Vec::new();
    write_u16_le(&mut buf, 0x0001)?;
    write_u16_le(&mut buf, tiles.len() as u16)?;
    let ghost head = buf@;
    proof {
        assert(tiles@.take(0).len() == 0);
        assert(head + tiles_bytes(tiles@.take(0)) =~= head);
        assert(head =~= le16(1) + le16(tiles@.len() as u16));
    }
    let mut i: usize = 0;
    while i < tiles.len()
        invariant
            i <= tiles@.len(),
            buf@ == head + tiles_bytes(tiles@.take(i as int)),
            forall|i: int| 0 <= i < tiles@.len() ==> (#[trigger] tiles@[i]).on_screen(),
        decreases tiles@.len() - i,
    {
        let tile = &tiles[i];
        let ghost before = buf@;
        let ghost sofar = tiles_bytes(tiles@.take(i as int));
        proof {
            assert(tiles@[i as int].on_screen());
            assert(tiles@.take(i + 1).drop_last() =~= tiles@.take(i as int));
            assert(tiles@.take(i + 1).last() == tiles@[i as int]);
        }
        write_u16_le(&mut buf, tile.x)?;
        write_u16_le(&mut buf, tile.y)?;
        write_u16_le(&mut buf, tile.x + tile.w - 1)?;
        write_u16_le(&mut buf, tile.y + tile.h - 1)?;
        write_u16_le(&mut buf, tile.w)?;
        write_u16_le(&mut buf, tile.h)?;
        write_u16_le(&mut buf, tile.bpp)?;
        write_u16_le(&mut buf, 0x0000)?;
        write_u16_le(&mut buf, tile.data.len() as u16)?;
        buf.extend_from_slice(tile.data.as_slice());
        proof {
            let bytes = tile_bytes(tile.place(), tile.bpp, tile.data@);
            assert(buf@ =~= before + bytes);
            assert(buf@ =~= head + (sofar + bytes));
        }
        i += 1;
    }
    proof {
        assert(tiles@.take(tiles@.len() as int) =~= tiles@);
        assert(buf@ =~= update_bytes(tiles@.len() as int, tiles_bytes(tiles@)));
    }
    Ok(buf)
}

/// Encodes frames for a screen of a fixed size.
#[derive(Debug)]
pub struct BitmapEncoder {
    pub width: u16,
    pub height: u16,
}

/// The position of a tile, from its row and column, and back.
proof fn lemma_tile_index(width: int, height: int, row: int, col: int)
    requires
        0 <= row,
        0 <= col < tile_count(width),
    ensures
        tile_place(width, height, row * tile_count(width) + col) == (Place {
            x: col * 64,
            y: row * 64,
            w: tile_length(width, col * 64),
            h: tile_length(height, row * 64),
        }),
{
    let n = tile_count(width);
    lemma_fundamental_div_mod_converse(row * n + col, n, row, col);
}

/// One more tile is sent after those before it.
proof fn lemma_one_more_tile(tiles: Seq<Tile>, tile: Tile)
    ensures
        tiles_bytes(tiles.push(tile)) == tiles_bytes(tiles) + tile_bytes(
            tile.place(),
            tile.bpp,
            tile.data@,
        ),
{
    assert(tiles.push(tile).drop_last() =~= tiles);
}

/// The tile of a frame that starts at `(x, y)`.
fn cut_tile(frame: &Frame, width: u16, height: u16, x: u16, y: u16) -> (tile: Tile)
    requires
        x < width <= 65472,
        y < height <= 65472,
        frame.width * 4 <= usize::MAX,
        (height - 1) * (frame.width * 4) + width * 4 <= frame.data@.len(),
    ensures
        tile.x == x,
        tile.y == y,
        tile.w == tile_length(width as int, x as int),
        tile.h == tile_length(height as int, y as int),
        tile.bpp == 32,
        tile.data@ == tile_pixels(frame.data@, frame.width as int, tile.place()),
        tile.on_screen(),
{
    let th: u16 = if height - y < TILE {
        height - y
    } else {
        TILE
    };
    let tw: u16 = if width - x < TILE {
        width - x
    } else {
        TILE
    };
    proof {
        let stride = frame.width * 4;
        assert((y + th - 1) * stride <= (height - 1) * stride) by (nonlinear_arith)
            requires
                y + th <= height,
                stride >= 0,
        ;
        assert(tw * th * 4 <= 64 * 64 * 4) by (nonlinear_arith)
            requires
                0 <= tw <= 64,
                0 <= th <= 64,
        ;
    }
    let data: Vec<u8> = extract_tile(frame.data.as_slice(), frame.width, x, y, tw, th);
    Tile { x, y, w: tw, h: th, bpp: 32, data }
}

/// Appends the tiles of the row that starts at `y`.
fn cut_row(tiles: &mut Vec<Tile>, frame: &Frame, width: u16, height: u16, y: u16)
    requires
        width <= 65472,
        y < height <= 65472,
        y % 64 == 0,
        width > 0 ==> frame.width * 4 <= usize::MAX,
        width > 0 ==> (height - 1) * (frame.width * 4) + width * 4 <= frame.data@.len(),
        old(tiles)@.len() == (y / 64) * tile_count(width as int),
        tiles_bytes(old(tiles)@) == frame_bytes(
            frame.data@,
            frame.width as int,
            width as int,
            height as int,
            old(tiles)@.len() as int,
        ),
        forall|i: int| 0 <= i < old(tiles)@.len() ==> (#[trigger] old(tiles)@[i]).on_screen(),
    ensures
        final(tiles)@.len() == (y / 64 + 1) * tile_count(width as int),
        tiles_bytes(final(tiles)@) == frame_bytes(
            frame.data@,
            frame.width as int,
            width as int,
            height as int,
            final(tiles)@.len() as int,
        ),
        forall|i: int| 0 <= i < final(tiles)@.len() ==> (#[trigger] final(tiles)@[i]).on_screen(),
{
    let ghost cols = tile_count(width as int);
    let ghost row = (y / 64) as int;
    let ghost start = tiles@.len() as int;
    let mut x: u16 = 0;
    let ghost mut col: int = 0;
    while x < width
        invariant
            width <= 65472,
            y < height <= 65472,
            y == row * 64,
            row >= 0,
            cols == tile_count(width as int),
            width > 0 ==> frame.width * 4 <= usize::MAX,
            width > 0 ==> (height - 1) * (frame.width * 4) + width * 4 <= frame.data@.len(),
            0 <= col <= cols,
            x == col * 64,
            start == row * cols,
            tiles@.len() == start + col,
            tiles_bytes(tiles@) == frame_bytes(
                frame.data@,
                frame.width as int,
                width as int,
                height as int,
                start + col,
            ),
            forall|i: int| 0 <= i < tiles@.len() ==> (#[trigger] tiles@[i]).on_screen(),
        decreases 65536 - x,
    {
        let tile = cut_tile(frame, width, height, x, y);
        proof {
            lemma_tile_index(width as int, height as int, row, col);
            assert(tile.place() == tile_place(width as int, height as int, start + col));
            lemma_one_more_tile(tiles@, tile);
            col = col + 1;
        }
        tiles.push(tile);
        x += TILE;
    }
    proof {
        assert((row + 1) * cols == row * cols + cols) by (nonlinear_arith);
    }
}

impl BitmapEncoder {
    pub fn new(width: u16, height: u16) -> (e: Self)
        ensures
            e.width == width,
            e.height == height,
    {
        BitmapEncoder { width, height }
    }

    /// Returns the bytes of a bitmap update for the frame.
    pub fn encode(&mut self, frame: &Frame) -> (r: Result<Vec<u8>, std::io::Error>)
        requires
            old(self).height <= 65472,
            old(self).height > 0 ==> old(self).width <= 65472,
            old(self).width > 0 && old(self).height > 0 ==> {
                &&& frame.width * 4 <= usize::MAX
                &&& (old(self).height - 1) * (frame.width * 4) + old(self).width * 4
                    <= frame.data@.len()
            },
        ensures
            *final(self) == *old(self),
            r matches Ok(buf) && buf@ == update_bytes(
                screen_tiles(old(self).width as int, old(self).height as int),
                frame_bytes(
                    frame.data@,
                    frame.width as int,
                    old(self).width as int,
                    old(self).height as int,
                    screen_tiles(old(self).width as int, old(self).height as int),
                ),
            ),
    {
        let width: u16 = self.width;
        let height: u16 = self.height;
        let ghost cols = tile_count(width as int);
        let mut tiles: Vec<Tile> = Vec::new();
        let mut y: u16 = 0;
        proof {
            assert(0 * cols == 0);
        }
        while y < height
            invariant
                height <= 65472,
                height > 0 ==> width <= 65472,
                cols == tile_count(width as int),
                width > 0 && height > 0 ==> frame.width * 4 <= usize::MAX,
                width > 0 && height > 0 ==> (height - 1) * (frame.width * 4) + width * 4
                    <= frame.data@.len(),
                y % 64 == 0,
                y / 64 <= tile_count(height as int),
                tiles@.len() == (y / 64) * cols,
                tiles_bytes(tiles@) == frame_bytes(
                    frame.data@,
                    frame.width as int,
                    width as int,
                    height as int,
                    tiles@.len() as int,
                ),
                forall|i: int| 0 <= i < tiles@.len() ==> (#[trigger] tiles@[i]).on_screen(),
            decreases 65536 - y,
        {
            cut_row(&mut tiles, frame, width, height, y);
            assert((y + 64) / 64 == y / 64 + 1);
            y += TILE;
        }
        proof {
            assert(y / 64 == tile_count(height as int));
            let rows = tile_count(height as int);
            assert(rows * cols == cols * rows) by (nonlinear_arith);
        }
        serialize_bitmap_update(tiles)
    }
}

/// The tiles of a screen lie on it and cover each of its pixels exactly once.
pub proof fn law_tiles_cover_screen(width: int, height: int, x: int, y: int)
    requires
        0 <= x < width,
        0 <= y < height,
    ensures
        ({
            let i = (y / 64) * tile_count(width) + x / 64;
            let p = tile_place(width, height, i);
            &&& 0 <= i < screen_tiles(width, height)
            &&& p.x <= x < p.x + p.w <= width
            &&& p.y <= y < p.y + p.h <= height
        }),
        forall|i: int|
            0 <= i < screen_tiles(width, height) && ({
                let p = #[trigger] tile_place(width, height, i);
                &&& p.x <= x < p.x + p.w
                &&& p.y <= y < p.y + p.h
            }) ==> i == (y / 64) * tile_count(width) + x / 64,
{
    let n = tile_count(width);
    let m = tile_count(height);
    let row = y / 64;
    let col = x / 64;
    lemma_tile_index(width, height, row, col);
    assert(0 <= row * n && row * n + col < n * m) by (nonlinear_arith)
        requires
            0 <= row < m,
            0 <= col < n,
    ;
    assert forall|i: int|
        0 <= i < screen_tiles(width, height) && ({
            let p = #[trigger] tile_place(width, height, i);
            &&& p.x <= x < p.x + p.w
            &&& p.y <= y < p.y + p.h
        }) implies i == row * n + col by {
        lemma_fundamental_div_mod(i, n);
        let r = i / n;
        let c = i % n;
        assert(i == n * r + c);
        assert(r == row && c == col);
        assert(n * r == r * n) by (nonlinear_arith);
    }
}

/// Each pixel of the frame is found in the data of the tile that covers it, in
/// the place that its row and column in the tile give it.
pub proof fn law_tile_holds_its_pixels(src: Seq<u8>, src_w: int, p: Place, x: int, y: int, c: int)
    requires
        p.x <= x < p.x + p.w,
        p.y <= y < p.y + p.h,
        0 <= c < 4,
    ensures
        ({
            let i = ((y - p.y) * p.w + (x - p.x)) * 4 + c;
            &&& 0 <= i < tile_pixels(src, src_w, p).len()
            &&& tile_pixels(src, src_w, p)[i] == src[(y * src_w + x) * 4 + c]
        }),
{
    let row = y - p.y;
    let col = x - p.x;
    let line = p.w * 4;
    let i = (row * p.w + col) * 4 + c;
    assert(i == row * line + (col * 4 + c)) by (nonlinear_arith)
        requires
            i == (row * p.w + col) * 4 + c,
            line == p.w * 4,
    ;
    lemma_fundamental_div_mod_converse(i, line, row, col * 4 + c);
    assert(0 <= row * line && row * line + line <= p.w * p.h * 4) by (nonlinear_arith)
        requires
            0 <= row,
            row + 1 <= p.h,
            line == p.w * 4,
            0 <= p.w,
    ;
    assert((p.y + row) * (src_w * 4) + p.x * 4 + (col * 4 + c) == (y * src_w + x) * 4 + c)
        by (nonlinear_arith)
        requires
            row == y - p.y,
            col == x - p.x,
    ;
}

/// A 16-bit number is sent in two bytes, the low one first.
pub proof fn law_low_byte_comes_first(v: u16)
    ensures
        le16(v).len() == 2,
        le16(v)[0] + 256 * le16(v)[1] == v,
{
}

/// A tile on the screen is sent with its corners, both inside it, its size, its
/// depth, the mark that it is not compressed and the length of its data, each in
/// two bytes; the data follows unchanged.
pub proof fn law_tile_is_sent_whole(p: Place, bpp: u16, data: Seq<u8>)
    requires
        0 <= p.x,
        0 <= p.y,
        0 < p.w,
        0 < p.h,
        p.x + p.w <= u16::MAX,
        p.y + p.h <= u16::MAX,
        data.len() <= u16::MAX,
    ensures
        ({
            let b = tile_bytes(p, bpp, data);
            &&& b.len() == 18 + data.len()
            &&& b[0] + 256 * b[1] == p.x
            &&& b[2] + 256 * b[3] == p.y
            &&& b[4] + 256 * b[5] == p.x + p.w - 1
            &&& b[6] + 256 * b[7] == p.y + p.h - 1
            &&& b[8] + 256 * b[9] == p.w
            &&& b[10] + 256 * b[11] == p.h
            &&& b[12] + 256 * b[13] == bpp
            &&& b[14] == 0 && b[15] == 0
            &&& b[16] + 256 * b[17] == data.len()
            &&& b.skip(18) == data
        }),
{
    let b = tile_bytes(p, bpp, data);
    law_low_byte_comes_first(p.x as u16);
    law_low_byte_comes_first(p.y as u16);
    law_low_byte_comes_first((p.x + p.w - 1) as u16);
    law_low_byte_comes_first((p.y + p.h - 1) as u16);
    law_low_byte_comes_first(p.w as u16);
    law_low_byte_comes_first(p.h as u16);
    law_low_byte_comes_first(bpp);
    law_low_byte_comes_first(data.len() as u16);
    assert(b.skip(18) =~= data);
}

/// An update begins with its type, one, and the number of its rectangles.
pub proof fn law_update_tells_its_rectangles(count: u16, rectangles: Seq<u8>)
    ensures
        ({
            let b = update_bytes(count as int, rectangles);
            &&& b.len() == 4 + rectangles.len()
            &&& b[0] == 1 && b[1] == 0
            &&& b[2] + 256 * b[3] == count
            &&& b.skip(4) == rectangles
        }),
{
    let b = update_bytes(count as int, rectangles);
    assert(b.skip(4) =~= rectangles);
}

/// The tiles of a frame are sent one after the other, each with 32 bits per pixel
/// and with the pixels of its place, whatever comes after.
pub proof fn law_frame_is_sent_tile_by_tile(
    src: Seq<u8>,
    src_w: int,
    width: int,
    height: int,
    i: int,
    n: int,
)
    requires
        0 <= i < n,
    ensures
        ({
            let all = frame_bytes(src, src_w, width, height, n);
            let start = frame_bytes(src, src_w, width, height, i).len() as int;
            let p = tile_place(width, height, i);
            let tile = tile_bytes(p, 32, tile_pixels(src, src_w, p));
            &&& start + tile.len() <= all.len()
            &&& all.take(start) == frame_bytes(src, src_w, width, height, i)
            &&& all.subrange(start, start + tile.len()) == tile
        }),
    decreases n,
{
    let all = frame_bytes(src, src_w, width, height, n);
    let before = frame_bytes(src, src_w, width, height, n - 1);
    let first = frame_bytes(src, src_w, width, height, i);
    let p = tile_place(width, height, i);
    let tile = tile_bytes(p, 32, tile_pixels(src, src_w, p));
    let start = first.len() as int;
    if i == n - 1 {
        assert(all.take(start) =~= first);
        assert(all.subrange(start, start + tile.len()) =~= tile);
    } else {
        law_frame_is_sent_tile_by_tile(src, src_w, width, height, i, n - 1);
        assert(all.take(start) =~= before.take(start));
        assert(all.subrange(start, start + tile.len()) =~= before.subrange(
            start,
            start + tile.len(),
        ));
    }
}

/// Every tile of a screen has pixels, no more than 64 by 64, starts at a multiple
/// of 64 in both directions and lies on the screen. A screen without pixels has
/// no tiles.
pub proof fn law_tiles_lie_on_screen(width: int, height: int, i: int)
    requires
        0 <= width,
        0 <= height,
        0 <= i < screen_tiles(width, height),
    ensures
        ({
            let p = tile_place(width, height, i);
            &&& p.x % 64 == 0 && p.y % 64 == 0
            &&& 0 <= p.x && 0 < p.w <= 64 && p.x + p.w <= width
            &&& 0 <= p.y && 0 < p.h <= 64 && p.y + p.h <= height
            &&& p.w == 64 || p.x + p.w == width
            &&& p.h == 64 || p.y + p.h == height
        }),
        0 < width && 0 < height,
{
    let n = tile_count(width);
    let m = tile_count(height);
    assert(n > 0 && m > 0) by (nonlinear_arith)
        requires
            0 <= i < n * m,
            0 <= n,
            0 <= m,
    ;
    lemma_fundamental_div_mod(i, n);
    let row = i / n;
    let col = i % n;
    assert(0 <= col < n && i == n * row + col);
    assert(0 <= row < m) by (nonlinear_arith)
        requires
            0 <= i < n * m,
            i == n * row + col,
            0 <= col < n,
    ;
}

} // verus!
