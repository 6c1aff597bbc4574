//! Screen capture through a bitmap context.
//!
//! The screen is drawn into a buffer of BGRA pixels: either one of our own, or
//! the memory of a pixel buffer that is handed to the H.264 encoder. How these
//! are laid out, and what is made of the pixels, is decided here.
use vstd::arithmetic::div_mod::{
    lemma_div_pos_is_pos, lemma_fundamental_div_mod, lemma_fundamental_div_mod_converse,
    lemma_mod_bound,
};
use vstd::prelude::*;

verus! {

/// 32-bit BGRA, 8 bits per component: 'BGRA'
pub const K_CV_PIXEL_FORMAT_TYPE_32BGRA: u32 = 0x42475241;

/// BGRA bitmap data captured from the display.
#[derive(Debug)]
pub struct CapturedFrame {
    /// The BGRA pixel data (BGRA byte order, 4 bytes per pixel).
    pub data: Vec<u8>,
    /// Width in pixels.
    pub width: usize,
    /// Height in pixels.
    pub height: usize,
    /// Bytes per row (may include padding for alignment).
    pub stride: usize,
}

/// The smallest multiple of `unit` that is no less than `n`.
pub open spec fn aligned(n: int, unit: int) -> int {
    (n + unit - 1) / unit * unit
}

/// The bytes per row of a captured frame: rows are aligned to 16 bytes.
pub open spec fn frame_stride(width: int) -> int {
    aligned(width * 4, 16)
}

/// How a frame lies in memory.
#[derive(Debug, Clone, Copy, PartialEq, Eq, Structural)]
pub struct FrameLayout {
    pub stride: usize,
    pub size: usize,
}

/// How a frame of the given size lies in memory; `None` where it has no pixels.
pub fn frame_layout(width: usize, height: usize) -> (r: Option<FrameLayout>)
    requires
        width > 0 && height > 0 ==> {
            &&& width * 4 + 15 <= usize::MAX
            &&& frame_stride(width as int) * height <= isize::MAX
        },
    ensures
        r is None <==> width == 0 || height == 0,
        r matches Some(l) ==> {
            &&& l.stride == frame_stride(width as int)
            &&& l.size == l.stride * height
        },
{
    if width == 0 || height == 0 {
        return None;
    }
    let packed: usize = width * 4;
    let padded: usize = packed + 15;
    // Align stride to 16 bytes for better SIMD performance
    let stride: usize = padded & !15;
    assert(padded & !15 == padded / 16 * 16) by (bit_vector);
    Some(FrameLayout { stride, size: stride * height })
}

/// The frame for what was drawn into a bitmap context: opaque, and black where
/// nothing was drawn. `None` where the image has no pixels.
pub fn captured_frame(width: usize, height: usize, drawn: &[u8]) -> (r: Option<CapturedFrame>)
    requires
        width > 0 && height > 0 ==> {
            &&& width * 4 + 15 <= usize::MAX
            &&& frame_stride(width as int) * height <= isize::MAX
            &&& drawn.len() <= frame_stride(width as int) * height
        },
    ensures
        r is None <==> width == 0 || height == 0,
        r matches Some(f) ==> {
            &&& f.width == width
            &&& f.height == height
            &&& f.stride == frame_stride(width as int)
            &&& f.data@ == Seq::new(
                (f.stride * height) as nat,
                |i: int|
                    if i % 4 == 3 {
                        255u8
                    } else if i < drawn@.len() {
                        drawn@[i]
                    } else {
                        0u8
                    },
            )
        },
{
    let layout: FrameLayout = match frame_layout(width, height) {
        Some(l) => l,
        None => {
            return None;
        },
    };
    let mut data: Vec<u8> = Vec::with_capacity(layout.size);
    let mut i: usize = 0;
    while i < layout.size
        invariant
            i <= layout.size,
            drawn.len() <= layout.size,
            data@ == Seq::new(
                i as nat,
                |i: int|
                    if i % 4 == 3 {
                        255u8
                    } else if i < drawn@.len() {
                        drawn@[i]
                    } else {
                        0u8
                    },
            ),
        decreases layout.size - i,
    {
        if i % 4 == 3 {
            // Force alpha channel to 255 for all pixels.
            data.push(255);
        } else if i < drawn.len() {
            data.push(drawn[i]);
        } else {
            data.push(0);
        }
        i += 1;
    }
    Some(CapturedFrame { data, width, height, stride: layout.stride })
}

/// What is asked of a new pixel buffer.
#[derive(Debug, Clone, Copy, PartialEq, Eq, Structural)]
pub struct PixelBufferAttributes {
    pub width: i32,
    pub height: i32,
    /// Alignment of the rows.
    pub bytes_per_row_alignment: i32,
    pub cg_image_compatibility: i32,
    /// Needed to draw into the buffer through a bitmap context.
    pub cg_bitmap_context_compatibility: i32,
}

/// What is asked of a new pixel buffer of the given size. Its rows are aligned
/// to the length of a row, rounded up to 64 bytes.
pub fn pixel_buffer_attributes(width: usize, height: usize) -> (a: PixelBufferAttributes)
    requires
        width * 4 + 63 <= usize::MAX,
    ensures
        a == (PixelBufferAttributes {
            width: width as i32,
            height: height as i32,
            bytes_per_row_alignment: aligned(width * 4, 64) as i32,
            cg_image_compatibility: 1,
            cg_bitmap_context_compatibility: 1,
        }),
{
    let padded: usize = width * 4 + 63;
    assert(padded & !63 == padded / 64 * 64) by (bit_vector);
    // Align stride to 64 bytes for good SIMD/cache performance
    let stride: usize = padded & !63;
    PixelBufferAttributes {
        width: width as i32,
        height: height as i32,
        bytes_per_row_alignment: stride as i32,
        cg_image_compatibility: 1,
        cg_bitmap_context_compatibility: 1,
    }
}

/// Why there is no pixel buffer to draw into.
#[derive(Debug, Clone, Copy, PartialEq, Eq, Structural)]
pub enum PixelBufferError {
    /// The buffer could not be created.
    Create(i32),
    /// No buffer came of it.
    Null,
    /// The buffer could not be locked; it has to be released.
    Lock(i32),
}

/// The next step after the system was asked for a pixel buffer: lock it.
pub fn pixel_buffer_created(status: i32, has_buffer: bool) -> (r: Result<(), PixelBufferError>)
    ensures
        r == (if status != 0 {
            Err::<(), PixelBufferError>(PixelBufferError::Create(status))
        } else if !has_buffer {
            Err::<(), PixelBufferError>(PixelBufferError::Null)
        } else {
            Ok::<(), PixelBufferError>(())
        }),
{
    if status != 0 {
        return Err(PixelBufferError::Create(status));
    }
    if !has_buffer {
        return Err(PixelBufferError::Null);
    }
    Ok(())
}

/// A locked pixel buffer of BGRA pixels.
#[derive(Debug, Clone, Copy, PartialEq, Eq, Structural)]
pub struct CVPixelBufferWrapper {
    pub bytes_per_row: usize,
    pub width: usize,
    pub height: usize,
}

impl CVPixelBufferWrapper {
    /// A buffer that is ready to be drawn into, once the system was asked to
    /// lock it.
    pub fn locked(status: i32, bytes_per_row: usize, width: usize, height: usize) -> (r: Result<
        CVPixelBufferWrapper,
        PixelBufferError,
    >)
        ensures
            r == (if status != 0 {
                Err::<CVPixelBufferWrapper, PixelBufferError>(PixelBufferError::Lock(status))
            } else {
                Ok::<CVPixelBufferWrapper, PixelBufferError>(
                    CVPixelBufferWrapper { bytes_per_row, width, height },
                )
            }),
    {
        if status != 0 {
            return Err(PixelBufferError::Lock(status));
        }
        Ok(CVPixelBufferWrapper { bytes_per_row, width, height })
    }

    /// Returns the width of the pixel buffer in pixels.
    pub fn width(&self) -> (w: usize)
        ensures
            w == self.width,
    {
        self.width
    }

    /// Returns the height of the pixel buffer in pixels.
    pub fn height(&self) -> (h: usize)
        ensures
            h == self.height,
    {
        self.height
    }

    /// Returns the bytes per row (stride) of the pixel buffer.
    pub fn bytes_per_row(&self) -> (n: usize)
        ensures
            n == self.bytes_per_row,
    {
        self.bytes_per_row
    }

    /// Makes the pixels in the buffer's memory opaque. Padding after the pixels
    /// of a row is not touched.
    pub fn make_opaque(&self, memory: &mut [u8])
        requires
            self.width * 4 <= self.bytes_per_row,
            self.height > 0 ==> (self.height - 1) * self.bytes_per_row + self.width * 4 <= old(
                memory,
            )@.len(),
        ensures
            final(memory)@.len() == old(memory)@.len(),
            forall|i: int|
                0 <= i < old(memory)@.len() ==> #[trigger] final(memory)@[i] == (if is_alpha(
                    *self,
                    i,
                ) {
                    255
                } else {
                    old(memory)@[i]
                }),
    {
        let ghost before = memory@;
        let bpr: usize = self.bytes_per_row;
        if self.width == 0 {
            return ;
        }
        let mut row: usize = 0;
        proof {
            assert forall|i: int| 0 <= i implies #[trigger] (i / bpr as int) >= 0 by {
                lemma_div_pos_is_pos(i, bpr as int);
            }
        }
        while row < self.height
            invariant
                row <= self.height,
                bpr == self.bytes_per_row,
                0 < self.width * 4 <= bpr,
                self.height > 0 ==> (self.height - 1) * bpr + self.width * 4 <= memory@.len(),
                memory@.len() == before.len(),
                forall|i: int|
                    0 <= i < before.len() ==> #[trigger] memory@[i] == (if is_alpha(*self, i) && (i
                        / bpr as int) < row {
                        255
                    } else {
                        before[i]
                    }),
            decreases self.height - row,
        {
            proof {
                assert(row * bpr <= (self.height - 1) * bpr) by (nonlinear_arith)
                    requires
                        row <= self.height - 1,
                ;
            }
            let len: usize = memory.len();
            let start: usize = row * bpr;
            let mut col: usize = 0;
            proof {
                assert forall|i: int| 0 <= i implies #[trigger] (i % bpr as int) >= 0 by {
                    lemma_mod_bound(i, bpr as int);
                }
            }
            while col < self.width
                invariant
                    col <= self.width,
                    row < self.height,
                    bpr == self.bytes_per_row,
                    0 < self.width * 4 <= bpr,
                    start == row * bpr,
                    start + self.width * 4 <= memory@.len(),
                    memory@.len() == before.len(),
                    memory@.len() <= usize::MAX,
                    forall|i: int|
                        0 <= i < before.len() ==> #[trigger] memory@[i] == (if is_alpha(*self, i)
                            && (i / bpr as int) < row {
                            255
                        } else if i / bpr as int == row && i % bpr as int % 4 == 3 && (i % bpr
                            as int) < col * 4 {
                            255
                        } else {
                            before[i]
                        }),
                decreases self.width - col,
            {
                let at: usize = start + col * 4 + 3;
                let ghost now = memory@;
                memory[at] = 255;
                proof {
                    lemma_fundamental_div_mod_converse(at as int, bpr as int, row as int, col * 4 + 3);
                    assert forall|i: int| 0 <= i < before.len() implies #[trigger] memory@[i] == (
                    if is_alpha(*self, i) && (i / bpr as int) < row {
                        255
                    } else if i / bpr as int == row && i % bpr as int % 4 == 3 && (i % bpr
                        as int) < (col + 1) * 4 {
                        255
                    } else {
                        before[i]
                    }) by {
                        if i != at {
                            assert(memory@[i] == now[i]);
                            lemma_fundamental_div_mod(i, bpr as int);
                            if i / bpr as int == row && i % bpr as int == col * 4 + 3 {
                                assert(bpr * (i / bpr as int) == row * bpr) by (nonlinear_arith)
                                    requires
                                        i / bpr as int == row,
                                ;
                            }
                        }
                    }
                }
                col += 1;
            }
            row += 1;
        }
        proof {
            assert forall|i: int| 0 <= i < before.len() && is_alpha(*self, i) implies (i / bpr
                as int) < self.height by {}
        }
    }
}

/// The byte is the alpha channel of one of the buffer's pixels.
pub open spec fn is_alpha(buffer: CVPixelBufferWrapper, i: int) -> bool {
    let bpr = buffer.bytes_per_row as int;
    &&& 0 < buffer.width
    &&& i / bpr < buffer.height
    &&& i % bpr < buffer.width * 4
    &&& i % bpr % 4 == 3
}

/// Rows are aligned: each takes up a whole number of units, no less than it
/// needs, and less than one unit more.
pub proof fn law_alignment(n: int, unit: int)
    requires
        0 <= n,
        0 < unit,
    ensures
        aligned(n, unit) % unit == 0,
        n <= aligned(n, unit) < n + unit,
{
    let q = (n + unit - 1) / unit;
    lemma_fundamental_div_mod(n + unit - 1, unit);
    lemma_mod_bound(n + unit - 1, unit);
    assert(q * unit == unit * q) by (nonlinear_arith);
    lemma_fundamental_div_mod_converse(q * unit, unit, q, 0);
}

/// A row of a captured frame holds four bytes for each pixel and fewer than 16
/// more, and is a multiple of 16 bytes long.
pub proof fn law_frame_rows(width: int)
    requires
        0 <= width,
    ensures
        frame_stride(width) % 16 == 0,
        4 * width <= frame_stride(width) < 4 * width + 16,
{
    law_alignment(width * 4, 16);
}

/// Of the bytes of a row, exactly the fourth of each pixel is its alpha channel;
/// padding is not, nor is anything after the last row.
pub proof fn law_alpha_is_the_fourth_byte(buffer: CVPixelBufferWrapper, row: int, at: int)
    requires
        0 <= row,
        0 <= at < buffer.bytes_per_row,
    ensures
        is_alpha(buffer, row * buffer.bytes_per_row + at) <==> row < buffer.height && exists|x: int|
            0 <= x < buffer.width && at == #[trigger] (4 * x) + 3,
{
    let bpr = buffer.bytes_per_row as int;
    let i = row * bpr + at;
    lemma_fundamental_div_mod_converse(i, bpr, row, at);
    assert(i / bpr == row && i % bpr == at);
    if is_alpha(buffer, i) {
        let x = at / 4;
        assert(at == 4 * x + 3);
        assert(0 <= x < buffer.width);
    }
}

} // verus!
