//! What the display hands to the RDP connection.
use crate::pixels::{bytes_as_slice, bytes_slice, contents};
use bytes::Bytes;
use vstd::prelude::*;

verus! {

/// Desktop dimensions in pixels.
#[derive(Debug, Clone, Copy, PartialEq, Eq, Structural)]
pub struct DesktopSize {
    pub width: u16,
    pub height: u16,
}

/// Pixel layout of a bitmap.
#[derive(Debug, Clone, Copy, PartialEq, Eq, Structural)]
pub enum PixelFormat {
    /// Four bytes per pixel: blue, green, red, alpha.
    BgrA32,
}

/// A rectangle of pixels to draw at `(x, y)`.
///
/// Row `i` of the rectangle starts at byte `i * stride` of `data`.
#[derive(Debug)]
pub struct BitmapUpdate {
    pub x: u16,
    pub y: u16,
    pub width: u16,
    pub height: u16,
    pub format: PixelFormat,
    pub data: Bytes,
    pub stride: usize,
}

/// The mathematical content of a [`BitmapUpdate`].
#[verifier::ext_equal]
pub struct BitmapView {
    pub x: int,
    pub y: int,
    pub width: int,
    pub height: int,
    pub stride: int,
    pub data: Seq<u8>,
}

/// The bytes that `height` rows of `width` pixels take up.
pub open spec fn span(width: int, height: int, stride: int) -> int {
    (height - 1) * stride + width * 4
}

impl BitmapView {
    /// Every pixel of the rectangle lies inside the data.
    pub open spec fn sound(self) -> bool {
        &&& 0 < self.width
        &&& 0 < self.height
        &&& self.width * 4 <= self.stride
        &&& span(self.width, self.height, self.stride) <= self.data.len()
    }

    /// The rectangle of `width` by `height` pixels at `(x, y)`, relative to
    /// this one.
    pub open spec fn part(self, x: int, y: int, width: int, height: int) -> BitmapView {
        let start = y * self.stride + x * 4;
        BitmapView {
            x: self.x + x,
            y: self.y + y,
            width,
            height,
            stride: self.stride,
            data: self.data.subrange(start, start + span(width, height, self.stride)),
        }
    }
}

impl BitmapUpdate {
    pub open spec fn view(&self) -> BitmapView {
        BitmapView {
            x: self.x as int,
            y: self.y as int,
            width: self.width as int,
            height: self.height as int,
            stride: self.stride as int,
            data: contents(self.data),
        }
    }

    /// The part of the bitmap that is `width` by `height` pixels large and
    /// starts at `(x, y)`; `None` where it is empty or reaches outside.
    ///
    /// The part shares the bytes of the whole.
    pub fn sub(&self, x: u16, y: u16, width: u16, height: u16) -> (part: Option<BitmapUpdate>)
        requires
            self@.sound(),
            self.x + self.width <= u16::MAX,
            self.y + self.height <= u16::MAX,
        ensures
            part is Some <==> 0 < width && 0 < height && x + width <= self.width && y + height
                <= self.height,
            part matches Some(b) ==> b@ == self@.part(
                x as int,
                y as int,
                width as int,
                height as int,
            ) && b.format == self.format,
    {
        if width == 0 || height == 0 {
            return None;
        }
        if width > self.width || x > self.width - width || height > self.height || y > self.height
            - height {
            return None;
        }
        let len: usize = bytes_as_slice(&self.data).len();
        proof {
            let s = self.stride as int;
            let h = self.height as int;
            assert(y * s + (height - 1) * s + s <= h * s && 0 <= y * s && 0 <= (height - 1) * s)
                by (nonlinear_arith)
                requires
                    0 <= s,
                    0 < height,
                    y + height <= h,
            ;
            assert(h * s == (h - 1) * s + s) by (nonlinear_arith);
            assert(y * s + x * 4 + (height - 1) * s + width * 4 <= len);
        }
        let start: usize = y as usize * self.stride + x as usize * 4;
        let end: usize = start + (height as usize - 1) * self.stride + width as usize * 4;
        Some(
            BitmapUpdate {
                x: self.x + x,
                y: self.y + y,
                width,
                height,
                format: self.format,
                data: bytes_slice(&self.data, start, end),
                stride: self.stride,
            },
        )
    }
}

/// An encoded H.264 frame for the graphics channel.
#[derive(Debug)]
pub struct Avc420Update {
    pub data: Vec<u8>,
    pub width: u16,
    pub height: u16,
    pub is_keyframe: bool,
}

/// One thing for the RDP client to show.
#[derive(Debug)]
pub enum DisplayUpdate {
    /// The desktop has a new size.
    Resize(DesktopSize),
    /// A rectangle of the desktop has new pixels.
    Bitmap(BitmapUpdate),
    /// The desktop has a new H.264 frame.
    Avc420(Avc420Update),
}

} // verus!
