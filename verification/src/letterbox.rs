//! Fitting a frame into a desktop of another shape.
use crate::binary64::{
    below, distance, lemma_nearest_close, lemma_nearest_common_factor, lemma_of_int_exact, nearest,
    of_int, product, quotient, to_int, unit, Binary64, Magnitude, MANTISSA_HIGH, MANTISSA_LOW,
};
use crate::diff::pixel;
use vstd::arithmetic::div_mod::{
    lemma_div_is_ordered, lemma_div_pos_is_pos, lemma_fundamental_div_mod_converse,
};
use vstd::arithmetic::power2::{
    lemma2_to64, lemma_pow2_adds, lemma_pow2_strictly_increases,
};
use vstd::prelude::*;

verus! {

/// Where a scaled frame lies on the desktop.
#[verifier::ext_equal]
pub struct Placement {
    pub x: nat,
    pub y: nat,
    pub width: nat,
    pub height: nat,
}

/// The aspect ratio `width : height`, in double precision.
pub open spec fn ratio(width: nat, height: nat) -> Magnitude {
    quotient(of_int(width), of_int(height))
}

/// One thousandth, in double precision: ratios closer than this are the same.
pub open spec fn ratio_tolerance() -> Magnitude {
    quotient(of_int(1), of_int(1000))
}

/// The largest even number up to `n`.
pub open spec fn even_below(n: nat) -> nat {
    (n - n % 2) as nat
}

/// The room on one side of `inner` when it is centred in `outer`.
pub open spec fn margin(outer: nat, inner: nat) -> nat {
    if inner <= outer {
        ((outer - inner) / 2) as nat
    } else {
        0
    }
}

/// The height at which a frame of the given ratio has the given width.
pub open spec fn height_for(width: nat, src_ratio: Magnitude) -> nat {
    even_below(to_int(quotient(of_int(width), src_ratio), usize::MAX as nat))
}

/// The width at which a frame of the given ratio has the given height.
pub open spec fn width_for(height: nat, src_ratio: Magnitude) -> nat {
    even_below(to_int(product(of_int(height), src_ratio), usize::MAX as nat))
}

/// Where a frame of `src_w` by `src_h` lies on a desktop of `dst_w` by
/// `dst_h`: it fills the desktop where the ratios agree; a wider frame takes
/// the whole width and is centred vertically, any other takes the whole height
/// and is centred horizontally.
pub open spec fn placement(src_w: nat, src_h: nat, dst_w: nat, dst_h: nat) -> Placement {
    let src_ratio = ratio(src_w, src_h);
    let dst_ratio = ratio(dst_w, dst_h);
    if below(distance(src_ratio, dst_ratio), ratio_tolerance()) {
        Placement { x: 0, y: 0, width: dst_w, height: dst_h }
    } else if below(dst_ratio, src_ratio) {
        let height = height_for(dst_w, src_ratio);
        Placement { x: 0, y: margin(dst_h, height), width: dst_w, height }
    } else {
        let width = width_for(dst_h, src_ratio);
        Placement { x: margin(dst_w, width), y: 0, width, height: dst_h }
    }
}

/// `n` with its lowest bit cleared.
fn clear_lowest_bit(n: usize) -> (r: usize)
    ensures
        r == even_below(n as nat),
{
    assert(n & !1 == n - n % 2) by (bit_vector);
    n & !1
}

/// Where a frame lies when it is shown whole, as large as the desktop lets it
/// and centred: `(x, y, width, height)`.
pub fn compute_letterbox_rect(src_w: usize, src_h: usize, dst_w: usize, dst_h: usize) -> (r: (
    usize,
    usize,
    usize,
    usize,
))
    ensures
        (Placement {
            x: r.0 as nat,
            y: r.1 as nat,
            width: r.2 as nat,
            height: r.3 as nat,
        }) == placement(src_w as nat, src_h as nat, dst_w as nat, dst_h as nat),
{
    let src_ratio = Binary64::from_u64(src_w as u64).div(Binary64::from_u64(src_h as u64));
    let dst_ratio = Binary64::from_u64(dst_w as u64).div(Binary64::from_u64(dst_h as u64));
    let tolerance = Binary64::from_u64(1).div(Binary64::from_u64(1000));
    if src_ratio.abs_diff(dst_ratio).less_than(tolerance) {
        (0, 0, dst_w, dst_h)
    } else if dst_ratio.less_than(src_ratio) {
        let exact = Binary64::from_u64(dst_w as u64).div(src_ratio);
        let scaled_h: usize = clear_lowest_bit(exact.round_to_u64(usize::MAX as u64) as usize);
        let y: usize = dst_h.saturating_sub(scaled_h) / 2;
        (0, y, dst_w, scaled_h)
    } else {
        let exact = Binary64::from_u64(dst_h as u64).mul(src_ratio);
        let scaled_w: usize = clear_lowest_bit(exact.round_to_u64(usize::MAX as u64) as usize);
        let x: usize = dst_w.saturating_sub(scaled_w) / 2;
        (x, 0, scaled_w, dst_h)
    }
}

/// A picture: `height` rows of `width` pixels of four bytes, `stride` bytes
/// apart.
#[verifier::ext_equal]
pub struct Picture {
    pub data: Seq<u8>,
    pub width: nat,
    pub height: nat,
    pub stride: nat,
}

/// The coordinate from which position `i` out of `len` is sampled when `n`
/// pixels are stretched or squeezed over `len`.
pub open spec fn sampled(i: int, n: nat, len: nat) -> int {
    i * n / len as int
}

impl Picture {
    /// The byte of the picture at `(x, y)` in channel `c`.
    pub open spec fn byte(self, x: int, y: int, c: int) -> u8 {
        self.data[y * self.stride + x * 4 + c]
    }

    /// Every pixel that is sampled to fill a place of the given size lies inside
    /// the data, and its position can be computed in machine integers.
    pub open spec fn can_fill(self, width: nat, height: nat) -> bool {
        width > 0 && height > 0 ==> {
            &&& (width - 1) * self.width <= usize::MAX
            &&& (height - 1) * self.height <= usize::MAX
            &&& sampled(height - 1, self.height, height) * self.stride + sampled(
                width - 1,
                self.width,
                width,
            ) * 4 + 4 <= self.data.len()
        }
    }
}

/// Channel `c` of the pixel at `(x, y)` of a desktop on which the picture lies
/// at `p`, scaled by taking the nearest pixel, with opaque black around it.
pub open spec fn letterbox_byte(src: Picture, p: Placement, x: int, y: int, c: int) -> u8 {
    if p.x <= x < p.x + p.width && p.y <= y < p.y + p.height {
        src.byte(sampled(x - p.x, src.width, p.width), sampled(y - p.y, src.height, p.height), c)
    } else if c == 3 {
        255
    } else {
        0
    }
}

/// A desktop of `dst_w` by `dst_h` with the whole picture on it.
pub open spec fn letterboxed(src: Picture, dst_w: nat, dst_h: nat) -> Picture {
    let p = placement(src.width, src.height, dst_w, dst_h);
    Picture {
        data: Seq::new(
            dst_w * dst_h * 4,
            |i: int|
                letterbox_byte(src, p, (i / 4) % dst_w as int, (i / 4) / dst_w as int, i % 4),
        ),
        width: dst_w,
        height: dst_h,
        stride: dst_w * 4,
    }
}

/// Sampling keeps the order of positions.
proof fn lemma_sampled_ordered(i: int, j: int, n: nat, len: nat)
    requires
        0 <= i <= j,
        len > 0,
    ensures
        0 <= sampled(i, n, len) <= sampled(j, n, len),
{
    assert(0 <= i * n <= j * n) by (nonlinear_arith)
        requires
            0 <= i <= j,
    ;
    lemma_div_is_ordered(i * n, j * n, len as int);
    lemma_div_pos_is_pos(i * n, len as int);
}

/// Where the pixel that fills `(dx, dy)` of a place of `width` by `height`
/// starts in the data.
fn sample_offset(
    src: &[u8],
    src_w: usize,
    src_h: usize,
    src_stride: usize,
    dx: usize,
    dy: usize,
    width: usize,
    height: usize,
) -> (si: usize)
    requires
        dx < width,
        dy < height,
        (Picture {
            data: src@,
            width: src_w as nat,
            height: src_h as nat,
            stride: src_stride as nat,
        }).can_fill(width as nat, height as nat),
    ensures
        si == sampled(dy as int, src_h as nat, height as nat) * src_stride + sampled(
            dx as int,
            src_w as nat,
            width as nat,
        ) * 4,
        si + 4 <= src.len(),
{
    proof {
        assert(dy * src_h <= (height - 1) * src_h) by (nonlinear_arith)
            requires
                dy <= height - 1,
        ;
        assert(dx * src_w <= (width - 1) * src_w) by (nonlinear_arith)
            requires
                dx <= width - 1,
        ;
        lemma_sampled_ordered(dy as int, height - 1, src_h as nat, height as nat);
        lemma_sampled_ordered(dx as int, width - 1, src_w as nat, width as nat);
        let a = sampled(dy as int, src_h as nat, height as nat);
        let b = sampled(height - 1, src_h as nat, height as nat);
        assert(0 <= a * src_stride <= b * src_stride) by (nonlinear_arith)
            requires
                0 <= a <= b,
        ;
    }
    let len: usize = src.len();
    let src_y: usize = dy * src_h / height;
    let src_x: usize = dx * src_w / width;
    src_y * src_stride + src_x * 4
}

/// Draws a picture on a desktop of `dst_w` by `dst_h` pixels: as large as it
/// fits, with black bars where the ratios differ.
pub fn draw_letterboxed(
    src: &[u8],
    src_w: usize,
    src_h: usize,
    src_stride: usize,
    dst_w: u16,
    dst_h: u16,
) -> (dst: Vec<u8>)
    requires
        dst_w * dst_h * 4 <= isize::MAX,
        ({
            let p = placement(src_w as nat, src_h as nat, dst_w as nat, dst_h as nat);
            (Picture {
                data: src@,
                width: src_w as nat,
                height: src_h as nat,
                stride: src_stride as nat,
            }).can_fill(p.width, p.height)
        }),
    ensures
        dst@ == letterboxed(
            Picture {
                data: src@,
                width: src_w as nat,
                height: src_h as nat,
                stride: src_stride as nat,
            },
            dst_w as nat,
            dst_h as nat,
        ).data,
{
    let ghost from = Picture {
        data: src@,
        width: src_w as nat,
        height: src_h as nat,
        stride: src_stride as nat,
    };
    let (px, py, pw, ph) = compute_letterbox_rect(src_w, src_h, dst_w as usize, dst_h as usize);
    let ghost p = placement(src_w as nat, src_h as nat, dst_w as nat, dst_h as nat);
    let ghost w = dst_w as int;
    let ghost goal = letterboxed(from, dst_w as nat, dst_h as nat).data;
    proof {
        law_letterbox_inside(src_w as nat, src_h as nat, dst_w as nat, dst_h as nat);
        assert(dst_w as nat * dst_h as nat * 4 == dst_h * w * 4) by (nonlinear_arith)
            requires
                w == dst_w,
        ;
        assert(0 * w == 0);
    }
    let mut dst: Vec<u8> = Vec::with_capacity(dst_w as usize * dst_h as usize * 4);
    let mut y: usize = 0;
    while y < dst_h as usize
        invariant
            y <= dst_h,
            w == dst_w,
            from == (Picture {
                data: src@,
                width: src_w as nat,
                height: src_h as nat,
                stride: src_stride as nat,
            }),
            p == placement(src_w as nat, src_h as nat, dst_w as nat, dst_h as nat),
            p == (Placement { x: px as nat, y: py as nat, width: pw as nat, height: ph as nat }),
            px + pw <= dst_w,
            py + ph <= dst_h,
            from.can_fill(p.width, p.height),
            goal == letterboxed(from, dst_w as nat, dst_h as nat).data,
            goal.len() == dst_h * w * 4,
            dst@.len() == y * w * 4,
            dst@.len() <= goal.len(),
            forall|i: int| 0 <= i < dst@.len() ==> #[trigger] dst@[i] == goal[i],
        decreases dst_h - y,
    {
        let inside_y: bool = py <= y && y < py + ph;
        let mut x: usize = 0;
        assert((y * w + 0) * 4 == y * w * 4);
        while x < dst_w as usize
            invariant
                x <= dst_w,
                y < dst_h,
                w == dst_w,
                from == (Picture {
                    data: src@,
                    width: src_w as nat,
                    height: src_h as nat,
                    stride: src_stride as nat,
                }),
                p == (Placement { x: px as nat, y: py as nat, width: pw as nat, height: ph as nat }),
                p == placement(src_w as nat, src_h as nat, dst_w as nat, dst_h as nat),
                px + pw <= dst_w,
                py + ph <= dst_h,
                inside_y == (py <= y && y < py + ph),
                from.can_fill(p.width, p.height),
                goal == letterboxed(from, dst_w as nat, dst_h as nat).data,
                goal.len() == dst_h * w * 4,
                dst@.len() == (y * w + x) * 4,
                dst@.len() <= goal.len(),
                forall|i: int| 0 <= i < dst@.len() ==> #[trigger] dst@[i] == goal[i],
            decreases dst_w - x,
        {
            let ghost before = dst@;
            let ghost base = (y * w + x) * 4;
            proof {
                lemma_fundamental_div_mod_converse(y * w + x, w, y as int, x as int);
                assert(y * w + x + 1 <= dst_h * w) by (nonlinear_arith)
                    requires
                        y + 1 <= dst_h,
                        x < w,
                ;
                assert forall|c: int| 0 <= c < 4 implies #[trigger] goal[base + c]
                    == letterbox_byte(from, p, x as int, y as int, c) by {
                    assert((base + c) / 4 == y * w + x);
                    assert((base + c) % 4 == c);
                }
                assert(goal[base + 0] == goal[base]);
            }
            if inside_y && px <= x && x < px + pw {
                let si: usize = sample_offset(
                    src,
                    src_w,
                    src_h,
                    src_stride,
                    x - px,
                    y - py,
                    pw,
                    ph,
                );
                dst.push(src[si]);
                dst.push(src[si + 1]);
                dst.push(src[si + 2]);
                dst.push(src[si + 3]);
            } else {
                dst.push(0);
                dst.push(0);
                dst.push(0);
                dst.push(255);
            }
            proof {
                assert(goal[base + 1] == dst@[base + 1]);
                assert(goal[base + 2] == dst@[base + 2]);
                assert(goal[base + 3] == dst@[base + 3]);
                assert forall|i: int| 0 <= i < dst@.len() implies #[trigger] dst@[i]
                    == goal[i] by {
                    if i < base {
                        assert(dst@[i] == before[i]);
                    } else {
                        assert(i == base || i == base + 1 || i == base + 2 || i == base + 3);
                    }
                }
            }
            x += 1;
        }
        proof {
            assert((y * w + w) * 4 == (y + 1) * w * 4) by (nonlinear_arith);
            assert((y + 1) * w * 4 <= dst_h * w * 4) by (nonlinear_arith)
                requires
                    y + 1 <= dst_h,
                    w >= 0,
            ;
        }
        y += 1;
    }
    dst
}

/// One is a large number of smallest positive values.
pub proof fn lemma_unit_large()
    ensures
        unit() >= 0x1_0000_0000_0000_0000_0000_0000_0000_0000int,
{
    lemma2_to64();
    lemma_pow2_adds(64, 64);
    lemma_pow2_strictly_increases(128, 1074);
}

/// A quotient of at least a normalised mantissa stays one when it is rounded.
proof fn lemma_nearest_normal(n: nat, d: nat)
    requires
        d > 0,
        d * MANTISSA_LOW <= n,
    ensures
        nearest(n, d) >= MANTISSA_LOW,
    decreases
            (if n > d {
                n - d
            } else {
                0
            }),
{
    if n < d * MANTISSA_HIGH {
        assert(n / d >= MANTISSA_LOW) by (nonlinear_arith)
            requires
                d > 0,
                d * MANTISSA_LOW <= n,
        ;
    } else {
        lemma_nearest_normal(n, 2 * d);
    }
}

/// Rounding a positive 64-bit integer no more than halves or doubles it.
proof fn lemma_of_int_range(i: nat) -> (a: nat)
    requires
        0 < i <= u64::MAX,
    ensures
        of_int(i) == Magnitude::Finite(a),
        unit() <= 2 * a,
        a <= 0x2_0000_0000_0000_0000 * unit(),
{
    let u = unit();
    let n = i * u;
    lemma_unit_large();
    assert(u <= n <= 0x1_0000_0000_0000_0000 * u) by (nonlinear_arith)
        requires
            n == i * u,
            0 < i <= 0x1_0000_0000_0000_0000,
    ;
    lemma_nearest_close(n, 1);
    nearest(n, 1)
}

/// The ratio of two positive 64-bit integers is a normalised value that is
/// far from the limits of binary64.
pub proof fn lemma_ratio_range(w: nat, h: nat) -> (r: nat)
    requires
        0 < w <= u64::MAX,
        0 < h <= u64::MAX,
    ensures
        ratio(w, h) == Magnitude::Finite(r),
        MANTISSA_LOW <= r <= 0x10_0000_0000_0000_0000 * unit(),
{
    let u = unit();
    lemma_unit_large();
    let a = lemma_of_int_range(w);
    let b = lemma_of_int_range(h);
    let n = a * u;
    assert(b * MANTISSA_LOW <= n) by (nonlinear_arith)
        requires
            n == a * u,
            b <= 0x2_0000_0000_0000_0000 * u,
            u <= 2 * a,
            u >= 0x1_0000_0000_0000_0000_0000_0000_0000_0000int,
            MANTISSA_LOW == 0x10_0000_0000_0000,
    ;
    lemma_nearest_normal(n, b);
    lemma_nearest_close(n, b);
    let r = nearest(n, b);
    assert(r * b <= 2 * n);
    assert(r <= 0x10_0000_0000_0000_0000 * u) by (nonlinear_arith)
        requires
            r * b <= 2 * n,
            n == a * u,
            a <= 0x2_0000_0000_0000_0000 * u,
            u <= 2 * b,
            u > 0,
    ;
    r
}

/// The ratio of two integers that are represented exactly.
pub proof fn lemma_exact_ratio(w: nat, h: nat)
    requires
        w < MANTISSA_HIGH,
        0 < h < MANTISSA_HIGH,
    ensures
        ratio(w, h) == Magnitude::Finite(nearest(w * unit(), h)),
{
    let u = unit();
    lemma_unit_large();
    lemma_of_int_exact(w);
    lemma_of_int_exact(h);
    assert(h * u > 0) by (nonlinear_arith)
        requires
            h > 0,
            u > 0,
    ;
    lemma_nearest_common_factor(w * u, h, u);
}

/// Zero is its own nearest value.
pub proof fn lemma_nearest_zero(d: nat)
    requires
        d > 0,
    ensures
        nearest(0, d) == 0,
{
    assert(0 < d * MANTISSA_HIGH) by (nonlinear_arith)
        requires
            d > 0,
    ;
    assert(0nat / d == 0 && 0nat % d == 0) by (nonlinear_arith)
        requires
            d > 0,
    ;
}

/// A value below `i` and a half rounds to no more than `i`.
pub proof fn lemma_to_int_bound(x: nat, i: nat, limit: nat)
    requires
        2 * x < unit() * (2 * i + 1),
    ensures
        to_int(Magnitude::Finite(x), limit) <= i,
{
    let u = unit();
    lemma_unit_large();
    assert((2 * x + u) / (2 * u) <= i) by (nonlinear_arith)
        requires
            2 * x < u * (2 * i + 1),
            u > 0,
    ;
}

/// A frame that is wider than the desktop is no higher than it once the widths
/// agree.
pub proof fn lemma_wide_fits(dst_w: nat, dst_h: nat, r: nat, limit: nat)
    requires
        0 < dst_w <= u32::MAX,
        0 < dst_h <= u32::MAX,
        nearest(dst_w * unit(), dst_h) <= r,
        MANTISSA_LOW <= r <= 0x10_0000_0000_0000_0000 * unit(),
    ensures
        to_int(quotient(of_int(dst_w), Magnitude::Finite(r)), limit) <= dst_h,
{
    let u = unit();
    let k = MANTISSA_HIGH as int;
    let m = dst_w * u;
    let d = nearest(m, dst_h);
    let n = m * u;
    let v = nearest(n, r);
    let h = dst_h as int;
    lemma_unit_large();
    lemma_of_int_exact(dst_w);
    assert(m >= u) by (nonlinear_arith)
        requires
            m == dst_w * u,
            dst_w >= 1,
    ;
    lemma_nearest_close(m, dst_h);
    assert(k * (d * h) >= m * (k - 1)) by (nonlinear_arith)
        requires
            -m <= k * (d * h - m),
    ;
    assert(r * MANTISSA_LOW <= n) by (nonlinear_arith)
        requires
            n == m * u,
            m >= u,
            r <= 0x10_0000_0000_0000_0000 * u,
            u >= 0x1_0000_0000_0000_0000_0000_0000_0000_0000int,
            MANTISSA_LOW == 0x10_0000_0000_0000,
    ;
    lemma_nearest_close(n, r);
    assert(k * (v * r) <= n * (k + 1)) by (nonlinear_arith)
        requires
            k * (v * r - n) <= n,
    ;
    if 2 * v >= u * (2 * h + 1) {
        assert(2 * h * (k * (v * r)) <= 2 * h * (n * (k + 1))) by (nonlinear_arith)
            requires
                k * (v * r) <= n * (k + 1),
                h > 0,
        ;
        assert(2 * h * (k * (v * r)) >= (2 * h + 1) * u * (m * (k - 1))) by {
            assert(h * k * r >= m * (k - 1)) by (nonlinear_arith)
                requires
                    k * (d * h) >= m * (k - 1),
                    d <= r,
                    h > 0,
                    k > 0,
            ;
            assert(2 * v * (h * k * r) >= (u * (2 * h + 1)) * (m * (k - 1))) by (nonlinear_arith)
                requires
                    2 * v >= u * (2 * h + 1),
                    h * k * r >= m * (k - 1),
                    u * (2 * h + 1) >= 0,
                    m * (k - 1) >= 0,
            ;
            assert(2 * h * (k * (v * r)) == 2 * v * (h * k * r)) by (nonlinear_arith);
            assert((2 * h + 1) * u * (m * (k - 1)) == (u * (2 * h + 1)) * (m * (k - 1)))
                by (nonlinear_arith);
        }
        assert((2 * h + 1) * u * (m * (k - 1)) == n * ((2 * h + 1) * (k - 1))) by (nonlinear_arith)
            requires
                n == m * u,
        ;
        assert(2 * h * (n * (k + 1)) == n * (2 * h * (k + 1))) by (nonlinear_arith);
        assert((2 * h + 1) * (k - 1) <= 2 * h * (k + 1)) by (nonlinear_arith)
            requires
                n * ((2 * h + 1) * (k - 1)) <= n * (2 * h * (k + 1)),
                n > 0,
        ;
        assert((2 * h + 1) * (k - 1) == 2 * h * (k + 1) + (k - 1) - 4 * h) by (nonlinear_arith);
    }
    lemma_to_int_bound(v, dst_h, limit);
}

/// A frame that is no wider than the desktop in shape is no wider than it once
/// the heights agree.
pub proof fn lemma_tall_fits(dst_w: nat, dst_h: nat, r: nat, limit: nat)
    requires
        0 < dst_w <= u32::MAX,
        0 < dst_h <= u32::MAX,
        r <= nearest(dst_w * unit(), dst_h),
        MANTISSA_LOW <= r,
    ensures
        to_int(product(of_int(dst_h), Magnitude::Finite(r)), limit) <= dst_w,
{
    let u = unit();
    let k = MANTISSA_HIGH as int;
    let m = dst_w * u;
    let d = nearest(m, dst_h);
    let h = dst_h as int;
    let w = dst_w as int;
    let n = dst_h * r;
    lemma_unit_large();
    lemma_of_int_exact(dst_h);
    assert(m >= u) by (nonlinear_arith)
        requires
            m == dst_w * u,
            dst_w >= 1,
    ;
    lemma_nearest_close(m, dst_h);
    assert(k * (d * h) <= m * (k + 1)) by (nonlinear_arith)
        requires
            k * (d * h - m) <= m,
    ;
    assert(dst_h * u * r == n * u) by (nonlinear_arith)
        requires
            n == dst_h * r,
    ;
    lemma_nearest_common_factor(n, 1, u);
    let v = nearest(n, 1);
    assert(n >= MANTISSA_LOW) by (nonlinear_arith)
        requires
            n == dst_h * r,
            dst_h >= 1,
            r >= MANTISSA_LOW,
    ;
    lemma_nearest_close(n, 1);
    assert(k * n <= m * (k + 1)) by (nonlinear_arith)
        requires
            k * (d * h) <= m * (k + 1),
            n == h * r,
            r <= d,
            h > 0,
            k > 0,
    ;
    assert(k * k * v <= m * ((k + 1) * (k + 1))) by (nonlinear_arith)
        requires
            k * v <= n * (k + 1),
            k * n <= m * (k + 1),
            k > 0,
    ;
    if 2 * v >= u * (2 * w + 1) {
        assert(k * k * (u * (2 * w + 1)) <= 2 * (m * ((k + 1) * (k + 1)))) by (nonlinear_arith)
            requires
                k * k * v <= m * ((k + 1) * (k + 1)),
                2 * v >= u * (2 * w + 1),
                k > 0,
        ;
        assert(k * k * (u * (2 * w + 1)) == u * (k * k * (2 * w + 1))) by (nonlinear_arith);
        assert(2 * (m * ((k + 1) * (k + 1))) == u * (2 * w * ((k + 1) * (k + 1))))
            by (nonlinear_arith)
            requires
                m == w * u,
        ;
        assert(k * k * (2 * w + 1) <= 2 * w * ((k + 1) * (k + 1))) by (nonlinear_arith)
            requires
                u * (k * k * (2 * w + 1)) <= u * (2 * w * ((k + 1) * (k + 1))),
                u > 0,
        ;
        assert(k * k * (2 * w + 1) == 2 * w * ((k + 1) * (k + 1)) + k * k - 2 * w * (2 * k + 1))
            by (nonlinear_arith);
        assert(k * k > 2 * w * (2 * k + 1)) by (nonlinear_arith)
            requires
                0 < w <= u32::MAX,
                k == 0x20_0000_0000_0000,
        ;
    }
    lemma_to_int_bound(v, dst_w, limit);
}

/// Rounding a value to an integer moves it by no more than a half.
proof fn lemma_to_int_near(x: nat, limit: nat) -> (i: nat)
    requires
        to_int(Magnitude::Finite(x), limit) < limit,
    ensures
        i == to_int(Magnitude::Finite(x), limit),
        2 * unit() * i <= 2 * x + unit(),
        2 * x < unit() * (2 * i + 1),
{
    let u = unit();
    lemma_unit_large();
    let i = to_int(Magnitude::Finite(x), limit);
    assert(2 * u * i <= 2 * x + u && 2 * x + u < 2 * u * i + 2 * u) by (nonlinear_arith)
        requires
            i == (2 * x + u) / (2 * u),
            u > 0,
    ;
    assert(u * (2 * i + 1) == 2 * u * i + u) by (nonlinear_arith);
    i
}

/// The ratio of two small integers, with the bounds of its rounding.
proof fn lemma_ratio_close(w: nat, h: nat) -> (r: nat)
    requires
        0 < w <= u16::MAX,
        0 < h <= u16::MAX,
    ensures
        ratio(w, h) == Magnitude::Finite(r),
        MANTISSA_LOW <= r <= 0x10_0000_0000_0000_0000 * unit(),
        (MANTISSA_HIGH - 1) * (w * unit()) <= MANTISSA_HIGH * (r * h),
        MANTISSA_HIGH * (r * h) <= (MANTISSA_HIGH + 1) * (w * unit()),
{
    let u = unit();
    let k = MANTISSA_HIGH as int;
    let m = w * u;
    lemma_unit_large();
    lemma_exact_ratio(w, h);
    let r = lemma_ratio_range(w, h);
    assert(h * MANTISSA_LOW <= m) by (nonlinear_arith)
        requires
            m == w * u,
            w >= 1,
            h <= 0xffff,
            u >= 0x1_0000_0000_0000_0000_0000_0000_0000_0000int,
            MANTISSA_LOW == 0x10_0000_0000_0000,
    ;
    lemma_nearest_close(m, h);
    assert((k - 1) * m <= k * (r * h) && k * (r * h) <= (k + 1) * m) by (nonlinear_arith)
        requires
            -m <= k * (r * h - m) <= m,
    ;
    r
}

/// A value `v` that is `e / w` but for a small relative error, in multiples of
/// `1 / u`, rounds to an integer `n` that is within a half of `e / w`.
proof fn lemma_rounded(u: int, p: int, q: int, e: int, x: int, n: int, v: int, w: int)
    requires
        u > 0,
        0 < p <= q,
        e >= 0,
        w > 0,
        x == v * w,
        p * x <= q * (u * e),
        p * (u * e) <= q * x,
        2 * ((q - p) * e) < p,
        2 * u * n <= 2 * v + u,
        2 * v < u * (2 * n + 1),
    ensures
        -w <= 2 * (n * w - e) <= w,
{
    let nw = n * w;
    assert(u * (2 * nw) <= 2 * x + u * w) by (nonlinear_arith)
        requires
            2 * u * n <= 2 * v + u,
            x == v * w,
            nw == n * w,
            w > 0,
    ;
    assert(2 * x < u * (2 * nw + w)) by (nonlinear_arith)
        requires
            2 * v < u * (2 * n + 1),
            x == v * w,
            nw == n * w,
            w > 0,
    ;
    if 2 * (nw - e) > w {
        assert(u * (2 * e + 1) <= 2 * x) by (nonlinear_arith)
            requires
                u * (2 * nw) <= 2 * x + u * w,
                2 * nw >= 2 * e + w + 1,
                u > 0,
        ;
        assert(u * (p * (2 * e + 1)) <= u * (2 * (q * e))) by (nonlinear_arith)
            requires
                u * (2 * e + 1) <= 2 * x,
                p * x <= q * (u * e),
                p > 0,
        ;
        assert(p * (2 * e + 1) <= 2 * (q * e)) by (nonlinear_arith)
            requires
                u * (p * (2 * e + 1)) <= u * (2 * (q * e)),
                u > 0,
        ;
        assert(p * (2 * e + 1) == 2 * (p * e) + p) by (nonlinear_arith);
        assert((q - p) * e == q * e - p * e) by (nonlinear_arith);
    }
    if 2 * (nw - e) < -w {
        assert(2 * x < u * (2 * e - 1)) by (nonlinear_arith)
            requires
                2 * x < u * (2 * nw + w),
                2 * nw + w <= 2 * e - 1,
                u > 0,
        ;
        assert(u * (2 * (p * e)) < u * (q * (2 * e - 1))) by (nonlinear_arith)
            requires
                2 * x < u * (2 * e - 1),
                p * (u * e) <= q * x,
                q > 0,
        ;
        assert(2 * (p * e) < q * (2 * e - 1)) by (nonlinear_arith)
            requires
                u * (2 * (p * e)) < u * (q * (2 * e - 1)),
                u > 0,
        ;
        assert(q * (2 * e - 1) == 2 * (q * e) - q) by (nonlinear_arith);
        assert((q - p) * e == q * e - p * e) by (nonlinear_arith);
    }
}

/// The length that an integer divided by a ratio rounds to is the exact one,
/// rounded.
pub proof fn lemma_divided_by_ratio(a: nat, w: nat, h: nat, limit: nat)
    requires
        0 < a <= u16::MAX,
        0 < w <= u16::MAX,
        0 < h <= u16::MAX,
        to_int(quotient(of_int(a), ratio(w, h)), limit) < limit,
    ensures
        ({
            let n = to_int(quotient(of_int(a), ratio(w, h)), limit);
            -w <= 2 * (n * w - a * h) <= w
        }),
{
    let u = unit() as int;
    let k = MANTISSA_HIGH as int;
    lemma_unit_large();
    lemma_of_int_exact(a);
    let r = lemma_ratio_close(w, h);
    let t = a * unit() * unit();
    let v = nearest(t, r);
    assert(r * MANTISSA_LOW <= t) by (nonlinear_arith)
        requires
            t == a * u * u,
            a >= 1,
            r <= 0x10_0000_0000_0000_0000 * u,
            u >= 0x1_0000_0000_0000_0000_0000_0000_0000_0000int,
            MANTISSA_LOW == 0x10_0000_0000_0000,
    ;
    lemma_nearest_close(t, r);
    let n = lemma_to_int_near(v, limit);
    let e = a * h;
    let x = v * w;
    let vr = v * r;
    assert((k - 1) * t <= k * vr && k * vr <= (k + 1) * t) by (nonlinear_arith)
        requires
            -t <= k * (vr - t) <= t,
    ;
    // Both roundings together, up to a factor of `unit`.
    assert((k - 1) * x <= (k + 1) * (u * e)) by (nonlinear_arith)
        requires
            (k - 1) * (w * u) <= k * (r * h),
            k * vr <= (k + 1) * t,
            vr == v * r,
            t == a * u * u,
            x == v * w,
            e == a * h,
            u > 0,
            v >= 0,
            h > 0,
    {
        assert(((k - 1) * (w * u)) * v <= (k * (r * h)) * v);
        assert((k * (r * h)) * v == (k * vr) * h);
        assert((k * vr) * h <= ((k + 1) * t) * h);
        assert(((k + 1) * t) * h == ((k + 1) * (u * e)) * u);
        assert(((k - 1) * (w * u)) * v == ((k - 1) * x) * u);
    }
    assert((k - 1) * (u * e) <= (k + 1) * x) by (nonlinear_arith)
        requires
            k * (r * h) <= (k + 1) * (w * u),
            (k - 1) * t <= k * vr,
            vr == v * r,
            t == a * u * u,
            x == v * w,
            e == a * h,
            u > 0,
            v >= 0,
            h > 0,
    {
        assert((k * (r * h)) * v <= ((k + 1) * (w * u)) * v);
        assert((k * (r * h)) * v == (k * vr) * h);
        assert(((k - 1) * t) * h <= (k * vr) * h);
        assert(((k - 1) * t) * h == ((k - 1) * (u * e)) * u);
        assert(((k + 1) * (w * u)) * v == ((k + 1) * x) * u);
    }
    assert(e <= 0xffff * 0xffff) by (nonlinear_arith)
        requires
            e == a * h,
            a <= 0xffff,
            h <= 0xffff,
    ;
    lemma_rounded(u, k - 1, k + 1, e as int, x as int, n as int, v as int, w as int);
}

/// The length that an integer times a ratio rounds to is the exact one, rounded.
pub proof fn lemma_times_ratio(a: nat, w: nat, h: nat, limit: nat)
    requires
        0 < a <= u16::MAX,
        0 < w <= u16::MAX,
        0 < h <= u16::MAX,
        to_int(product(of_int(a), ratio(w, h)), limit) < limit,
    ensures
        ({
            let n = to_int(product(of_int(a), ratio(w, h)), limit);
            -h <= 2 * (n * h - a * w) <= h
        }),
{
    let u = unit() as int;
    let k = MANTISSA_HIGH as int;
    lemma_unit_large();
    lemma_of_int_exact(a);
    let r = lemma_ratio_close(w, h);
    let t = a * r;
    assert(a * u * r == t * u) by (nonlinear_arith)
        requires
            t == a * r,
    ;
    lemma_nearest_common_factor(t, 1, unit());
    let v = nearest(t, 1);
    assert(t >= MANTISSA_LOW) by (nonlinear_arith)
        requires
            t == a * r,
            a >= 1,
            r >= MANTISSA_LOW,
    ;
    lemma_nearest_close(t, 1);
    let n = lemma_to_int_near(v, limit);
    let e = a * w;
    let x = v * h;
    assert((k - 1) * t <= k * v && k * v <= (k + 1) * t) by (nonlinear_arith)
        requires
            -t <= k * (v - t) <= t,
    ;
    let low = (k - 1) * (k - 1);
    let high = (k + 1) * (k + 1);
    assert(k * k * x <= high * (u * e)) by (nonlinear_arith)
        requires
            k * v <= (k + 1) * t,
            k * (r * h) <= (k + 1) * (w * u),
            t == a * r,
            x == v * h,
            e == a * w,
            high == (k + 1) * (k + 1),
            a > 0,
            h > 0,
            k > 1,
    {
        assert((k * v) * (k * h) <= ((k + 1) * t) * (k * h));
        assert(((k + 1) * t) * (k * h) == ((k + 1) * a) * (k * (r * h)));
        assert(((k + 1) * a) * (k * (r * h)) <= ((k + 1) * a) * ((k + 1) * (w * u)));
        assert((k * v) * (k * h) == k * k * x);
        assert(((k + 1) * a) * ((k + 1) * (w * u)) == high * (u * e));
    }
    assert(low * (u * e) <= k * k * x) by (nonlinear_arith)
        requires
            (k - 1) * t <= k * v,
            (k - 1) * (w * u) <= k * (r * h),
            t == a * r,
            x == v * h,
            e == a * w,
            low == (k - 1) * (k - 1),
            a > 0,
            h > 0,
            k > 1,
    {
        assert(((k - 1) * t) * (k * h) <= (k * v) * (k * h));
        assert(((k - 1) * t) * (k * h) == ((k - 1) * a) * (k * (r * h)));
        assert(((k - 1) * a) * ((k - 1) * (w * u)) <= ((k - 1) * a) * (k * (r * h)));
        assert((k * v) * (k * h) == k * k * x);
        assert(((k - 1) * a) * ((k - 1) * (w * u)) == low * (u * e));
    }
    assert(e <= 0xffff * 0xffff) by (nonlinear_arith)
        requires
            e == a * w,
            a <= 0xffff,
            w <= 0xffff,
    ;
    assert(low <= k * k && k * k <= high) by (nonlinear_arith)
        requires
            low == (k - 1) * (k - 1),
            high == (k + 1) * (k + 1),
            k > 1,
    ;
    assert(low * x <= high * (u * e) && low * (u * e) <= high * x) by (nonlinear_arith)
        requires
            low <= k * k,
            k * k <= high,
            k * k * x <= high * (u * e),
            low * (u * e) <= k * k * x,
            x >= 0,
    ;
    assert(2 * ((high - low) * e) < low) by (nonlinear_arith)
        requires
            low == (k - 1) * (k - 1),
            high == (k + 1) * (k + 1),
            0 <= e <= 0xffff * 0xffff,
            k == 0x20_0000_0000_0000,
    {
        assert(high - low == 4 * k);
    }
    lemma_rounded(u, low, high, e as int, x as int, n as int, v as int, h as int);
}

/// Nothing of a frame is cut off: the place it is given lies on the desktop,
/// touches two opposite edges of it, and is centred between the other two.
pub proof fn law_letterbox_inside(src_w: nat, src_h: nat, dst_w: nat, dst_h: nat)
    requires
        src_w <= u64::MAX,
        src_h <= u64::MAX,
        dst_w <= u32::MAX,
        dst_h <= u32::MAX,
    ensures
        ({
            let p = placement(src_w, src_h, dst_w, dst_h);
            &&& p.width == dst_w || p.height == dst_h
            &&& p.x + p.width <= dst_w
            &&& p.y + p.height <= dst_h
            &&& p.x <= dst_w - p.width - p.x <= p.x + 1
            &&& p.y <= dst_h - p.height - p.y <= p.y + 1
        }),
{
    let u = unit();
    let s = ratio(src_w, src_h);
    let d = ratio(dst_w, dst_h);
    lemma_unit_large();
    lemma_of_int_exact(dst_w);
    lemma_of_int_exact(dst_h);
    lemma_of_int_exact(0);
    assert(0 * u == 0);
    assert((2 * 0 + u) / (2 * u) == 0) by (nonlinear_arith)
        requires
            u > 0,
    ;
    if src_w > 0 {
        let _ = lemma_of_int_range(src_w);
    }
    if src_h > 0 {
        let _ = lemma_of_int_range(src_h);
    }
    if dst_w > 0 {
        let _ = lemma_of_int_range(dst_w);
    }
    if dst_h > 0 {
        let _ = lemma_of_int_range(dst_h);
        lemma_exact_ratio(dst_w, dst_h);
    }
    if below(distance(s, d), ratio_tolerance()) {
    } else if below(d, s) {
        if s is Finite {
            let r = s->Finite_0;
            if dst_w == 0 {
                lemma_nearest_zero(r);
            } else {
                if src_w == 0 {
                    lemma_nearest_zero(of_int(src_h)->Finite_0);
                }
                let _ = lemma_ratio_range(src_w, src_h);
                lemma_wide_fits(dst_w, dst_h, r, usize::MAX as nat);
            }
        }
    } else {
        if s is Finite {
            let r = s->Finite_0;
            if dst_h == 0 {
                assert(0 * r == 0) by (nonlinear_arith);
                lemma_nearest_zero(u);
            } else {
                if src_w == 0 {
                    lemma_nearest_zero(of_int(src_h)->Finite_0);
                    assert(dst_h * u * 0 == 0);
                    lemma_nearest_zero(u);
                } else {
                    let _ = lemma_ratio_range(src_w, src_h);
                    if dst_w == 0 {
                        lemma_nearest_zero(dst_h);
                    } else {
                        lemma_tall_fits(dst_w, dst_h, r, usize::MAX as nat);
                    }
                }
            }
        }
    }
}

/// A frame keeps its shape: the side that does not reach across the desktop is
/// even, and at most one and a half pixels shorter or half a pixel longer than
/// the exact one. Where the ratios hardly differ the frame fills the desktop.
pub proof fn law_letterbox_keeps_shape(src_w: nat, src_h: nat, dst_w: nat, dst_h: nat)
    requires
        0 < src_w <= u16::MAX,
        0 < src_h <= u16::MAX,
        0 < dst_w <= u16::MAX,
        0 < dst_h <= u16::MAX,
    ensures
        ({
            let p = placement(src_w, src_h, dst_w, dst_h);
            let s = ratio(src_w, src_h);
            let d = ratio(dst_w, dst_h);
            if below(distance(s, d), ratio_tolerance()) {
                p.width == dst_w && p.height == dst_h
            } else if below(d, s) {
                &&& p.width == dst_w
                &&& p.height % 2 == 0
                &&& -3 * src_w <= 2 * (p.height * src_w - dst_w * src_h) <= src_w
            } else {
                &&& p.height == dst_h
                &&& p.width % 2 == 0
                &&& -3 * src_h <= 2 * (p.width * src_h - dst_h * src_w) <= src_h
            }
        }),
{
    let s = ratio(src_w, src_h);
    let d = ratio(dst_w, dst_h);
    let limit = usize::MAX as nat;
    let r = lemma_ratio_range(src_w, src_h);
    lemma_exact_ratio(dst_w, dst_h);
    if below(distance(s, d), ratio_tolerance()) {
    } else if below(d, s) {
        lemma_wide_fits(dst_w, dst_h, r, limit);
        lemma_divided_by_ratio(dst_w, src_w, src_h, limit);
        let n = to_int(quotient(of_int(dst_w), s), limit);
        lemma_even_below(n, src_w);
    } else {
        lemma_tall_fits(dst_w, dst_h, r, limit);
        lemma_times_ratio(dst_h, src_w, src_h, limit);
        let n = to_int(product(of_int(dst_h), s), limit);
        lemma_even_below(n, src_h);
    }
}

/// The even number below one is no more than one less.
proof fn lemma_even_below(n: nat, m: nat)
    ensures
        even_below(n) % 2 == 0,
        n * m - m <= even_below(n) * m <= n * m,
{
    let e = even_below(n);
    assert(n * m - m <= e * m <= n * m) by (nonlinear_arith)
        requires
            n - 1 <= e <= n,
    ;
}

/// A frame of the desktop's own aspect ratio fills the desktop.
pub proof fn law_same_ratio_fills(src_w: nat, src_h: nat, dst_w: nat, dst_h: nat)
    requires
        0 < src_w < MANTISSA_HIGH,
        0 < src_h < MANTISSA_HIGH,
        0 < dst_w < MANTISSA_HIGH,
        0 < dst_h < MANTISSA_HIGH,
        src_w * dst_h == dst_w * src_h,
    ensures
        placement(src_w, src_h, dst_w, dst_h) == (Placement {
            x: 0,
            y: 0,
            width: dst_w,
            height: dst_h,
        }),
{
    let u = unit();
    lemma_unit_large();
    lemma_exact_ratio(src_w, src_h);
    lemma_exact_ratio(dst_w, dst_h);
    lemma_nearest_common_factor(src_w * u, src_h, dst_h);
    lemma_nearest_common_factor(dst_w * u, dst_h, src_h);
    assert(src_w * u * dst_h == dst_w * u * src_h) by (nonlinear_arith)
        requires
            src_w * dst_h == dst_w * src_h,
    ;
    assert(src_h * dst_h == dst_h * src_h) by (nonlinear_arith);
    lemma_nearest_zero(1);
    lemma_exact_ratio(1, 1000);
    assert(1 * u == u);
    lemma_nearest_normal(u, 1000);
}

/// On a desktop with a picture on it, the place of the picture shows the
/// nearest pixels of it and everything else is opaque black.
pub proof fn law_letterbox_pixels(src: Picture, dst_w: nat, dst_h: nat, x: int, y: int)
    requires
        0 <= x < dst_w,
        0 <= y < dst_h,
    ensures
        ({
            let p = placement(src.width, src.height, dst_w, dst_h);
            let dst = letterboxed(src, dst_w, dst_h);
            let inside = p.x <= x < p.x + p.width && p.y <= y < p.y + p.height;
            let sx = sampled(x - p.x, src.width, p.width);
            let sy = sampled(y - p.y, src.height, p.height);
            pixel(dst.data, dst.stride as int, x, y) == (if inside {
                seq![src.byte(sx, sy, 0), src.byte(sx, sy, 1), src.byte(sx, sy, 2), src.byte(
                    sx,
                    sy,
                    3,
                )]
            } else {
                seq![0u8, 0u8, 0u8, 255u8]
            })
        }),
{
    let p = placement(src.width, src.height, dst_w, dst_h);
    let dst = letterboxed(src, dst_w, dst_h);
    let w = dst_w as int;
    let base = (y * w + x) * 4;
    assert(y * (dst_w * 4) + x * 4 == base) by (nonlinear_arith)
        requires
            w == dst_w,
            base == (y * w + x) * 4,
    ;
    assert(0 <= y * w && y * w + x + 1 <= dst_w * dst_h) by (nonlinear_arith)
        requires
            0 <= y,
            y + 1 <= dst_h,
            x + 1 <= w,
            w == dst_w,
    ;
    lemma_fundamental_div_mod_converse(y * w + x, w, y, x);
    assert forall|c: int| 0 <= c < 4 implies #[trigger] dst.data[base + c] == letterbox_byte(
        src,
        p,
        x,
        y,
        c,
    ) by {
        assert((base + c) / 4 == y * w + x);
        assert((base + c) % 4 == c);
    }
    assert(dst.data[base + 0] == dst.data[base]);
    let got = pixel(dst.data, dst.stride as int, x, y);
    assert(got.len() == 4);
    assert(got[0] == dst.data[base + 0] && got[1] == dst.data[base + 1] && got[2] == dst.data[base
        + 2] && got[3] == dst.data[base + 3]);
}

/// The position that is sampled for the `i`-th of `len` places is the one whose
/// share of the source is that of `i`, and it lies inside the source. Over as
/// many places as there are pixels each pixel is taken once.
pub proof fn law_sample_share(i: int, n: nat, len: nat)
    requires
        0 <= i < len,
    ensures
        ({
            let s = sampled(i, n, len);
            &&& s * len <= i * n < (s + 1) * len
            &&& 0 <= s
            &&& n > 0 ==> s < n
            &&& n == len ==> s == i
        }),
{
    let t = i * n;
    let s = t / len as int;
    assert(0 <= t) by (nonlinear_arith)
        requires
            t == i * n,
            0 <= i,
            0 <= n,
    ;
    assert(s * len <= t < (s + 1) * len && 0 <= s) by (nonlinear_arith)
        requires
            s == t / len as int,
            0 <= t,
            len > 0,
    ;
    assert(n > 0 ==> s < n) by (nonlinear_arith)
        requires
            s * len <= t,
            t == i * n,
            0 <= i < len,
            0 <= s,
    ;
    if n == len {
        lemma_fundamental_div_mod_converse(t, len as int, i, 0);
    }
}

/// Each pixel inside the place of a picture is the pixel of the picture that has
/// the same share of its width and of its height: the whole picture is shown, and
/// no part of it in the place of another.
pub proof fn law_letterbox_shows_share(
    src: Picture,
    dst_w: nat,
    dst_h: nat,
    x: int,
    y: int,
    sx: int,
    sy: int,
)
    requires
        0 <= x < dst_w,
        0 <= y < dst_h,
        ({
            let p = placement(src.width, src.height, dst_w, dst_h);
            &&& p.x <= x < p.x + p.width
            &&& p.y <= y < p.y + p.height
            &&& sx * p.width <= (x - p.x) * src.width < (sx + 1) * p.width
            &&& sy * p.height <= (y - p.y) * src.height < (sy + 1) * p.height
        }),
    ensures
        ({
            let dst = letterboxed(src, dst_w, dst_h);
            forall|c: int|
                0 <= c < 4 ==> #[trigger] pixel(dst.data, dst.stride as int, x, y)[c] == src.data[sy
                    * src.stride + sx * 4 + c]
        }),
        letterboxed(src, dst_w, dst_h).width == dst_w,
        letterboxed(src, dst_w, dst_h).height == dst_h,
        letterboxed(src, dst_w, dst_h).stride == dst_w * 4,
        letterboxed(src, dst_w, dst_h).data.len() == dst_w * dst_h * 4,
{
    let p = placement(src.width, src.height, dst_w, dst_h);
    lemma_share_is_unique((x - p.x) * src.width, p.width as int, sx);
    lemma_share_is_unique((y - p.y) * src.height, p.height as int, sy);
    law_letterbox_pixels(src, dst_w, dst_h, x, y);
    let dst = letterboxed(src, dst_w, dst_h);
    let got = pixel(dst.data, dst.stride as int, x, y);
    assert forall|c: int| 0 <= c < 4 implies #[trigger] got[c] == src.data[sy * src.stride + sx * 4
        + c] by {
        assert(c == 0 || c == 1 || c == 2 || c == 3);
        assert(got[c] == src.byte(sx, sy, c));
    }
}

/// A quotient is known by its share.
proof fn lemma_share_is_unique(t: int, len: int, s: int)
    requires
        len > 0,
        s * len <= t < (s + 1) * len,
    ensures
        t / len == s,
{
    assert((s + 1) * len == s * len + len) by (nonlinear_arith);
    assert(s * len == len * s) by (nonlinear_arith);
    lemma_fundamental_div_mod_converse(t, len, s, t - s * len);
}

/// A factor keeps an order.
proof fn lemma_times(a: int, b: int, c: int)
    requires
        a <= b,
        c >= 0,
    ensures
        a * c <= b * c,
{
    assert(a * c <= b * c) by (nonlinear_arith)
        requires
            a <= b,
            c >= 0,
    ;
}

/// How far two ratios are apart, against one part in `k`: the exact distance
/// decides, but for the rounding of the quotients.
pub proof fn lemma_ratio_distance(a: nat, b: nat, c: nat, d: nat, k: nat)
    requires
        0 < a <= u16::MAX,
        0 < b <= u16::MAX,
        0 < c <= u16::MAX,
        0 < d <= u16::MAX,
        1 < k <= 2000,
    ensures
        (k + 1) * (a * d - c * b) <= b * d && (k + 1) * (c * b - a * d) <= b * d ==> below(
            distance(ratio(a, b), ratio(c, d)),
            ratio(1, k),
        ),
        (k - 1) * (a * d - c * b) >= b * d || (k - 1) * (c * b - a * d) >= b * d ==> !below(
            distance(ratio(a, b), ratio(c, d)),
            ratio(1, k),
        ),
{
    let big = MANTISSA_HIGH as int;
    let u = unit() as int;
    lemma_unit_large();
    let r = lemma_ratio_close(a, b) as int;
    let s = lemma_ratio_close(c, d) as int;
    let q = lemma_ratio_close(1, k) as int;
    let n = if r >= s {
        r - s
    } else {
        s - r
    };
    let v = nearest(n as nat, 1) as int;
    assert((big - 1) * n <= big * v <= (big + 1) * n) by {
        if n >= MANTISSA_LOW {
            lemma_nearest_close(n as nat, 1);
        }
    }
    let x = b * d;
    let ad = a * d;
    let cb = c * b;
    let diff = if ad >= cb {
        ad - cb
    } else {
        cb - ad
    };
    // The two ratios and their distance, times the denominators.
    let left = r * x;
    let right = s * x;
    let nx = n * x;
    let up = ad * u;
    let down = cb * u;
    assert((big - 1) * up <= big * left <= (big + 1) * up) by (nonlinear_arith)
        requires
            (big - 1) * (a * u) <= big * (r * b) <= (big + 1) * (a * u),
            left == r * x,
            x == b * d,
            up == ad * u,
            ad == a * d,
            d > 0,
    ;
    assert((big - 1) * down <= big * right <= (big + 1) * down) by (nonlinear_arith)
        requires
            (big - 1) * (c * u) <= big * (s * d) <= (big + 1) * (c * u),
            right == s * x,
            x == b * d,
            down == cb * u,
            cb == c * b,
            b > 0,
    ;
    assert(nx == (if r >= s {
        left - right
    } else {
        right - left
    })) by (nonlinear_arith)
        requires
            nx == n * x,
            left == r * x,
            right == s * x,
            n == (if r >= s {
                r - s
            } else {
                s - r
            }),
    ;
    assert(nx >= 0) by (nonlinear_arith)
        requires
            nx == n * x,
            n >= 0,
            x >= 0,
    ;
    let gap = diff * u;
    assert(gap == (if ad >= cb {
        up - down
    } else {
        down - up
    }) && gap >= 0) by (nonlinear_arith)
        requires
            gap == diff * u,
            up == ad * u,
            down == cb * u,
            u > 0,
            diff == (if ad >= cb {
                ad - cb
            } else {
                cb - ad
            }),
    ;
    assert(big * gap - (up + down) <= big * nx <= big * gap + (up + down));
    // Times `k`.
    let vx = v * x;
    assert((big - 1) * nx <= big * vx <= (big + 1) * nx) by (nonlinear_arith)
        requires
            (big - 1) * n <= big * v <= (big + 1) * n,
            vx == v * x,
            nx == n * x,
            x >= 0,
    ;
    let vxk = vx * k;
    let nxk = nx * k;
    let gapk = gap * k;
    let sumk = (up + down) * k;
    let one = u * x;
    let qx = q * k * x;
    assert((big - 1) * nxk <= big * vxk <= (big + 1) * nxk) by (nonlinear_arith)
        requires
            (big - 1) * nx <= big * vx <= (big + 1) * nx,
            vxk == vx * k,
            nxk == nx * k,
            k > 0,
    ;
    assert(big * gapk - sumk <= big * nxk <= big * gapk + sumk) by (nonlinear_arith)
        requires
            big * gap - (up + down) <= big * nx <= big * gap + (up + down),
            nxk == nx * k,
            gapk == gap * k,
            sumk == (up + down) * k,
            k > 0,
    ;
    assert((big - 1) * one <= big * qx <= (big + 1) * one) by (nonlinear_arith)
        requires
            (big - 1) * (1 * u) <= big * (q * k) <= (big + 1) * (1 * u),
            one == u * x,
            qx == q * k * x,
            x >= 0,
    ;
    assert(one > 0) by (nonlinear_arith)
        requires
            one == u * x,
            x == b * d,
            u > 0,
            b > 0,
            d > 0,
    ;
    assert(ad <= 0xffff * x && cb <= 0xffff * x) by (nonlinear_arith)
        requires
            ad == a * d,
            cb == c * b,
            x == b * d,
            0 < a <= 0xffff,
            0 < c <= 0xffff,
            b > 0,
            d > 0,
    ;
    assert(up <= 0xffff * one && down <= 0xffff * one && 0 <= up && 0 <= down) by (nonlinear_arith)
        requires
            up == ad * u,
            down == cb * u,
            one == u * x,
            0 <= ad <= 0xffff * x,
            0 <= cb <= 0xffff * x,
            u > 0,
    ;
    assert(sumk <= 262_140_000 * one) by (nonlinear_arith)
        requires
            sumk == (up + down) * k,
            0 <= up <= 0xffff * one,
            0 <= down <= 0xffff * one,
            0 < k <= 2000,
    ;
    let dk = diff * k;
    assert(dk <= 2000 * diff) by (nonlinear_arith)
        requires
            dk == diff * k,
            0 <= diff,
            0 < k <= 2000,
    ;
    assert(gapk == dk * u) by (nonlinear_arith)
        requires
            gapk == gap * k,
            gap == diff * u,
            dk == diff * k,
    ;
    assert(2001 * dk * u == 2001 * gapk && 1999 * dk * u == 1999 * gapk) by (nonlinear_arith)
        requires
            gapk == dk * u,
    ;
    assert(2000 * x * u == 2000 * one) by (nonlinear_arith)
        requires
            one == u * x,
    ;
    if (k + 1) * (a * d - c * b) <= b * d && (k + 1) * (c * b - a * d) <= b * d {
        assert((k + 1) * diff == dk + diff) by (nonlinear_arith)
            requires
                dk == diff * k,
        ;
        lemma_times(2001 * dk, 2000 * x as int, u);
        assert(vxk < qx);
        assert(v < q) by (nonlinear_arith)
            requires
                vxk < qx,
                vxk == vx * k,
                vx == v * x,
                qx == q * k * x,
                x >= 0,
                k > 0,
        ;
    }
    if (k - 1) * (a * d - c * b) >= b * d || (k - 1) * (c * b - a * d) >= b * d {
        assert((k - 1) * diff >= x) by (nonlinear_arith)
            requires
                (k - 1) * (ad - cb) >= x || (k - 1) * (cb - ad) >= x,
                diff >= ad - cb,
                diff >= cb - ad,
                k > 1,
        ;
        assert((k - 1) * diff == dk - diff) by (nonlinear_arith)
            requires
                dk == diff * k,
        ;
        lemma_times(2000 * x as int, 1999 * dk, u);
        assert(vxk >= qx);
        assert(v >= q) by (nonlinear_arith)
            requires
                vxk >= qx,
                vxk == vx * k,
                vx == v * x,
                qx == q * k * x,
                x > 0,
                k > 0,
        ;
    }
}

/// Ratios of small integers are ordered as the exact ones are.
pub proof fn lemma_ratio_order(a: nat, b: nat, c: nat, d: nat)
    requires
        0 < a <= u16::MAX,
        0 < b <= u16::MAX,
        0 < c <= u16::MAX,
        0 < d <= u16::MAX,
        c * b < a * d,
    ensures
        below(ratio(c, d), ratio(a, b)),
        !below(ratio(a, b), ratio(c, d)),
{
    let big = MANTISSA_HIGH as int;
    let u = unit() as int;
    lemma_unit_large();
    let r = lemma_ratio_close(a, b) as int;
    let s = lemma_ratio_close(c, d) as int;
    let x = b * d;
    let ad = a * d;
    let cb = c * b;
    let left = r * x;
    let right = s * x;
    let up = ad * u;
    let down = cb * u;
    assert((big - 1) * up <= big * left) by (nonlinear_arith)
        requires
            (big - 1) * (a * u) <= big * (r * b),
            left == r * x,
            x == b * d,
            up == ad * u,
            ad == a * d,
            d > 0,
    ;
    assert(big * right <= (big + 1) * down) by (nonlinear_arith)
        requires
            big * (s * d) <= (big + 1) * (c * u),
            right == s * x,
            x == b * d,
            down == cb * u,
            cb == c * b,
            b > 0,
    ;
    assert(ad <= 0xffff * 0xffff && cb <= 0xffff * 0xffff) by (nonlinear_arith)
        requires
            ad == a * d,
            cb == c * b,
            a <= 0xffff,
            b <= 0xffff,
            c <= 0xffff,
            d <= 0xffff,
    ;
    assert(up - down >= u && up <= 0xffff * 0xffff * u && down <= 0xffff * 0xffff * u)
        by (nonlinear_arith)
        requires
            up == ad * u,
            down == cb * u,
            cb + 1 <= ad <= 0xffff * 0xffff,
            cb <= 0xffff * 0xffff,
            u > 0,
    ;
    assert(right < left);
    assert(s < r) by (nonlinear_arith)
        requires
            right < left,
            right == s * x,
            left == r * x,
            x >= 0,
    ;
}

/// The shape of a frame decides where it lies, by exact ratios: where they are
/// no more than one part in 1001 apart the frame fills the desktop; where they are
/// at least one part in 999 apart, a wider frame takes the whole width, any other
/// the whole height, and the other side is even and the exact one, at most one and
/// a half pixels shorter or half a pixel longer.
pub proof fn law_letterbox_follows_shape(src_w: nat, src_h: nat, dst_w: nat, dst_h: nat)
    requires
        0 < src_w <= u16::MAX,
        0 < src_h <= u16::MAX,
        0 < dst_w <= u16::MAX,
        0 < dst_h <= u16::MAX,
    ensures
        ({
            let p = placement(src_w, src_h, dst_w, dst_h);
            let wider = src_w * dst_h - dst_w * src_h;
            let scale = src_h * dst_h;
            &&& -scale <= 1001 * wider <= scale ==> p.x == 0 && p.y == 0 && p.width == dst_w
                && p.height == dst_h
            &&& 999 * wider >= scale ==> {
                &&& p.x == 0 && p.width == dst_w
                &&& p.height % 2 == 0
                &&& -3 * src_w <= 2 * (p.height * src_w - dst_w * src_h) <= src_w
            }
            &&& 999 * wider <= -scale ==> {
                &&& p.y == 0 && p.height == dst_h
                &&& p.width % 2 == 0
                &&& -3 * src_h <= 2 * (p.width * src_h - dst_h * src_w) <= src_h
            }
        }),
{
    lemma_ratio_distance(src_w, src_h, dst_w, dst_h, 1000);
    law_letterbox_keeps_shape(src_w, src_h, dst_w, dst_h);
    let scale = src_h * dst_h;
    assert(scale > 0) by (nonlinear_arith)
        requires
            scale == src_h * dst_h,
            src_h > 0,
            dst_h > 0,
    ;
    if dst_w * src_h < src_w * dst_h {
        lemma_ratio_order(src_w, src_h, dst_w, dst_h);
    } else if src_w * dst_h < dst_w * src_h {
        lemma_ratio_order(dst_w, dst_h, src_w, src_h);
    }
}

/// The ratio of two sides that can be sent is not large.
pub proof fn lemma_ratio_small(w: nat, h: nat) -> (r: nat)
    requires
        0 < w <= u16::MAX,
        0 < h <= u16::MAX,
    ensures
        ratio(w, h) == Magnitude::Finite(r),
        r <= 0x20000 * unit(),
{
    let u = unit();
    let k = MANTISSA_HIGH as int;
    let r = lemma_ratio_close(w, h);
    assert(r <= r * h) by (nonlinear_arith)
        requires
            h >= 1,
    ;
    assert(w * u <= 0xffff * u) by (nonlinear_arith)
        requires
            w <= 0xffff,
    ;
    r
}

} // verus!
