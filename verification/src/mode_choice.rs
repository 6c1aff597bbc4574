//! Choosing the display mode that suits a client best.
use crate::binary64::{
    below, distance, lemma_nearest_close, lemma_nearest_common_factor, lemma_nearest_power,
    lemma_of_int_exact, nearest, of_int, product, quotient, total, unit, Binary64, Magnitude,
    MANTISSA_HIGH, MANTISSA_LOW,
};
use crate::letterbox::{
    lemma_exact_ratio, lemma_nearest_zero, lemma_ratio_distance, lemma_ratio_small,
    lemma_unit_large, ratio,
};
use vstd::arithmetic::power2::{lemma2_to64, lemma_pow2_adds, pow2};
use vstd::prelude::*;

verus! {

/// The size of a display mode, as the system reports it.
#[derive(Debug, Clone, Copy, PartialEq, Eq, Structural)]
pub struct DisplayMode {
    pub width: u64,
    pub height: u64,
}

/// The number of pixels, in double precision.
pub open spec fn pixel_count(width: nat, height: nat) -> Magnitude {
    product(of_int(width), of_int(height))
}

/// The share `n / d`, in double precision.
pub open spec fn fraction(n: nat, d: nat) -> Magnitude {
    quotient(of_int(n), of_int(d))
}

/// How far the aspect ratio of a mode is from the wanted one.
#[verifier::opaque]
pub open spec fn ratio_diff(mode: DisplayMode, width: u32, height: u32) -> Magnitude {
    distance(
        ratio(mode.width as u32 as nat, mode.height as u32 as nat),
        ratio(width as nat, height as nat),
    )
}

/// How far the number of pixels of a mode is from the wanted one.
#[verifier::opaque]
pub open spec fn pixel_diff(mode: DisplayMode, width: u32, height: u32) -> Magnitude {
    distance(
        pixel_count(mode.width as u32 as nat, mode.height as u32 as nat),
        pixel_count(width as nat, height as nat),
    )
}

/// A mode that has pixels, and at least a quarter of the wanted ones.
pub open spec fn large_enough(mode: DisplayMode, width: u32, height: u32) -> bool {
    &&& mode.width as u32 != 0
    &&& mode.height as u32 != 0
    &&& !below(
        pixel_count(mode.width as u32 as nat, mode.height as u32 as nat),
        product(pixel_count(width as nat, height as nat), fraction(1, 4)),
    )
}

/// A mode that may be chosen. Only where no mode comes close in its aspect
/// ratio are all ratios considered.
pub open spec fn eligible(mode: DisplayMode, width: u32, height: u32, any_ratio: bool) -> bool {
    &&& large_enough(mode, width, height)
    &&& any_ratio || below(ratio_diff(mode, width, height), fraction(1, 50))
}

/// `a < b - c`.
pub open spec fn below_by(a: Magnitude, b: Magnitude, c: Magnitude) -> bool {
    !below(b, c) && below(a, distance(b, c))
}

/// A mode takes the place of another: its ratio is closer, or about as close
/// and its number of pixels is closer.
pub open spec fn preferred(
    mode: DisplayMode,
    over: DisplayMode,
    width: u32,
    height: u32,
    any_ratio: bool,
) -> bool {
    let r = ratio_diff(mode, width, height);
    let s = ratio_diff(over, width, height);
    let step = fraction(1, 1000);
    ||| if any_ratio {
        below(r, s)
    } else {
        below_by(r, s, step)
    }
    ||| below(r, total(s, step)) && below(
        pixel_diff(mode, width, height),
        pixel_diff(over, width, height),
    )
}

/// The mode that is left when each of the modes, in turn, takes the place of
/// the one before if it is preferred.
pub open spec fn best(
    modes: Seq<DisplayMode>,
    width: u32,
    height: u32,
    any_ratio: bool,
) -> Option<int>
    decreases modes.len(),
{
    if modes.len() == 0 {
        None
    } else {
        let sofar = best(modes.drop_last(), width, height, any_ratio);
        let mode = modes.last();
        let takes_over = eligible(mode, width, height, any_ratio) && match sofar {
            None => ratio_diff(mode, width, height) is Finite,
            Some(i) => preferred(mode, modes[i], width, height, any_ratio),
        };
        if takes_over {
            Some(modes.len() - 1)
        } else {
            sofar
        }
    }
}

/// The mode for a client that wants `width` by `height`.
pub open spec fn chosen(modes: Seq<DisplayMode>, width: u32, height: u32) -> Option<int> {
    match best(modes, width, height, false) {
        Some(i) => Some(i),
        None => best(modes, width, height, true),
    }
}

/// The chosen position is one of the modes.
pub proof fn lemma_best_in_range(
    modes: Seq<DisplayMode>,
    width: u32,
    height: u32,
    any_ratio: bool,
)
    ensures
        best(modes, width, height, any_ratio) matches Some(i) ==> 0 <= i < modes.len(),
    decreases modes.len(),
{
    if modes.len() > 0 {
        lemma_best_in_range(modes.drop_last(), width, height, any_ratio);
    }
}

/// What is compared of a mode.
struct Scores {
    ratio_diff: Binary64,
    pixel_diff: Binary64,
    pixels: Binary64,
}

impl Scores {
    spec fn of(self, mode: DisplayMode, width: u32, height: u32) -> bool {
        &&& self.ratio_diff.wf()
        &&& self.ratio_diff.within(263)
        &&& self.ratio_diff@ == ratio_diff(mode, width, height)
        &&& self.pixel_diff.wf()
        &&& self.pixel_diff@ == pixel_diff(mode, width, height)
        &&& self.pixels.wf()
        &&& self.pixels@ == pixel_count(mode.width as u32 as nat, mode.height as u32 as nat)
    }
}

fn scores(mode: DisplayMode, width: u32, height: u32) -> (s: Scores)
    ensures
        s.of(mode, width, height),
{
    let w = Binary64::from_u64(mode.width as u32 as u64);
    let h = Binary64::from_u64(mode.height as u32 as u64);
    let target_w = Binary64::from_u64(width as u64);
    let target_h = Binary64::from_u64(height as u64);
    proof {
        reveal(ratio_diff);
        reveal(pixel_diff);
    }
    let pixels = w.mul(h);
    let mode_ratio = w.div(h);
    let target_ratio = target_w.div(target_h);
    assert(mode_ratio.within(194) && target_ratio.within(194));
    assert(pixels.within(209));
    Scores {
        ratio_diff: mode_ratio.abs_diff(target_ratio),
        pixel_diff: pixels.abs_diff(target_w.mul(target_h)),
        pixels,
    }
}

fn is_preferred(s: &Scores, over: &Scores, any_ratio: bool) -> (r: bool)
    requires
        s.ratio_diff.wf(),
        s.pixel_diff.wf(),
        over.ratio_diff.wf(),
        over.ratio_diff.within(263),
        over.pixel_diff.wf(),
    ensures
        r == ({
            let step = fraction(1, 1000);
            ||| if any_ratio {
                below(s.ratio_diff@, over.ratio_diff@)
            } else {
                below_by(s.ratio_diff@, over.ratio_diff@, step)
            }
            ||| below(s.ratio_diff@, total(over.ratio_diff@, step)) && below(
                s.pixel_diff@,
                over.pixel_diff@,
            )
        }),
{
    let step = Binary64::from_u64(1).div(Binary64::from_u64(1000));
    assert(step.within(194));
    assert(step.within(263));
    let closer: bool = if any_ratio {
        s.ratio_diff.less_than(over.ratio_diff)
    } else {
        !over.ratio_diff.less_than(step) && s.ratio_diff.less_than(over.ratio_diff.abs_diff(step))
    };
    closer || (s.ratio_diff.less_than(over.ratio_diff.plus(step)) && s.pixel_diff.less_than(
        over.pixel_diff,
    ))
}

fn is_eligible(s: &Scores, mode: DisplayMode, width: u32, height: u32, any_ratio: bool) -> (r: bool)
    requires
        s.of(mode, width, height),
    ensures
        r == eligible(mode, width, height, any_ratio),
{
    let w: u32 = mode.width as u32;
    let h: u32 = mode.height as u32;
    if w == 0 || h == 0 {
        return false;
    }
    let tolerance = Binary64::from_u64(1).div(Binary64::from_u64(50));
    let target_pixels = Binary64::from_u64(width as u64).mul(Binary64::from_u64(height as u64));
    let quarter = Binary64::from_u64(1).div(Binary64::from_u64(4));
    assert(target_pixels.within(209) && quarter.within(194));
    !s.pixels.less_than(target_pixels.mul(quarter)) && (any_ratio || s.ratio_diff.less_than(
        tolerance,
    ))
}

/// The next mode takes the place of the best one so far.
spec fn takes_over(
    mode: DisplayMode,
    sofar: Option<DisplayMode>,
    width: u32,
    height: u32,
    any_ratio: bool,
) -> bool {
    eligible(mode, width, height, any_ratio) && match sofar {
        None => ratio_diff(mode, width, height) is Finite,
        Some(other) => preferred(mode, other, width, height, any_ratio),
    }
}

fn does_take_over(
    mode: DisplayMode,
    sofar: Option<DisplayMode>,
    width: u32,
    height: u32,
    any_ratio: bool,
) -> (r: bool)
    ensures
        r == takes_over(mode, sofar, width, height, any_ratio),
{
    let s = scores(mode, width, height);
    if !is_eligible(&s, mode, width, height, any_ratio) {
        return false;
    }
    match sofar {
        None => match s.ratio_diff {
            Binary64::Finite { .. } => true,
            _ => false,
        },
        Some(other) => is_preferred(&s, &scores(other, width, height), any_ratio),
    }
}

/// One step of [`best`].
proof fn lemma_best_step(modes: Seq<DisplayMode>, width: u32, height: u32, any_ratio: bool)
    requires
        modes.len() > 0,
    ensures
        ({
            let sofar = best(modes.drop_last(), width, height, any_ratio);
            let other = match sofar {
                Some(i) => Some(modes[i]),
                None => None,
            };
            best(modes, width, height, any_ratio) == (if takes_over(
                modes.last(),
                other,
                width,
                height,
                any_ratio,
            ) {
                Some(modes.len() - 1)
            } else {
                sofar
            })
        }),
{
}

fn best_mode(modes: &Vec<DisplayMode>, width: u32, height: u32, any_ratio: bool) -> (r: Option<
    usize,
>)
    ensures
        match r {
            Some(i) => best(modes@, width, height, any_ratio) == Some(i as int),
            None => best(modes@, width, height, any_ratio) is None,
        },
{
    let mut found: Option<usize> = None;
    let mut i: usize = 0;
    proof {
        assert(modes@.take(0).len() == 0);
    }
    while i < modes.len()
        invariant
            i <= modes@.len(),
            match found {
                Some(j) => j < i && best(modes@.take(i as int), width, height, any_ratio) == Some(
                    j as int,
                ),
                None => best(modes@.take(i as int), width, height, any_ratio) is None,
            },
        decreases modes@.len() - i,
    {
        let ghost t = modes@.take(i + 1);
        proof {
            assert(t.drop_last() =~= modes@.take(i as int));
            assert(t.last() == modes@[i as int]);
            assert(found matches Some(j) ==> t[j as int] == modes@[j as int]);
            lemma_best_step(t, width, height, any_ratio);
        }
        let sofar: Option<DisplayMode> = match found {
            None => None,
            Some(j) => Some(modes[j]),
        };
        if does_take_over(modes[i], sofar, width, height, any_ratio) {
            found = Some(i);
        }
        i += 1;
    }
    proof {
        assert(modes@.take(modes@.len() as int) =~= modes@);
    }
    found
}

/// The position of the mode that suits a client best: the aspect ratio counts
/// most, then the number of pixels.
pub fn choose_mode(modes: &Vec<DisplayMode>, width: u32, height: u32) -> (r: Option<usize>)
    ensures
        match r {
            Some(i) => chosen(modes@, width, height) == Some(i as int) && i < modes@.len(),
            None => chosen(modes@, width, height) is None,
        },
{
    proof {
        lemma_best_in_range(modes@, width, height, false);
        lemma_best_in_range(modes@, width, height, true);
    }
    match best_mode(modes, width, height, false) {
        Some(i) => Some(i),
        // No mode within the tolerance: the closest ratio has to do.
        None => best_mode(modes, width, height, true),
    }
}

/// The best mode is eligible, and there is one if any mode is eligible.
proof fn lemma_best_eligible(modes: Seq<DisplayMode>, width: u32, height: u32, any_ratio: bool)
    ensures
        best(modes, width, height, any_ratio) matches Some(i) ==> {
            &&& 0 <= i < modes.len()
            &&& eligible(modes[i], width, height, any_ratio)
            &&& ratio_diff(modes[i], width, height) is Finite
        },
        best(modes, width, height, any_ratio) is None ==> forall|k: int|
            0 <= k < modes.len() && eligible(#[trigger] modes[k], width, height, any_ratio)
                ==> !(ratio_diff(modes[k], width, height) is Finite),
    decreases modes.len(),
{
    if modes.len() > 0 {
        let rest = modes.drop_last();
        lemma_best_eligible(rest, width, height, any_ratio);
        lemma_best_step(modes, width, height, any_ratio);
        assert forall|k: int|
            best(modes, width, height, any_ratio) is None && 0 <= k < modes.len() && eligible(
                #[trigger] modes[k],
                width,
                height,
                any_ratio,
            ) implies !(ratio_diff(modes[k], width, height) is Finite) by {
            if k < rest.len() {
                assert(rest[k] == modes[k]);
            }
        }
    }
}

/// A mode is chosen exactly if some mode has at least a quarter of the wanted
/// pixels and an aspect ratio that can be compared. The chosen mode is such a
/// mode, and its ratio is within the tolerance if that of any such mode is.
pub proof fn law_chosen_mode_suits(modes: Seq<DisplayMode>, width: u32, height: u32)
    ensures
        chosen(modes, width, height) matches Some(i) ==> {
            &&& 0 <= i < modes.len()
            &&& large_enough(modes[i], width, height)
            &&& ratio_diff(modes[i], width, height) is Finite
            &&& forall|k: int|
                0 <= k < modes.len() && eligible(#[trigger] modes[k], width, height, false)
                    ==> eligible(modes[i], width, height, false)
        },
        chosen(modes, width, height) is None ==> forall|k: int|
            0 <= k < modes.len() && large_enough(#[trigger] modes[k], width, height)
                ==> !(ratio_diff(modes[k], width, height) is Finite),
{
    lemma_best_eligible(modes, width, height, false);
    lemma_best_eligible(modes, width, height, true);
    if chosen(modes, width, height) is None {
        assert forall|k: int|
            0 <= k < modes.len() && large_enough(#[trigger] modes[k], width, height) implies !(
        ratio_diff(modes[k], width, height) is Finite) by {
            assert(eligible(modes[k], width, height, true));
        }
    }
}

/// The number of pixels of a size is finite and at least half of one pixel.
proof fn lemma_pixel_count(width: nat, height: nat) -> (p: nat)
    requires
        width <= u32::MAX,
        height <= u32::MAX,
    ensures
        pixel_count(width, height) == Magnitude::Finite(p),
        width > 0 && height > 0 ==> unit() <= 2 * p,
{
    let u = unit();
    lemma_unit_large();
    lemma_of_int_exact(width);
    lemma_of_int_exact(height);
    let n = width * height * u;
    assert(width * u * (height * u) == n * u) by (nonlinear_arith)
        requires
            n == width * height * u,
    ;
    lemma_nearest_common_factor(n, 1, u);
    if width > 0 && height > 0 {
        assert(n >= u) by (nonlinear_arith)
            requires
                n == width * height * u,
                width >= 1,
                height >= 1,
        ;
        lemma_nearest_close(n, 1);
    }
    nearest(n, 1)
}

/// A small fraction is finite and positive.
proof fn lemma_fraction(d: nat) -> (q: nat)
    requires
        0 < d <= 1000,
    ensures
        fraction(1, d) == Magnitude::Finite(q),
        unit() <= 2 * d * q,
        d * q <= 2 * unit(),
        q > 0,
{
    let u = unit();
    lemma_unit_large();
    lemma_exact_ratio(1, d);
    assert(1 * u == u);
    lemma_nearest_close(u, d);
    let q = nearest(u, d);
    assert(q * d == d * q) by (nonlinear_arith);
    assert(2 * d * q == 2 * (d * q)) by (nonlinear_arith);
    assert(q > 0) by (nonlinear_arith)
        requires
            u <= 2 * (d * q),
            u > 0,
    ;
    q
}

/// A quarter of the pixels is less than all of them.
proof fn lemma_quarter(p: nat)
    requires
        unit() <= 2 * p,
    ensures
        !below(Magnitude::Finite(p), product(Magnitude::Finite(p), fraction(1, 4))),
{
    let u = unit();
    let k = MANTISSA_HIGH as int;
    lemma_unit_large();
    let q = lemma_fraction(4);
    let n = p * q;
    assert(u * MANTISSA_LOW <= n) by (nonlinear_arith)
        requires
            n == p * q,
            u <= 2 * p,
            u <= 8 * q,
            u >= 0x1_0000_0000_0000_0000_0000_0000_0000_0000int,
            MANTISSA_LOW == 0x10_0000_0000_0000,
    ;
    lemma_nearest_close(n, u);
    let v = nearest(n, u);
    assert(k * (v * u) <= n * (k + 1)) by (nonlinear_arith)
        requires
            k * (v * u - n) <= n,
    ;
    assert(2 * n <= p * u) by (nonlinear_arith)
        requires
            n == p * q,
            4 * q <= 2 * u,
    ;
    assert(v <= p) by (nonlinear_arith)
        requires
            k * (v * u) <= n * (k + 1),
            2 * n <= p * u,
            u > 0,
            k >= 1,
    ;
}

/// What is no further from a value than a step cannot be undercut by a step.
proof fn lemma_near_not_undercut(r: Magnitude, s: Magnitude, step: Magnitude)
    requires
        step is Finite,
        below(s, step) || s == step,
    ensures
        !below_by(r, s, step),
{
    if s == step {
        lemma_nearest_zero(1);
    }
}

/// The exact mode is eligible and differs in nothing.
proof fn lemma_exact_mode(mode: DisplayMode, width: u32, height: u32)
    requires
        mode.width as u32 == width,
        mode.height as u32 == height,
        width > 0,
        height > 0,
    ensures
        eligible(mode, width, height, false),
        ratio_diff(mode, width, height) == Magnitude::Finite(0),
        pixel_diff(mode, width, height) == Magnitude::Finite(0),
{
    reveal(ratio_diff);
    reveal(pixel_diff);
    lemma_nearest_zero(1);
    lemma_exact_ratio(width as nat, height as nat);
    let p = lemma_pixel_count(width as nat, height as nat);
    lemma_quarter(p);
    let _ = lemma_fraction(50);
}

/// Once the exact mode has been seen, the best mode has the wanted number of
/// pixels and is no more than a step away in its ratio.
proof fn lemma_best_with_exact(modes: Seq<DisplayMode>, width: u32, height: u32, k: int)
    requires
        0 <= k < modes.len(),
        modes[k].width as u32 == width,
        modes[k].height as u32 == height,
        width > 0,
        height > 0,
    ensures
        best(modes, width, height, false) matches Some(i) && {
            &&& 0 <= i < modes.len()
            &&& pixel_diff(modes[i], width, height) == Magnitude::Finite(0)
            &&& below(ratio_diff(modes[i], width, height), fraction(1, 1000)) || ratio_diff(
                modes[i],
                width,
                height,
            ) == fraction(1, 1000)
        },
    decreases modes.len(),
{
    let rest = modes.drop_last();
    let last = modes.last();
    let step = fraction(1, 1000);
    let q = lemma_fraction(1000);
    lemma_best_step(modes, width, height, false);
    lemma_best_eligible(rest, width, height, false);
    let sofar = best(rest, width, height, false);
    if k < rest.len() {
        lemma_best_with_exact(rest, width, height, k);
        let j = sofar->Some_0;
        assert(rest[j] == modes[j]);
        lemma_near_not_undercut(
            ratio_diff(last, width, height),
            ratio_diff(modes[j], width, height),
            step,
        );
    } else {
        lemma_exact_mode(last, width, height);
        if sofar is Some {
            let j = sofar->Some_0;
            assert(rest[j] == modes[j]);
            let s = ratio_diff(modes[j], width, height)->Finite_0;
            lemma_pixel_diff_finite(modes[j], width, height);
            lemma_nearest_positive(s + q);
            if s > q {
                lemma_nearest_positive((s - q) as nat);
            }
        }
    }
}

/// A positive number does not round to zero.
proof fn lemma_nearest_positive(n: nat)
    requires
        n > 0,
    ensures
        nearest(n, 1) > 0,
{
    if n >= MANTISSA_HIGH {
        lemma_nearest_close(n, 1);
    }
}

proof fn lemma_pixel_diff_finite(mode: DisplayMode, width: u32, height: u32)
    ensures
        pixel_diff(mode, width, height) is Finite,
{
    reveal(pixel_diff);
    let _ = lemma_pixel_count(mode.width as u32 as nat, mode.height as u32 as nat);
    let _ = lemma_pixel_count(width as nat, height as nat);
}

/// Where a mode of exactly the wanted size is offered, the chosen one has the
/// wanted number of pixels, in double precision, and an aspect ratio within a
/// thousandth of the wanted one.
pub proof fn law_exact_mode_is_matched(modes: Seq<DisplayMode>, width: u32, height: u32, k: int)
    requires
        0 <= k < modes.len(),
        modes[k].width as u32 == width,
        modes[k].height as u32 == height,
        width > 0,
        height > 0,
    ensures
        chosen(modes, width, height) matches Some(i) && {
            &&& 0 <= i < modes.len()
            &&& pixel_diff(modes[i], width, height) == Magnitude::Finite(0)
            &&& below(ratio_diff(modes[i], width, height), fraction(1, 1000)) || ratio_diff(
                modes[i],
                width,
                height,
            ) == fraction(1, 1000)
        },
{
    lemma_best_with_exact(modes, width, height, k);
}

/// The first mode of exactly the given size.
pub open spec fn first_of_size(modes: Seq<DisplayMode>, width: u64, height: u64, i: int) -> bool {
    &&& 0 <= i < modes.len()
    &&& modes[i] == (DisplayMode { width, height })
    &&& forall|j: int| 0 <= j < i ==> #[trigger] modes[j] != (DisplayMode { width, height })
}

/// The position of the first mode of exactly the given size.
pub fn find_mode(modes: &Vec<DisplayMode>, width: u64, height: u64) -> (r: Option<usize>)
    ensures
        match r {
            Some(i) => first_of_size(modes@, width, height, i as int),
            None => !modes@.contains(DisplayMode { width, height }),
        },
{
    let mut i: usize = 0;
    while i < modes.len()
        invariant
            i <= modes@.len(),
            forall|j: int|
                0 <= j < i ==> #[trigger] modes@[j] != (DisplayMode { width, height }),
        decreases modes@.len() - i,
    {
        if modes[i].width == width && modes[i].height == height {
            return Some(i);
        }
        i += 1;
    }
    None
}

/// Which modes may be chosen, in whole numbers: a mode is large enough exactly
/// where it has pixels and four times as many would be at least the wanted ones.
/// Where ratios count, one that is at most one part in 51 off is accepted, and
/// one that is at least one part in 49 off is not.
pub proof fn law_eligible_modes(mode: DisplayMode, width: u32, height: u32)
    requires
        mode.width <= u16::MAX,
        mode.height <= u16::MAX,
        0 < width <= u16::MAX,
        0 < height <= u16::MAX,
    ensures
        large_enough(mode, width, height) <==> 0 < mode.width && 0 < mode.height && 4 * (mode.width
            * mode.height) >= width * height,
        eligible(mode, width, height, true) <==> large_enough(mode, width, height),
        large_enough(mode, width, height) ==> {
            let wider = mode.width * height - width * mode.height;
            let scale = mode.height * height;
            &&& -scale <= 51 * wider <= scale ==> eligible(mode, width, height, false)
            &&& 49 * wider >= scale || 49 * wider <= -scale ==> !eligible(
                mode,
                width,
                height,
                false,
            )
        },
        !large_enough(mode, width, height) ==> !eligible(mode, width, height, false),
{
    let w = mode.width as nat;
    let h = mode.height as nat;
    lemma_exact_pixels(w, h);
    lemma_exact_pixels(width as nat, height as nat);
    lemma_exact_quarter(width as nat * height as nat);
    let u = unit();
    lemma_unit_large();
    if large_enough(mode, width, height) || (w > 0 && h > 0) {
        lemma_ratio_distance(w, h, width as nat, height as nat, 50);
        reveal(ratio_diff);
        let scale = h * height;
        assert(scale > 0) by (nonlinear_arith)
            requires
                scale == h * height,
                h > 0,
                height > 0,
        ;
    }
    let have = w * h;
    let want = width as nat * height as nat;
    assert(4 * (have * u) >= want * u <==> 4 * have >= want) by (nonlinear_arith)
        requires
            u > 0,
    ;
}

/// The number of pixels of a size that can be sent is exact.
proof fn lemma_exact_pixels(width: nat, height: nat)
    requires
        width <= u16::MAX,
        height <= u16::MAX,
    ensures
        pixel_count(width, height) == Magnitude::Finite(width * height * unit()),
        width * height <= 0xffff * 0xffff,
{
    let u = unit();
    lemma_unit_large();
    lemma_of_int_exact(width);
    lemma_of_int_exact(height);
    let n = width * height * u;
    assert(width * u * (height * u) == n * u) by (nonlinear_arith)
        requires
            n == width * height * u,
    ;
    lemma_nearest_common_factor(n, 1, u);
    assert(width * height <= 0xffff * 0xffff) by (nonlinear_arith)
        requires
            width <= 0xffff,
            height <= 0xffff,
    ;
    lemma_of_int_exact(width * height);
}

/// A quarter of a number of pixels is exact.
proof fn lemma_exact_quarter(pixels: nat)
    requires
        pixels <= 0xffff * 0xffff,
    ensures
        ({
            let part = product(Magnitude::Finite(pixels * unit()), fraction(1, 4));
            part matches Magnitude::Finite(q) && 4 * q == pixels * unit()
        }),
{
    let u = unit();
    lemma_unit_large();
    lemma_pow2_adds(1072, 2);
    lemma2_to64();
    let quarter = pow2(1072);
    assert(u == 4 * quarter);
    lemma_exact_ratio(1, 4);
    assert(1 * u == quarter * 4);
    lemma_nearest_common_factor(quarter, 1, 4);
    lemma_nearest_power(1, 1072);
    assert(1 * quarter == quarter);
    let n = pixels * u;
    assert(n * quarter == (pixels * quarter) * u) by (nonlinear_arith)
        requires
            n == pixels * u,
    ;
    lemma_nearest_common_factor(pixels * quarter, 1, u);
    lemma_nearest_power(pixels, 1072);
    assert(4 * (pixels * quarter) == pixels * u) by (nonlinear_arith)
        requires
            u == 4 * quarter,
    ;
}

/// How far the number of pixels is off is exact.
pub proof fn law_pixel_diff_is_exact(mode: DisplayMode, width: u32, height: u32)
    requires
        mode.width <= u16::MAX,
        mode.height <= u16::MAX,
        width <= u16::MAX,
        height <= u16::MAX,
    ensures
        ({
            let off = mode.width * mode.height - width * height;
            pixel_diff(mode, width, height) == Magnitude::Finite(
                (if off >= 0 {
                    off as nat
                } else {
                    (-off) as nat
                }) * unit(),
            )
        }),
{
    let u = unit();
    let have = mode.width as nat * mode.height as nat;
    let want = width as nat * height as nat;
    lemma_exact_pixels(mode.width as nat, mode.height as nat);
    lemma_exact_pixels(width as nat, height as nat);
    reveal(pixel_diff);
    let off = if have >= want {
        (have - want) as nat
    } else {
        (want - have) as nat
    };
    assert(off * u == (if have >= want {
        have * u - want * u
    } else {
        want * u - have * u
    })) by (nonlinear_arith)
        requires
            off == (if have >= want {
                have - want
            } else {
                want - have
            }),
    ;
    assert(have * u >= want * u <==> have >= want || u == 0) by (nonlinear_arith);
    lemma_unit_large();
    lemma_of_int_exact(off);
}

/// Modes of the same shape are as close in their ratio.
proof fn lemma_same_shape(mode: DisplayMode, over: DisplayMode, width: u32, height: u32)
    requires
        0 < mode.width <= u16::MAX,
        0 < mode.height <= u16::MAX,
        0 < over.width <= u16::MAX,
        0 < over.height <= u16::MAX,
        mode.width * over.height == over.width * mode.height,
    ensures
        ratio_diff(mode, width, height) == ratio_diff(over, width, height),
{
    let u = unit();
    let a = mode.width as nat;
    let b = mode.height as nat;
    let c = over.width as nat;
    let d = over.height as nat;
    lemma_unit_large();
    lemma_exact_ratio(a, b);
    lemma_exact_ratio(c, d);
    lemma_nearest_common_factor(a * u, b, d);
    lemma_nearest_common_factor(c * u, d, b);
    assert(a * u * d == c * u * b) by (nonlinear_arith)
        requires
            a * d == c * b,
    ;
    assert(b * d == d * b) by (nonlinear_arith);
    reveal(ratio_diff);
}

/// A ratio difference between sizes that can be sent, with its bound.
proof fn lemma_ratio_diff_small(mode: DisplayMode, width: u32, height: u32) -> (r: nat)
    requires
        0 < mode.width <= u16::MAX,
        0 < mode.height <= u16::MAX,
        0 < width <= u16::MAX,
        0 < height <= u16::MAX,
    ensures
        ratio_diff(mode, width, height) == Magnitude::Finite(r),
        r <= 0x100000 * unit(),
{
    let a = lemma_ratio_small(mode.width as nat, mode.height as nat);
    let b = lemma_ratio_small(width as nat, height as nat);
    let n = if a >= b {
        (a - b) as nat
    } else {
        (b - a) as nat
    };
    reveal(ratio_diff);
    if n >= MANTISSA_LOW {
        lemma_nearest_close(n, 1);
    }
    lemma_unit_large();
    nearest(n, 1)
}

/// Among modes of the same shape the one whose number of pixels is closer takes
/// the place of the other, and only that one: of modes that are as close the first
/// stays.
pub proof fn law_closer_size_is_preferred(
    mode: DisplayMode,
    over: DisplayMode,
    width: u32,
    height: u32,
    any_ratio: bool,
)
    requires
        0 < mode.width <= u16::MAX,
        0 < mode.height <= u16::MAX,
        0 < over.width <= u16::MAX,
        0 < over.height <= u16::MAX,
        0 < width <= u16::MAX,
        0 < height <= u16::MAX,
        mode.width * over.height == over.width * mode.height,
    ensures
        ({
            let off = mode.width * mode.height - width * height;
            let other = over.width * over.height - width * height;
            preferred(mode, over, width, height, any_ratio) <==> (if off >= 0 {
                off
            } else {
                -off
            }) < (if other >= 0 {
                other
            } else {
                -other
            })
        }),
{
    let u = unit();
    lemma_unit_large();
    law_pixel_diff_is_exact(mode, width, height);
    law_pixel_diff_is_exact(over, width, height);
    lemma_same_shape(mode, over, width, height);
    let r = lemma_ratio_diff_small(mode, width, height);
    let step = lemma_fraction(1000);
    lemma_exact_ratio(1, 1000);
    assert(1 * u == u);
    lemma_nearest_close(u, 1000);
    // The step is large next to any rounding.
    let sum = r + step;
    assert(sum >= MANTISSA_LOW);
    lemma_nearest_close(sum, 1);
    assert(r < nearest(sum, 1));
    if r >= step {
        let rest = (r - step) as nat;
        if rest >= MANTISSA_LOW {
            lemma_nearest_close(rest, 1);
        }
        assert(nearest(rest, 1) <= r);
    }
    let off = mode.width * mode.height - width * height;
    let other = over.width * over.height - width * height;
    let x = if off >= 0 {
        off as nat
    } else {
        (-off) as nat
    };
    let y = if other >= 0 {
        other as nat
    } else {
        (-other) as nat
    };
    assert(x * u < y * u <==> x < y) by (nonlinear_arith)
        requires
            u > 0,
    ;
}

/// The shape counts before the size. A mode of exactly the wanted shape takes the
/// place of one whose ratio is at least one part in 990 off, whatever their sizes,
/// and does not give way to it. Against one whose ratio is at most one part in 1010
/// off the size decides: the number of pixels that is closer is preferred, and where
/// ratios within the tolerance are compared it alone.
pub proof fn law_wanted_shape_is_preferred(
    mode: DisplayMode,
    over: DisplayMode,
    width: u32,
    height: u32,
    any_ratio: bool,
)
    requires
        0 < mode.width <= u16::MAX,
        0 < mode.height <= u16::MAX,
        0 < over.width <= u16::MAX,
        0 < over.height <= u16::MAX,
        0 < width <= u16::MAX,
        0 < height <= u16::MAX,
        mode.width * height == width * mode.height,
    ensures
        ({
            let wider = over.width * height - width * over.height;
            let scale = over.height * height;
            let closer = below(pixel_diff(over, width, height), pixel_diff(mode, width, height));
            let farther = below(pixel_diff(mode, width, height), pixel_diff(over, width, height));
            &&& 990 * wider >= scale || 990 * wider <= -scale ==> preferred(
                mode,
                over,
                width,
                height,
                any_ratio,
            ) && !preferred(over, mode, width, height, any_ratio)
            &&& -scale <= 1010 * wider <= scale ==> {
                &&& preferred(over, mode, width, height, any_ratio) <==> closer
                &&& farther ==> preferred(mode, over, width, height, any_ratio)
                &&& preferred(mode, over, width, height, false) ==> farther
            }
        }),
{
    let u = unit();
    lemma_unit_large();
    let want = DisplayMode { width: width as u64, height: height as u64 };
    lemma_same_shape(mode, want, width, height);
    let s = lemma_ratio_diff_small(over, width, height);
    let step = lemma_fraction(1000);
    let r = ratio_diff(mode, width, height);
    assert(r == Magnitude::Finite(0)) by {
        reveal(ratio_diff);
        let w = lemma_ratio_small(width as nat, height as nat);
        assert(nearest(0, 1) == 0);
    }
    lemma_exact_ratio(1, 1000);
    lemma_exact_ratio(1, 1009);
    lemma_exact_ratio(1, 991);
    assert(1 * u == u);
    lemma_nearest_close(u, 1000);
    lemma_nearest_close(u, 1009);
    lemma_nearest_close(u, 991);
    let wider = over.width * height - width * over.height;
    let scale = over.height * height;
    lemma_nearest_close(step, 1);
    assert(0 + step == step);
    if 990 * wider >= scale || 990 * wider <= -scale {
        lemma_ratio_distance(
            over.width as nat,
            over.height as nat,
            width as nat,
            height as nat,
            991,
        );
        assert(!below(Magnitude::Finite(s), ratio(1, 991))) by {
            reveal(ratio_diff);
        }
        assert(nearest(step, 1) <= s);
        let rest = (s - step) as nat;
        lemma_nearest_close(rest, 1);
        assert(nearest(rest, 1) > 0);
    }
    if -scale <= 1010 * wider <= scale {
        lemma_ratio_distance(
            over.width as nat,
            over.height as nat,
            width as nat,
            height as nat,
            1009,
        );
        assert(below(Magnitude::Finite(s), ratio(1, 1009))) by {
            reveal(ratio_diff);
        }
        assert(s < nearest(step, 1));
        assert(s < step);
        let sum = s + step;
        lemma_nearest_close(sum, 1);
        assert(nearest(sum, 1) > 0);
    }
}

/// Where all ratios are considered, any that is closer takes the place; one that
/// is not closer does so only where its number of pixels is.
pub proof fn law_any_closer_ratio_counts(
    mode: DisplayMode,
    over: DisplayMode,
    width: u32,
    height: u32,
)
    ensures
        ({
            let ratio_closer = below(
                ratio_diff(mode, width, height),
                ratio_diff(over, width, height),
            );
            let size_closer = below(
                pixel_diff(mode, width, height),
                pixel_diff(over, width, height),
            );
            &&& ratio_closer ==> preferred(mode, over, width, height, true)
            &&& preferred(mode, over, width, height, true) ==> ratio_closer || size_closer
        }),
{
}

/// Each mode in turn is held against the best one before it, and the later of two
/// only takes over where it is preferred: of modes that are all alike the first is
/// the best.
pub proof fn law_later_mode_takes_over(
    modes: Seq<DisplayMode>,
    mode: DisplayMode,
    width: u32,
    height: u32,
    any_ratio: bool,
)
    ensures
        ({
            let before = best(modes, width, height, any_ratio);
            let after = best(modes.push(mode), width, height, any_ratio);
            &&& after == before || after == Some(modes.len() as int)
            &&& !eligible(mode, width, height, any_ratio) ==> after == before
            &&& eligible(mode, width, height, any_ratio) ==> (before matches Some(i) ==> (after
                == Some(modes.len() as int) <==> preferred(
                mode,
                modes[i],
                width,
                height,
                any_ratio,
            )))
        }),
{
    assert(modes.push(mode).drop_last() =~= modes);
    lemma_best_in_range(modes, width, height, any_ratio);
}

/// The first mode of a size is the only one that is found, and it is found where
/// there is any of that size, at or before it.
pub proof fn law_first_mode_of_a_size(
    modes: Seq<DisplayMode>,
    width: u64,
    height: u64,
    i: int,
    k: int,
)
    requires
        first_of_size(modes, width, height, i),
        0 <= k < modes.len(),
        modes[k].width == width,
        modes[k].height == height,
    ensures
        i <= k,
        modes[i].width == width,
        modes[i].height == height,
{
}

/// Where modes come close in their ratio, those are the only ones that are looked
/// at; the others count only where none does. An empty list has no mode.
pub proof fn law_close_ratios_come_first(modes: Seq<DisplayMode>, width: u32, height: u32)
    ensures
        best(modes, width, height, false) is Some ==> chosen(modes, width, height) == best(
            modes,
            width,
            height,
            false,
        ),
        best(modes, width, height, false) is None ==> chosen(modes, width, height) == best(
            modes,
            width,
            height,
            true,
        ),
        modes.len() == 0 ==> chosen(modes, width, height) is None,
{
}

} // verus!
