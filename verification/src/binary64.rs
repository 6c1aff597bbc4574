//! Non-negative binary64 arithmetic in integers.
//!
//! Aspect ratios are compared and scaled in IEEE 754 double precision. The
//! values that occur are never negative, so a value is a 53-bit mantissa and
//! an exponent of two, infinity, or not-a-number. Every operation returns the
//! correctly rounded result (nearest, ties to even).
//!
//! A finite value is modelled as a natural number: its multiple of the
//! smallest positive binary64, `2^-1074`.
use vstd::arithmetic::div_mod::{lemma_fundamental_div_mod, lemma_fundamental_div_mod_converse};
use vstd::arithmetic::power2::{
    lemma2_to64, lemma2_to64_rest, lemma_pow2_adds, lemma_pow2_pos,
    lemma_pow2_strictly_increases, lemma_pow2_unfold, pow2,
};
use vstd::prelude::*;

verus! {

/// Smallest normalised mantissa.
pub const MANTISSA_LOW: u64 = 0x10_0000_0000_0000;

/// One more than the largest mantissa.
pub const MANTISSA_HIGH: u64 = 0x20_0000_0000_0000;

/// The number of smallest positive values that make up one.
pub open spec fn unit() -> nat {
    pow2(1074)
}

/// `n / d` rounded to the nearest integer; a tie goes to the even one.
pub open spec fn round_half_even(n: nat, d: nat) -> nat {
    let q = n / d;
    let r = n % d;
    if 2 * r < d || (2 * r == d && q % 2 == 0) {
        q
    } else {
        q + 1
    }
}

/// The binary64 nearest to `n / d`: an integer below `2^53`, doubled as often
/// as the quotient is too large for one.
pub open spec fn nearest(n: nat, d: nat) -> nat
    decreases
            (if n > d {
                n - d
            } else {
                0
            }),
{
    if d == 0 || n < d * MANTISSA_HIGH {
        round_half_even(n, d)
    } else {
        2 * nearest(n, 2 * d)
    }
}

/// What a [`Binary64`] stands for.
pub enum Magnitude {
    /// A multiple of the smallest positive value.
    Finite(nat),
    Infinite,
    NotANumber,
}

/// The value of an integer.
pub open spec fn of_int(i: nat) -> Magnitude {
    Magnitude::Finite(nearest(i * unit(), 1))
}

/// `a / b`.
pub open spec fn quotient(a: Magnitude, b: Magnitude) -> Magnitude {
    match (a, b) {
        (Magnitude::Finite(x), Magnitude::Finite(y)) => {
            if y != 0 {
                Magnitude::Finite(nearest(x * unit(), y))
            } else if x != 0 {
                Magnitude::Infinite
            } else {
                Magnitude::NotANumber
            }
        },
        (Magnitude::Finite(_), Magnitude::Infinite) => Magnitude::Finite(0),
        (Magnitude::Infinite, Magnitude::Finite(_)) => Magnitude::Infinite,
        _ => Magnitude::NotANumber,
    }
}

/// `a * b`.
pub open spec fn product(a: Magnitude, b: Magnitude) -> Magnitude {
    match (a, b) {
        (Magnitude::Finite(x), Magnitude::Finite(y)) => Magnitude::Finite(nearest(x * y, unit())),
        (Magnitude::Finite(x), Magnitude::Infinite) | (Magnitude::Infinite, Magnitude::Finite(x)) =>
            if x == 0 {
                Magnitude::NotANumber
            } else {
                Magnitude::Infinite
            },
        (Magnitude::Infinite, Magnitude::Infinite) => Magnitude::Infinite,
        _ => Magnitude::NotANumber,
    }
}

/// `|a - b|`.
pub open spec fn distance(a: Magnitude, b: Magnitude) -> Magnitude {
    match (a, b) {
        (Magnitude::Finite(x), Magnitude::Finite(y)) => Magnitude::Finite(
            nearest(
                if x >= y {
                    (x - y) as nat
                } else {
                    (y - x) as nat
                },
                1,
            ),
        ),
        (Magnitude::Finite(_), Magnitude::Infinite) => Magnitude::Infinite,
        (Magnitude::Infinite, Magnitude::Finite(_)) => Magnitude::Infinite,
        _ => Magnitude::NotANumber,
    }
}

/// `a + b`.
pub open spec fn total(a: Magnitude, b: Magnitude) -> Magnitude {
    match (a, b) {
        (Magnitude::Finite(x), Magnitude::Finite(y)) => Magnitude::Finite(nearest(x + y, 1)),
        (Magnitude::NotANumber, _) => Magnitude::NotANumber,
        (_, Magnitude::NotANumber) => Magnitude::NotANumber,
        _ => Magnitude::Infinite,
    }
}

/// `a < b`; nothing is below or above not-a-number.
pub open spec fn below(a: Magnitude, b: Magnitude) -> bool {
    match (a, b) {
        (Magnitude::Finite(x), Magnitude::Finite(y)) => x < y,
        (Magnitude::Finite(_), Magnitude::Infinite) => true,
        _ => false,
    }
}

/// `a` rounded to the nearest integer, ties away from zero; `limit` where the
/// result would pass it, zero for not-a-number.
pub open spec fn to_int(a: Magnitude, limit: nat) -> nat {
    match a {
        Magnitude::Finite(x) => {
            let i = (2 * x + unit()) / (2 * unit());
            if i <= limit {
                i
            } else {
                limit
            }
        },
        Magnitude::Infinite => limit,
        Magnitude::NotANumber => 0,
    }
}

/// `round_half_even(n, d)` is the only integer within half of `n / d` that is
/// even where it is half away.
proof fn lemma_round_is(n: nat, d: nat, q: nat)
    requires
        d > 0,
        -d <= 2 * (n - q * d) <= d,
        2 * (n - q * d) == d || 2 * (n - q * d) == -d ==> q % 2 == 0,
    ensures
        round_half_even(n, d) == q,
{
    if n >= q * d {
        lemma_fundamental_div_mod_converse(n as int, d as int, q as int, n - q * d);
    } else {
        assert(q >= 1) by (nonlinear_arith)
            requires
                n < q * d,
        ;
        assert((q - 1) * d == q * d - d) by (nonlinear_arith);
        lemma_fundamental_div_mod_converse(n as int, d as int, q - 1, n - (q - 1) * d);
    }
}

/// The converse of [`lemma_round_is`].
proof fn lemma_round_near(n: nat, d: nat)
    requires
        d > 0,
    ensures
        ({
            let q = round_half_even(n, d);
            &&& -d <= 2 * (n - q * d) <= d
            &&& 2 * (n - q * d) == d || 2 * (n - q * d) == -d ==> q % 2 == 0
        }),
{
    let q0 = n / d;
    lemma_fundamental_div_mod(n as int, d as int);
    assert(n == q0 * d + n % d) by (nonlinear_arith)
        requires
            n == d * q0 + n % d,
    ;
    assert((q0 + 1) * d == q0 * d + d) by (nonlinear_arith);
}

/// A common factor does not change what a fraction rounds to.
proof fn lemma_round_common_factor(n: nat, d: nat, c: nat)
    requires
        d > 0,
        c > 0,
    ensures
        round_half_even(n * c, d * c) == round_half_even(n, d),
{
    let q = round_half_even(n, d);
    lemma_round_near(n, d);
    let x = 2 * (n - q * d);
    assert(d * c > 0) by (nonlinear_arith)
        requires
            d > 0,
            c > 0,
    ;
    assert(2 * (n * c - q * (d * c)) == x * c) by (nonlinear_arith)
        requires
            x == 2 * (n - q * d),
    ;
    assert(-(d * c) <= x * c <= d * c) by (nonlinear_arith)
        requires
            -d <= x <= d,
            c > 0,
    ;
    assert(x * c == d * c ==> x == d) by (nonlinear_arith)
        requires
            c > 0,
    ;
    assert(x * c == -(d * c) ==> x == -d) by (nonlinear_arith)
        requires
            c > 0,
    ;
    lemma_round_is(n * c, d * c, q);
}

/// Once the doubling that makes a quotient a 53-bit integer is known, so is
/// the nearest value.
proof fn lemma_nearest_at(n: nat, d: nat, k: nat)
    requires
        d > 0,
        n < d * pow2(k) * MANTISSA_HIGH,
        k > 0 ==> d * pow2(k) * MANTISSA_LOW <= n,
    ensures
        nearest(n, d) == round_half_even(n, d * pow2(k)) * pow2(k),
    decreases k,
{
    lemma2_to64();
    if k == 0 {
        assert(d * pow2(0) == d) by (nonlinear_arith)
            requires
                pow2(0) == 1,
        ;
    } else {
        let h = pow2((k - 1) as nat);
        lemma_pow2_unfold(k);
        lemma_pow2_pos((k - 1) as nat);
        assert(d * pow2(k) == 2 * d * h) by (nonlinear_arith)
            requires
                pow2(k) == 2 * h,
        ;
        assert(2 * d * h * MANTISSA_LOW == d * MANTISSA_HIGH * h) by (nonlinear_arith);
        assert(d * MANTISSA_HIGH * h >= d * MANTISSA_HIGH) by (nonlinear_arith)
            requires
                h >= 1,
                d > 0,
        ;
        assert(k - 1 > 0 ==> 2 * d * h * MANTISSA_LOW <= n);
        lemma_nearest_at(n, 2 * d, (k - 1) as nat);
        let q = round_half_even(n, d * pow2(k));
        assert(2 * (q * h) == q * pow2(k)) by (nonlinear_arith)
            requires
                pow2(k) == 2 * h,
        ;
    }
}

/// A common factor does not change the nearest value.
pub proof fn lemma_nearest_common_factor(n: nat, d: nat, c: nat)
    requires
        d > 0,
        c > 0,
    ensures
        nearest(n * c, d * c) == nearest(n, d),
    decreases
            (if n > d {
                n - d
            } else {
                0
            }),
{
    assert(d * c > 0) by (nonlinear_arith)
        requires
            d > 0,
            c > 0,
    ;
    assert(n * c < d * c * MANTISSA_HIGH <==> n < d * MANTISSA_HIGH) by (nonlinear_arith)
        requires
            c > 0,
    ;
    if n < d * MANTISSA_HIGH {
        lemma_round_common_factor(n, d, c);
    } else {
        lemma_nearest_common_factor(n, 2 * d, c);
        assert(2 * d * c == 2 * (d * c)) by (nonlinear_arith);
    }
}

/// A normalised mantissa times a power of two is its own nearest value.
proof fn lemma_nearest_exact(m: nat, k: nat)
    requires
        MANTISSA_LOW <= m < MANTISSA_HIGH,
    ensures
        nearest(m * pow2(k), 1) == m * pow2(k),
{
    let p = pow2(k);
    let n = m * p;
    lemma_pow2_pos(k);
    assert(p * MANTISSA_LOW <= n < p * MANTISSA_HIGH) by (nonlinear_arith)
        requires
            n == m * p,
            MANTISSA_LOW <= m < MANTISSA_HIGH,
            p > 0,
    ;
    lemma_nearest_at(n, 1, k);
    lemma_round_is(n, p, m);
}

/// An integer times a power of two is its own nearest value as long as the
/// integer takes no more than 53 bits.
proof fn lemma_nearest_short(m: nat, k: nat)
    requires
        0 < m < MANTISSA_HIGH,
        MANTISSA_LOW <= m * pow2(k),
    ensures
        nearest(m * pow2(k), 1) == m * pow2(k),
    decreases k,
{
    if m >= MANTISSA_LOW {
        lemma_nearest_exact(m, k);
    } else {
        if k == 0 {
            lemma2_to64();
        }
        let h = pow2((k - 1) as nat);
        lemma_pow2_unfold(k);
        assert(2 * m * h == m * pow2(k)) by (nonlinear_arith)
            requires
                pow2(k) == 2 * h,
        ;
        lemma_nearest_short(2 * m, (k - 1) as nat);
    }
}

/// An integer of no more than 53 bits is represented exactly.
pub proof fn lemma_of_int_exact(i: nat)
    requires
        i < MANTISSA_HIGH,
    ensures
        of_int(i) == Magnitude::Finite(i * unit()),
{
    if i == 0 {
        assert(0 * unit() == 0);
        assert(round_half_even(0, 1) == 0);
    } else {
        lemma2_to64();
        lemma2_to64_rest();
        lemma_pow2_strictly_increases(52, 1074);
        assert(MANTISSA_LOW <= i * unit()) by (nonlinear_arith)
            requires
                i >= 1,
                unit() >= MANTISSA_LOW,
        ;
        lemma_nearest_short(i, 1074);
    }
}

/// Rounding changes a quotient by no more than one part in `2^53`.
pub proof fn lemma_nearest_close(n: nat, d: nat)
    requires
        d > 0,
        d * MANTISSA_LOW <= n,
    ensures
        -n <= MANTISSA_HIGH * (nearest(n, d) * d - n) <= n,
    decreases
            (if n > d {
                n - d
            } else {
                0
            }),
{
    if n < d * MANTISSA_HIGH {
        lemma_round_near(n, d);
    } else {
        lemma_nearest_close(n, 2 * d);
        let v = nearest(n, 2 * d);
        assert(v * (2 * d) == (2 * v) * d) by (nonlinear_arith);
    }
}

/// What is too small next to a value is lost when it is added or taken away.
proof fn lemma_nearest_absorbs(m: nat, k: nat, t: nat)
    requires
        MANTISSA_LOW <= m < MANTISSA_HIGH,
        k >= 2,
        t < pow2((k - 2) as nat),
    ensures
        nearest(m * pow2(k) + t, 1) == m * pow2(k),
        nearest((m * pow2(k) - t) as nat, 1) == m * pow2(k),
{
    let p = pow2(k);
    let h = pow2((k - 1) as nat);
    let n = m * p;
    lemma_pow2_unfold(k);
    lemma_pow2_unfold((k - 1) as nat);
    lemma_pow2_pos((k - 2) as nat);
    assert(p * MANTISSA_LOW <= n && n + p <= p * MANTISSA_HIGH) by (nonlinear_arith)
        requires
            n == m * p,
            MANTISSA_LOW <= m < MANTISSA_HIGH,
            p > 0,
    ;
    lemma_nearest_at((n + t) as nat, 1, k);
    lemma_round_is((n + t) as nat, p, m);
    if t > 0 {
        if m > MANTISSA_LOW {
            assert(p * MANTISSA_LOW <= n - p) by (nonlinear_arith)
                requires
                    n == m * p,
                    MANTISSA_LOW < m,
                    p > 0,
            ;
            lemma_nearest_at((n - t) as nat, 1, k);
            lemma_round_is((n - t) as nat, p, m);
        } else {
            assert(n == h * MANTISSA_HIGH) by (nonlinear_arith)
                requires
                    n == MANTISSA_LOW * p,
                    p == 2 * h,
            ;
            assert(h * MANTISSA_LOW <= h * MANTISSA_HIGH - h) by (nonlinear_arith)
                requires
                    h > 0,
            ;
            lemma_nearest_at((n - t) as nat, 1, (k - 1) as nat);
            lemma_round_is((n - t) as nat, h, MANTISSA_HIGH as nat);
            assert(MANTISSA_HIGH * h == n) by (nonlinear_arith)
                requires
                    n == h * MANTISSA_HIGH,
            ;
        }
    }
}

/// An integer rounded to 53 significant bits, as a binary64 holds it.
pub fn round_to_53_bits(n: u128) -> (r: u128)
    requires
        n <= 0x20_0000_0000_0000_8000,
    ensures
        r == nearest(n as nat, 1),
        r <= 0x20_0000_0000_0000_0000,
        n < MANTISSA_HIGH ==> r == n,
{
    let mut p: u128 = 1;
    let ghost mut k: nat = 0;
    proof {
        lemma2_to64();
        lemma2_to64_rest();
    }
    while p * MANTISSA_HIGH as u128 <= n
        invariant
            n <= 0x20_0000_0000_0000_8000,
            1 <= p <= 0x2_0000,
            k <= 17,
            p == pow2(k),
            nearest(n as nat, 1) == p * nearest(n as nat, p as nat),
            n < MANTISSA_HIGH ==> p == 1,
        decreases 0x2_0000 - p,
    {
        proof {
            lemma2_to64();
            lemma_pow2_unfold(k + 1);
            assert(p * MANTISSA_HIGH == p * 0x20_0000_0000_0000);
            assert(k < 17);
            if k < 16 {
                lemma_pow2_strictly_increases(k, 16);
            }
            let v = nearest(n as nat, 2 * p as nat);
            assert(p * (2 * v) == 2 * p * v) by (nonlinear_arith);
            k = k + 1;
        }
        p = p * 2;
    }
    let q: u128 = n / p;
    let r: u128 = n % p;
    proof {
        lemma2_to64();
        lemma_fundamental_div_mod(n as int, p as int);
        assert(q < MANTISSA_HIGH) by (nonlinear_arith)
            requires
                n == p * q + r,
                r >= 0,
                n < p * MANTISSA_HIGH,
                p > 0,
        ;
        if k < 17 {
            if k < 16 {
                lemma_pow2_strictly_increases(k, 16);
            }
            assert(p <= 0x1_0000);
            assert((q + 1) * p <= 0x20_0000_0000_0000_0000) by (nonlinear_arith)
                requires
                    q + 1 <= 0x20_0000_0000_0000,
                    0 < p <= 0x1_0000,
            ;
            assert(q * p <= (q + 1) * p) by (nonlinear_arith)
                requires
                    p > 0,
            ;
        } else {
            assert(p == 0x2_0000);
            assert(n == 0x2_0000 * q + r);
            assert(q <= 0x10_0000_0000_0000);
        }
    }
    if 2 * r < p || (2 * r == p && q % 2 == 0) {
        proof {
            assert(p * q == q * p) by (nonlinear_arith);
        }
        q * p
    } else {
        proof {
            assert(p * (q + 1) == (q + 1) * p) by (nonlinear_arith);
        }
        (q + 1) * p
    }
}

/// A non-negative binary64.
#[derive(Clone, Copy)]
pub enum Binary64 {
    /// `mantissa * 2^exponent`.
    Finite { mantissa: u64, exponent: i32 },
    Infinite,
    NotANumber,
}

/// The exponent as a multiple of the smallest positive value.
pub open spec fn scale(exponent: i32) -> nat {
    (exponent + 1074) as nat
}

impl Binary64 {
    pub open spec fn view(&self) -> Magnitude {
        match *self {
            Binary64::Finite { mantissa, exponent } => Magnitude::Finite(
                mantissa as nat * pow2(scale(exponent)),
            ),
            Binary64::Infinite => Magnitude::Infinite,
            Binary64::NotANumber => Magnitude::NotANumber,
        }
    }

    /// Zero, or a normalised mantissa and an exponent in range.
    pub open spec fn wf(&self) -> bool {
        match *self {
            Binary64::Finite { mantissa, exponent } => {
                ||| mantissa == 0 && exponent == 0
                ||| MANTISSA_LOW <= mantissa < MANTISSA_HIGH && -1074 <= exponent <= 971
            },
            _ => true,
        }
    }

    /// The exponent lies between `-bound` and `bound`.
    pub open spec fn within(&self, bound: int) -> bool {
        match *self {
            Binary64::Finite { mantissa, exponent } => mantissa == 0 || -bound <= exponent <= bound,
            _ => true,
        }
    }

    /// A rounded mantissa, which may have reached `2^53`, with its exponent.
    fn settle(q: u64, exponent: i32) -> (r: Self)
        requires
            MANTISSA_LOW <= q <= MANTISSA_HIGH,
            -1074 <= exponent <= 970,
        ensures
            r.wf(),
            r@ == Magnitude::Finite(q as nat * pow2(scale(exponent))),
            r matches Binary64::Finite { mantissa: _, exponent: e } && exponent <= e <= exponent + 1,
    {
        if q < MANTISSA_HIGH {
            Binary64::Finite { mantissa: q, exponent }
        } else {
            proof {
                let p = pow2(scale(exponent));
                lemma_pow2_unfold(scale((exponent + 1) as i32));
                assert(MANTISSA_LOW as nat * (2 * p) == q as nat * p) by (nonlinear_arith)
                    requires
                        q == 2 * MANTISSA_LOW,
                ;
            }
            Binary64::Finite { mantissa: MANTISSA_LOW, exponent: exponent + 1 }
        }
    }

    /// The value nearest to `n * 2^exponent`.
    fn from_scaled(n: u128, exponent: i32) -> (r: Self)
        requires
            0 < n < 0x100_0000_0000_0000_0000_0000_0000_0000,
            -1000 <= exponent <= 850,
        ensures
            r.wf(),
            r@ == Magnitude::Finite(nearest(n as nat * pow2(scale(exponent)), 1)),
            r matches Binary64::Finite { mantissa: _, exponent: e } && exponent - 52 <= e <= exponent
                + 69,
    {
        let ghost s = scale(exponent);
        let ghost value = n as nat * pow2(s);
        proof {
            lemma2_to64();
            lemma_pow2_pos(s);
        }
        if n < MANTISSA_LOW as u128 {
            let mut m: u64 = n as u64;
            let mut e: i32 = exponent;
            while m < MANTISSA_LOW
                invariant
                    0 < m < MANTISSA_HIGH,
                    -1000 <= exponent <= 850,
                    e <= exponent,
                    value == m as nat * pow2(scale(e)),
                    pow2((exponent - e) as nat) <= m,
                    e < exponent ==> m <= 2 * MANTISSA_LOW,
                    exponent - e <= 52,
                decreases MANTISSA_HIGH - m,
            {
                proof {
                    lemma_pow2_unfold((exponent - e + 1) as nat);
                    lemma_pow2_unfold(scale(e));
                    let p = pow2(scale((e - 1) as i32));
                    assert(m as nat * (2 * p) == (2 * m) as nat * p) by (nonlinear_arith);
                    lemma2_to64();
                    lemma2_to64_rest();
                    if exponent - e >= 52 {
                        assert(pow2(52) == MANTISSA_LOW);
                        assert(exponent - e == 52);
                        assert(false);
                    }
                }
                m = m * 2;
                e = e - 1;
            }
            proof {
                lemma_nearest_exact(m as nat, scale(e));
            }
            Binary64::Finite { mantissa: m, exponent: e }
        } else {
            let mut p: u128 = 1;
            let mut k: i32 = 0;
            while n / p >= MANTISSA_HIGH as u128
                invariant
                    MANTISSA_LOW <= n < 0x100_0000_0000_0000_0000_0000_0000_0000,
                    0 <= k <= 68,
                    p == pow2(k as nat),
                    p > 0,
                    p * MANTISSA_LOW <= n,
                decreases n / p,
            {
                proof {
                    lemma_fundamental_div_mod(n as int, p as int);
                    assert(p * MANTISSA_HIGH <= n) by (nonlinear_arith)
                        requires
                            n == p * (n / p) + n % p,
                            n % p >= 0,
                            n / p >= MANTISSA_HIGH,
                            p > 0,
                    ;
                    lemma_pow2_unfold((k + 1) as nat);
                    assert(2 * p * MANTISSA_LOW == p * MANTISSA_HIGH) by (nonlinear_arith);
                    assert((n as int) / (2 * p) < (n as int) / (p as int)) by (nonlinear_arith)
                        requires
                            p > 0,
                            n / p >= MANTISSA_HIGH,
                            2 * p <= n,
                    ;
                    if k >= 67 {
                        lemma2_to64();
                        lemma2_to64_rest();
                        if k > 67 {
                            lemma_pow2_strictly_increases(67, k as nat);
                        }
                        lemma_pow2_adds(64, 3);
                        assert(pow2(67) == 0x8_0000_0000_0000_0000);
                        assert(p * MANTISSA_HIGH >= 0x100_0000_0000_0000_0000_0000_0000_0000)
                            by (nonlinear_arith)
                            requires
                                p >= 0x8_0000_0000_0000_0000,
                        ;
                        assert(false);
                    }
                }
                p = p * 2;
                k = k + 1;
            }
            let q: u64 = (n / p) as u64;
            let r: u128 = n % p;
            let up: bool = r > p - r || (r == p - r && q % 2 == 1);
            let m: u64 = if up {
                q + 1
            } else {
                q
            };
            proof {
                lemma_fundamental_div_mod(n as int, p as int);
                assert(n / p >= MANTISSA_LOW) by (nonlinear_arith)
                    requires
                        n == p * (n / p) + n % p,
                        n % p < p,
                        p * MANTISSA_LOW <= n,
                        p > 0,
                ;
                assert(n < p * MANTISSA_HIGH) by (nonlinear_arith)
                    requires
                        n == p * (n / p) + n % p,
                        n % p < p,
                        n / p < MANTISSA_HIGH,
                        p > 0,
                ;
                let pw = pow2(s);
                lemma_pow2_adds(k as nat, s);
                assert(k as nat + s == scale((exponent + k) as i32));
                let pk = pow2(k as nat + s);
                assert(pk * MANTISSA_LOW <= value < pk * MANTISSA_HIGH) by (nonlinear_arith)
                    requires
                        pk == p as nat * pw,
                        value == n as nat * pw,
                        p * MANTISSA_LOW <= n < p * MANTISSA_HIGH,
                        pw > 0,
                ;
                lemma_nearest_at(value, 1, k as nat + s);
                lemma_round_common_factor(n as nat, p as nat, pw);
                assert(1 * pk == p as nat * pw);
            }
            Binary64::settle(m, exponent + k)
        }
    }

    /// An integer as a binary64.
    pub fn from_u64(i: u64) -> (r: Self)
        ensures
            r.wf(),
            r@ == of_int(i as nat),
            r.within(70),
    {
        if i == 0 {
            proof {
                assert(0 * unit() == 0);
                assert(round_half_even(0, 1) == 0);
                assert(0 * pow2(scale(0i32)) == 0);
            }
            Binary64::Finite { mantissa: 0, exponent: 0 }
        } else {
            Binary64::from_scaled(i as u128, 0)
        }
    }

    /// `self / other`.
    pub fn div(self, other: Self) -> (r: Self)
        requires
            self.wf(),
            other.wf(),
            self.within(400),
            other.within(400),
        ensures
            r.wf(),
            r@ == quotient(self@, other@),
            forall|a: int, b: int|
                #[trigger] self.within(a) && #[trigger] other.within(b) ==> r.within(a + b + 54),
    {
        match (self, other) {
            (
                Binary64::Finite { mantissa: ma, exponent: ea },
                Binary64::Finite { mantissa: mb, exponent: eb },
            ) => {
                proof {
                    lemma_pow2_pos(scale(ea));
                    lemma_pow2_pos(scale(eb));
                    assert(ma > 0 ==> ma as nat * pow2(scale(ea)) > 0) by (nonlinear_arith)
                        requires
                            pow2(scale(ea)) > 0,
                    ;
                    assert(mb > 0 ==> mb as nat * pow2(scale(eb)) > 0) by (nonlinear_arith)
                        requires
                            pow2(scale(eb)) > 0,
                    ;
                    assert(0 * pow2(scale(ea)) == 0);
                    assert(0 * pow2(scale(eb)) == 0);
                }
                if mb == 0 {
                    if ma == 0 {
                        Binary64::NotANumber
                    } else {
                        Binary64::Infinite
                    }
                } else if ma == 0 {
                    proof {
                        let y = mb as nat * pow2(scale(eb));
                        assert(0 * unit() == 0);
                        assert(0nat / y == 0 && 0nat % y == 0) by (nonlinear_arith)
                            requires
                                y > 0,
                        ;
                        assert(y * MANTISSA_HIGH > 0);
                        assert(0 * pow2(scale(0i32)) == 0);
                    }
                    Binary64::Finite { mantissa: 0, exponent: 0 }
                } else {
                    let s: i32 = if ma >= mb {
                        52
                    } else {
                        53
                    };
                    proof {
                        assert(ma * MANTISSA_HIGH < 0x400_0000_0000_0000_0000_0000_0000) by (nonlinear_arith)
                            requires
                                ma < MANTISSA_HIGH,
                        ;
                    }
                    let n: u128 = if ma >= mb {
                        ma as u128 * MANTISSA_LOW as u128
                    } else {
                        ma as u128 * MANTISSA_HIGH as u128
                    };
                    let d: u128 = mb as u128;
                    proof {
                        lemma_fundamental_div_mod(n as int, d as int);
                        assert(d * MANTISSA_LOW <= n < d * MANTISSA_HIGH) by (nonlinear_arith)
                            requires
                                n == ma * MANTISSA_LOW && ma >= mb || n == ma * MANTISSA_HIGH && ma
                                    < mb,
                                d == mb,
                                MANTISSA_LOW <= ma < MANTISSA_HIGH,
                                MANTISSA_LOW <= mb < MANTISSA_HIGH,
                        ;
                        assert(MANTISSA_LOW <= n / d < MANTISSA_HIGH) by (nonlinear_arith)
                            requires
                                n == d * (n / d) + n % d,
                                0 <= n % d < d,
                                d * MANTISSA_LOW <= n < d * MANTISSA_HIGH,
                                d > 0,
                        ;
                    }
                    let q: u64 = (n / d) as u64;
                    let r: u128 = n % d;
                    let up: bool = r > d - r || (r == d - r && q % 2 == 1);
                    let m: u64 = if up {
                        q + 1
                    } else {
                        q
                    };
                    let e: i32 = ea - eb - s;
                    proof {
                        let x = ma as nat * pow2(scale(ea));
                        let y = mb as nat * pow2(scale(eb));
                        let k = scale(e);
                        let c = pow2(scale(eb) + k);
                        let two_s = pow2(s as nat);
                        lemma2_to64();
                        lemma2_to64_rest();
                        lemma_pow2_pos(scale(eb) + k);
                        lemma_pow2_adds(scale(eb), k);
                        lemma_pow2_adds(scale(ea), 1074);
                        lemma_pow2_adds(s as nat, scale(eb) + k);
                        assert(scale(ea) + 1074 == s as nat + (scale(eb) + k));
                        assert(n == ma * two_s);
                        assert(x * unit() == n as nat * c) by (nonlinear_arith)
                            requires
                                x == ma as nat * pow2(scale(ea)),
                                n == ma * two_s,
                                pow2(scale(ea)) * unit() == two_s * c,
                        ;
                        assert(y * pow2(k) == d as nat * c) by (nonlinear_arith)
                            requires
                                y == d as nat * pow2(scale(eb)),
                                c == pow2(scale(eb)) * pow2(k),
                        ;
                        assert(y * pow2(k) * MANTISSA_LOW <= x * unit() < y * pow2(k) * MANTISSA_HIGH)
                            by (nonlinear_arith)
                            requires
                                x * unit() == n as nat * c,
                                y * pow2(k) == d as nat * c,
                                d * MANTISSA_LOW <= n < d * MANTISSA_HIGH,
                                c > 0,
                        ;
                        lemma_nearest_at(x * unit(), y, k);
                        lemma_round_common_factor(n as nat, d as nat, c);
                    }
                    Binary64::settle(m, e)
                }
            },
            (Binary64::Finite { .. }, Binary64::Infinite) => {
                proof {
                    assert(0 * pow2(scale(0i32)) == 0);
                }
                Binary64::Finite { mantissa: 0, exponent: 0 }
            },
            (Binary64::Infinite, Binary64::Finite { .. }) => Binary64::Infinite,
            _ => Binary64::NotANumber,
        }
    }

    /// `self * other`.
    pub fn mul(self, other: Self) -> (r: Self)
        requires
            self.wf(),
            other.wf(),
            self.within(400),
            other.within(400),
        ensures
            r.wf(),
            r@ == product(self@, other@),
            forall|a: int, b: int|
                #[trigger] self.within(a) && #[trigger] other.within(b) ==> r.within(a + b + 69),
    {
        match (self, other) {
            (
                Binary64::Finite { mantissa: ma, exponent: ea },
                Binary64::Finite { mantissa: mb, exponent: eb },
            ) => {
                let ghost x = ma as nat * pow2(scale(ea));
                let ghost y = mb as nat * pow2(scale(eb));
                proof {
                    lemma_pow2_pos(1074);
                }
                if ma == 0 || mb == 0 {
                    proof {
                        assert(x * y == 0) by (nonlinear_arith)
                            requires
                                x == ma as nat * pow2(scale(ea)),
                                y == mb as nat * pow2(scale(eb)),
                                ma == 0 || mb == 0,
                        ;
                        let u = unit();
                        assert(0nat / u == 0 && 0nat % u == 0) by (nonlinear_arith)
                            requires
                                u > 0,
                        ;
                        assert(u * MANTISSA_HIGH > 0);
                        assert(0 * pow2(scale(0i32)) == 0);
                    }
                    Binary64::Finite { mantissa: 0, exponent: 0 }
                } else {
                    proof {
                        assert(0 < ma * mb < 0x400_0000_0000_0000_0000_0000_0000) by (nonlinear_arith)
                            requires
                                0 < ma < MANTISSA_HIGH,
                                0 < mb < MANTISSA_HIGH,
                        ;
                        let e = (ea + eb) as i32;
                        let z = (ma * mb) as nat * pow2(scale(e));
                        lemma_pow2_adds(scale(ea), scale(eb));
                        lemma_pow2_adds(scale(e), 1074);
                        assert(scale(ea) + scale(eb) == scale(e) + 1074);
                        assert(x * y == z * unit()) by (nonlinear_arith)
                            requires
                                x == ma as nat * pow2(scale(ea)),
                                y == mb as nat * pow2(scale(eb)),
                                z == (ma * mb) as nat * pow2(scale(e)),
                                pow2(scale(ea)) * pow2(scale(eb)) == pow2(scale(e)) * unit(),
                        ;
                        lemma_nearest_common_factor(z, 1, unit());
                    }
                    Binary64::from_scaled(ma as u128 * mb as u128, ea + eb)
                }
            },
            (Binary64::Finite { mantissa, exponent }, Binary64::Infinite)
            | (Binary64::Infinite, Binary64::Finite { mantissa, exponent }) => {
                proof {
                    lemma_pow2_pos(scale(exponent));
                    assert((mantissa == 0) == (mantissa as nat * pow2(scale(exponent)) == 0))
                        by (nonlinear_arith)
                        requires
                            pow2(scale(exponent)) > 0,
                    ;
                }
                if mantissa == 0 {
                    Binary64::NotANumber
                } else {
                    Binary64::Infinite
                }
            },
            (Binary64::Infinite, Binary64::Infinite) => Binary64::Infinite,
            _ => Binary64::NotANumber,
        }
    }

    /// `m * 2^k`.
    fn shifted(m: u64, k: u32) -> (n: u128)
        requires
            m < MANTISSA_HIGH,
            k <= 64,
        ensures
            n == m * pow2(k as nat),
            n < 0x40_0000_0000_0000_0000_0000_0000_0000,
    {
        let mut n: u128 = m as u128;
        let mut i: u32 = 0;
        proof {
            lemma2_to64();
        }
        while i < k
            invariant
                i <= k <= 64,
                m < MANTISSA_HIGH,
                n == m * pow2(i as nat),
                n < 0x20_0000_0000_0000 * pow2(i as nat),
            decreases k - i,
        {
            proof {
                lemma_pow2_unfold((i + 1) as nat);
                let p = pow2(i as nat);
                assert(m * (2 * p) == 2 * (m * p)) by (nonlinear_arith);
                lemma2_to64();
                if i < 64 {
                    lemma_pow2_strictly_increases(i as nat, 64);
                }
            }
            n = n * 2;
            i = i + 1;
        }
        proof {
            lemma2_to64();
            if k < 64 {
                lemma_pow2_strictly_increases(k as nat, 64);
            }
        }
        n
    }

    /// The larger value is `big`; `small` is added to it or taken from it.
    fn combine(big: (u64, i32), small: (u64, i32), add: bool) -> (r: Self)
        requires
            MANTISSA_LOW <= big.0 < MANTISSA_HIGH,
            MANTISSA_LOW <= small.0 < MANTISSA_HIGH,
            -900 <= small.1 <= big.1 <= 780,
            small.1 == big.1 ==> small.0 <= big.0,
        ensures
            r.wf(),
            ({
                let x = big.0 as nat * pow2(scale(big.1));
                let y = small.0 as nat * pow2(scale(small.1));
                r@ == Magnitude::Finite(
                    nearest(
                        if add {
                            x + y
                        } else {
                            (x - y) as nat
                        },
                        1,
                    ),
                )
            }),
            r matches Binary64::Finite { mantissa, exponent } && (mantissa == 0 || small.1 - 52
                <= exponent <= small.1 + 69 || exponent == big.1),
    {
        let gap: u32 = (big.1 - small.1) as u32;
        let ghost x = big.0 as nat * pow2(scale(big.1));
        let ghost y = small.0 as nat * pow2(scale(small.1));
        if gap <= 64 {
            let n: u128 = Binary64::shifted(big.0, gap);
            proof {
                lemma_pow2_adds(gap as nat, scale(small.1));
                let p = pow2(scale(small.1));
                lemma_pow2_pos(scale(small.1));
                assert(x == n as nat * p) by (nonlinear_arith)
                    requires
                        x == big.0 as nat * (pow2(gap as nat) * p),
                        n == big.0 * pow2(gap as nat),
                ;
                lemma2_to64();
                if gap > 0 {
                    lemma_pow2_unfold(gap as nat);
                    lemma_pow2_pos((gap - 1) as nat);
                    assert(n >= 2 * MANTISSA_LOW) by (nonlinear_arith)
                        requires
                            n == big.0 * pow2(gap as nat),
                            pow2(gap as nat) >= 2,
                            big.0 >= MANTISSA_LOW,
                    ;
                }
                assert((n + small.0) as nat * p == x + y) by (nonlinear_arith)
                    requires
                        x == n as nat * p,
                        y == small.0 as nat * p,
                ;
                assert((n - small.0) * p == x - y) by (nonlinear_arith)
                    requires
                        x == n as nat * p,
                        y == small.0 as nat * p,
                ;
            }
            if add {
                Binary64::from_scaled(n + small.0 as u128, small.1)
            } else if n == small.0 as u128 {
                proof {
                    assert(x == y);
                    assert(round_half_even(0, 1) == 0);
                    assert(0 * pow2(scale(0i32)) == 0);
                }
                Binary64::Finite { mantissa: 0, exponent: 0 }
            } else {
                Binary64::from_scaled(n - small.0 as u128, small.1)
            }
        } else {
            proof {
                let p = pow2(scale(small.1));
                lemma2_to64();
                lemma2_to64_rest();
                lemma_pow2_adds(53, scale(small.1));
                lemma_pow2_pos(scale(small.1));
                assert(y < pow2(53 + scale(small.1))) by (nonlinear_arith)
                    requires
                        y == small.0 as nat * p,
                        pow2(53 + scale(small.1)) == pow2(53) * p,
                        pow2(53) == MANTISSA_HIGH,
                        small.0 < MANTISSA_HIGH,
                        p > 0,
                ;
                lemma_pow2_strictly_increases(53 + scale(small.1), (scale(big.1) - 2) as nat);
                lemma_nearest_absorbs(big.0 as nat, scale(big.1), y);
            }
            Binary64::Finite { mantissa: big.0, exponent: big.1 }
        }
    }

    /// A finite value is its own nearest value.
    proof fn lemma_own_nearest(mantissa: u64, exponent: i32)
        requires
            (Binary64::Finite { mantissa, exponent }).wf(),
        ensures
            nearest(mantissa as nat * pow2(scale(exponent)), 1) == mantissa as nat * pow2(
                scale(exponent),
            ),
    {
        if mantissa == 0 {
            assert(0 * pow2(scale(exponent)) == 0);
            assert(round_half_even(0, 1) == 0);
        } else {
            lemma_nearest_exact(mantissa as nat, scale(exponent));
        }
    }

    /// Normalised values are ordered by exponent, then by mantissa.
    proof fn lemma_order(ma: u64, ea: i32, mb: u64, eb: i32)
        requires
            MANTISSA_LOW <= ma < MANTISSA_HIGH,
            MANTISSA_LOW <= mb < MANTISSA_HIGH,
            -1074 <= ea,
            -1074 <= eb,
        ensures
            (ma as nat * pow2(scale(ea)) < mb as nat * pow2(scale(eb))) <==> (ea < eb || ea == eb && ma
                < mb),
    {
        let p = pow2(scale(ea));
        let q = pow2(scale(eb));
        lemma_pow2_pos(scale(ea));
        lemma_pow2_pos(scale(eb));
        if ea == eb {
            assert((ma as nat * p < mb as nat * p) <==> ma < mb) by (nonlinear_arith)
                requires
                    p > 0,
            ;
        } else if ea < eb {
            lemma_pow2_unfold(scale(eb));
            if scale(ea) < scale(eb) - 1 {
                lemma_pow2_strictly_increases(scale(ea), (scale(eb) - 1) as nat);
            }
            assert(ma as nat * p < mb as nat * q) by (nonlinear_arith)
                requires
                    q >= 2 * p,
                    p > 0,
                    ma < MANTISSA_HIGH,
                    mb >= MANTISSA_LOW,
            ;
        } else {
            lemma_pow2_unfold(scale(ea));
            if scale(eb) < scale(ea) - 1 {
                lemma_pow2_strictly_increases(scale(eb), (scale(ea) - 1) as nat);
            }
            assert(mb as nat * q < ma as nat * p) by (nonlinear_arith)
                requires
                    p >= 2 * q,
                    q > 0,
                    mb < MANTISSA_HIGH,
                    ma >= MANTISSA_LOW,
            ;
        }
    }

    /// `self < other`.
    pub fn less_than(self, other: Self) -> (r: bool)
        requires
            self.wf(),
            other.wf(),
        ensures
            r == below(self@, other@),
    {
        match (self, other) {
            (
                Binary64::Finite { mantissa: ma, exponent: ea },
                Binary64::Finite { mantissa: mb, exponent: eb },
            ) => {
                proof {
                    lemma_pow2_pos(scale(ea));
                    lemma_pow2_pos(scale(eb));
                    assert((ma == 0) == (ma as nat * pow2(scale(ea)) == 0)) by (nonlinear_arith)
                        requires
                            pow2(scale(ea)) > 0,
                    ;
                    assert((mb == 0) == (mb as nat * pow2(scale(eb)) == 0)) by (nonlinear_arith)
                        requires
                            pow2(scale(eb)) > 0,
                    ;
                    if ma != 0 && mb != 0 {
                        Binary64::lemma_order(ma, ea, mb, eb);
                    }
                }
                if mb == 0 {
                    false
                } else if ma == 0 {
                    true
                } else {
                    ea < eb || (ea == eb && ma < mb)
                }
            },
            (Binary64::Finite { .. }, Binary64::Infinite) => true,
            _ => false,
        }
    }

    /// `|self - other|`.
    pub fn abs_diff(self, other: Self) -> (r: Self)
        requires
            self.wf(),
            other.wf(),
            self.within(700),
            other.within(700),
        ensures
            r.wf(),
            r@ == distance(self@, other@),
            forall|a: int| #[trigger] self.within(a) && other.within(a) ==> r.within(a + 69),
    {
        match (self, other) {
            (
                Binary64::Finite { mantissa: ma, exponent: ea },
                Binary64::Finite { mantissa: mb, exponent: eb },
            ) => {
                proof {
                    Binary64::lemma_own_nearest(ma, ea);
                    Binary64::lemma_own_nearest(mb, eb);
                    assert(0 * pow2(scale(ea)) == 0);
                    assert(0 * pow2(scale(eb)) == 0);
                    if ma != 0 && mb != 0 {
                        Binary64::lemma_order(ma, ea, mb, eb);
                        Binary64::lemma_order(mb, eb, ma, ea);
                    }
                }
                if mb == 0 {
                    self
                } else if ma == 0 {
                    other
                } else if ea < eb || (ea == eb && ma < mb) {
                    Binary64::combine((mb, eb), (ma, ea), false)
                } else {
                    Binary64::combine((ma, ea), (mb, eb), false)
                }
            },
            (Binary64::Finite { .. }, Binary64::Infinite) => Binary64::Infinite,
            (Binary64::Infinite, Binary64::Finite { .. }) => Binary64::Infinite,
            _ => Binary64::NotANumber,
        }
    }

    /// `self + other`.
    pub fn plus(self, other: Self) -> (r: Self)
        requires
            self.wf(),
            other.wf(),
            self.within(700),
            other.within(700),
        ensures
            r.wf(),
            r@ == total(self@, other@),
            forall|a: int| #[trigger] self.within(a) && other.within(a) ==> r.within(a + 69),
    {
        match (self, other) {
            (
                Binary64::Finite { mantissa: ma, exponent: ea },
                Binary64::Finite { mantissa: mb, exponent: eb },
            ) => {
                proof {
                    Binary64::lemma_own_nearest(ma, ea);
                    Binary64::lemma_own_nearest(mb, eb);
                    assert(0 * pow2(scale(ea)) == 0);
                    assert(0 * pow2(scale(eb)) == 0);
                }
                if mb == 0 {
                    self
                } else if ma == 0 {
                    other
                } else if ea < eb || (ea == eb && ma < mb) {
                    Binary64::combine((mb, eb), (ma, ea), true)
                } else {
                    Binary64::combine((ma, ea), (mb, eb), true)
                }
            },
            (Binary64::NotANumber, _) => Binary64::NotANumber,
            (_, Binary64::NotANumber) => Binary64::NotANumber,
            _ => Binary64::Infinite,
        }
    }

    /// `self` rounded to the nearest integer, ties away from zero, and no more
    /// than `limit`; zero for not-a-number.
    pub fn round_to_u64(self, limit: u64) -> (r: u64)
        requires
            self.wf(),
        ensures
            r == to_int(self@, limit as nat),
    {
        match self {
            Binary64::Finite { mantissa, exponent } => {
                let ghost x = mantissa as nat * pow2(scale(exponent));
                let ghost u = unit();
                let ghost exact = (2 * x + u) / (2 * u);
                proof {
                    lemma2_to64();
                    lemma2_to64_rest();
                    lemma_pow2_pos(1074);
                }
                if exponent >= 0 {
                    proof {
                        lemma_pow2_adds(exponent as nat, 1074);
                        let p = pow2(exponent as nat);
                        lemma_pow2_pos(exponent as nat);
                        assert(2 * x + u == (mantissa as nat * p) * (2 * u) + u) by (nonlinear_arith)
                            requires
                                x == mantissa as nat * (p * u),
                        ;
                        lemma_fundamental_div_mod_converse(
                            (2 * x + u) as int,
                            (2 * u) as int,
                            (mantissa as nat * p) as int,
                            u as int,
                        );
                        assert(exact == mantissa as nat * p);
                        if exponent > 64 {
                            lemma_pow2_strictly_increases(64, exponent as nat);
                            assert(mantissa != 0);
                            assert(exact > 0xffff_ffff_ffff_ffff) by (nonlinear_arith)
                                requires
                                    exact == mantissa as nat * p,
                                    mantissa > 0,
                                    p > 0xffff_ffff_ffff_ffff,
                            ;
                        }
                    }
                    if exponent > 64 {
                        limit
                    } else {
                        let n: u128 = Binary64::shifted(mantissa, exponent as u32);
                        if n <= limit as u128 {
                            n as u64
                        } else {
                            limit
                        }
                    }
                } else {
                    let shift: u32 = (-exponent) as u32;
                    let ghost t = pow2(shift as nat);
                    let ghost v = pow2(scale(exponent));
                    proof {
                        lemma_pow2_adds(shift as nat, scale(exponent));
                        lemma_pow2_pos(shift as nat);
                        lemma_pow2_pos(scale(exponent));
                        assert(u == t * v);
                    }
                    if shift > 60 {
                        proof {
                            lemma_pow2_strictly_increases(54, shift as nat);
                            assert(2 * x + u < 2 * u) by (nonlinear_arith)
                                requires
                                    x == mantissa as nat * v,
                                    u == t * v,
                                    mantissa < MANTISSA_HIGH,
                                    t > 0x40_0000_0000_0000,
                                    v > 0,
                            ;
                            lemma_fundamental_div_mod_converse(
                                (2 * x + u) as int,
                                (2 * u) as int,
                                0,
                                (2 * x + u) as int,
                            );
                        }
                        0
                    } else {
                        let half: u128 = Binary64::shifted(1, shift - 1);
                        let n: u128 = mantissa as u128 + half;
                        let i: u128 = n / (2 * half);
                        proof {
                            lemma_pow2_unfold(shift as nat);
                            assert(2 * half == t);
                            lemma_fundamental_div_mod(n as int, t as int);
                            let rem = n as int % t as int;
                            assert(2 * x + u == (2 * n as int) * v) by (nonlinear_arith)
                                requires
                                    x == mantissa as nat * v,
                                    u == t * v,
                                    t == 2 * half,
                                    n == mantissa + half,
                            ;
                            assert((2 * n as int) * v == i as int * (2 * u) + 2 * rem * v) by (nonlinear_arith)
                                requires
                                    n == t * i as int + rem,
                                    u == t * v,
                            ;
                            assert(0 <= 2 * rem * v < 2 * u) by (nonlinear_arith)
                                requires
                                    0 <= rem < t,
                                    v > 0,
                                    u == t * v,
                            ;
                            lemma_fundamental_div_mod_converse(
                                (2 * x + u) as int,
                                (2 * u) as int,
                                i as int,
                                2 * rem * v,
                            );
                        }
                        if i <= limit as u128 {
                            i as u64
                        } else {
                            limit
                        }
                    }
                }
            },
            Binary64::Infinite => limit,
            Binary64::NotANumber => 0,
        }
    }
}

/// A value is rounded to the integer nearest to it, and upwards where two are as
/// near; it is cut off at the limit.
pub proof fn law_rounded_to_nearest(x: nat, limit: nat)
    ensures
        ({
            let i = to_int(Magnitude::Finite(x), limit);
            &&& i <= limit
            &&& 2 * (i * unit()) <= 2 * x + unit()
            &&& i < limit ==> 2 * x + unit() < 2 * ((i + 1) * unit())
        }),
        to_int(Magnitude::Infinite, limit) == limit,
        to_int(Magnitude::NotANumber, limit) == 0,
{
    let u = unit();
    lemma_pow2_pos(1074);
    let n = (2 * x + u) / (2 * u);
    assert(2 * (n * u) <= 2 * x + u < 2 * ((n + 1) * u)) by (nonlinear_arith)
        requires
            n == (2 * x + u) / (2 * u),
            u > 0,
    ;
    assert(limit <= n ==> limit * u <= n * u) by (nonlinear_arith);
}

/// The nearest value is as near as any: for quotients that are not larger than a
/// mantissa it is the integer within a half, the even one of two.
pub proof fn law_nearest_integer(n: nat, d: nat)
    requires
        d > 0,
        n < d * MANTISSA_HIGH,
    ensures
        ({
            let q = nearest(n, d);
            &&& -d <= 2 * (n - q * d) <= d
            &&& 2 * (n - q * d) == d || 2 * (n - q * d) == -d ==> q % 2 == 0
        }),
{
    lemma_round_near(n, d);
}

/// How operations treat what is not finite: a value over zero is infinite, zero
/// over zero is not a number, and nothing is below or above that.
pub proof fn law_not_finite(x: nat, a: Magnitude)
    ensures
        ({
            let zero = Magnitude::Finite(0);
            let finite = Magnitude::Finite(x);
            &&& quotient(zero, zero) is NotANumber
            &&& x > 0 ==> quotient(finite, zero) is Infinite
            &&& quotient(finite, Magnitude::Infinite) == zero
            &&& quotient(Magnitude::Infinite, Magnitude::Infinite) is NotANumber
            &&& product(zero, Magnitude::Infinite) is NotANumber
            &&& x > 0 ==> product(finite, Magnitude::Infinite) is Infinite
            &&& below(finite, Magnitude::Infinite)
            &&& !below(Magnitude::Infinite, a)
            &&& !below(Magnitude::NotANumber, a) && !below(a, Magnitude::NotANumber)
            &&& distance(finite, Magnitude::Infinite) is Infinite
            &&& distance(a, Magnitude::NotANumber) is NotANumber
            &&& total(a, Magnitude::NotANumber) is NotANumber
            &&& total(finite, Magnitude::Infinite) is Infinite
        }),
{
}

/// Values are ordered by their size, and a distance is the same both ways.
pub proof fn law_order_and_distance(x: nat, y: nat)
    ensures
        below(Magnitude::Finite(x), Magnitude::Finite(y)) <==> x < y,
        distance(Magnitude::Finite(x), Magnitude::Finite(y)) == distance(
            Magnitude::Finite(y),
            Magnitude::Finite(x),
        ),
        x <= y < x + MANTISSA_HIGH ==> distance(Magnitude::Finite(x), Magnitude::Finite(y))
            == Magnitude::Finite((y - x) as nat),
        x + y < MANTISSA_HIGH ==> total(Magnitude::Finite(x), Magnitude::Finite(y))
            == Magnitude::Finite(x + y),
{
}

/// An integer of no more than 53 bits times a power of two is its own nearest
/// value.
pub proof fn lemma_nearest_power(m: nat, k: nat)
    requires
        m < MANTISSA_HIGH,
        k >= 52,
    ensures
        nearest(m * pow2(k), 1) == m * pow2(k),
{
    if m == 0 {
        assert(0 * pow2(k) == 0);
        assert(round_half_even(0, 1) == 0);
    } else {
        lemma2_to64();
        lemma2_to64_rest();
        if k > 52 {
            lemma_pow2_strictly_increases(52, k);
        }
        assert(MANTISSA_LOW <= m * pow2(k)) by (nonlinear_arith)
            requires
                m >= 1,
                pow2(k) >= MANTISSA_LOW,
        ;
        lemma_nearest_short(m, k);
    }
}

} // verus!
