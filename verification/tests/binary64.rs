use osxrdp::binary64::{round_to_53_bits, Binary64};

fn to_f64(b: Binary64) -> f64 {
    match b {
        Binary64::Finite { mantissa, exponent } => mantissa as f64 * 2f64.powi(exponent),
        Binary64::Infinite => f64::INFINITY,
        Binary64::NotANumber => f64::NAN,
    }
}

fn same(b: Binary64, x: f64) -> bool {
    let y = to_f64(b);
    (x.is_nan() && y.is_nan()) || x == y
}

fn numbers() -> Vec<u64> {
    let mut v = vec![
        0,
        1,
        2,
        3,
        5,
        7,
        10,
        50,
        255,
        768,
        1000,
        1080,
        1920,
        65535,
        65536,
        (1 << 32) - 1,
        (1 << 53) - 1,
        1 << 53,
        (1 << 53) + 1,
        (1 << 53) + 2,
        (1 << 53) + 3,
        (1 << 54) + 2,
        u64::MAX - 1024,
        u64::MAX - 1,
        u64::MAX,
    ];
    let mut x: u64 = 0x9e37_79b9_7f4a_7c15;
    for i in 0..40 {
        x ^= x << 13;
        x ^= x >> 7;
        x ^= x << 17;
        v.push(x >> (i % 61));
    }
    v
}

#[test]
fn integers_round_as_hardware_does() {
    for n in numbers() {
        assert!(same(Binary64::from_u64(n), n as f64), "{n}");
    }
}

#[test]
fn arithmetic_rounds_as_hardware_does() {
    for a in numbers() {
        for b in numbers() {
            let (x, y) = (Binary64::from_u64(a), Binary64::from_u64(b));
            let (p, q) = (a as f64, b as f64);
            assert!(same(x.div(y), p / q), "{a} / {b}");
            assert!(same(x.mul(y), p * q), "{a} * {b}");
            assert!(same(x.abs_diff(y), (p - q).abs()), "|{a} - {b}|");
            assert!(same(x.plus(y), p + q), "{a} + {b}");
            assert_eq!(x.less_than(y), p < q, "{a} < {b}");
        }
    }
}

#[test]
fn chained_operations_round_as_hardware_does() {
    let ns = numbers();
    for (i, &a) in ns.iter().enumerate() {
        for &b in &ns {
            let c = ns[(i * 7 + 3) % ns.len()];
            let (x, y, z) = (Binary64::from_u64(a), Binary64::from_u64(b), Binary64::from_u64(c));
            let (p, q, r) = (a as f64, b as f64, c as f64);
            let (u, s) = (x.div(y), p / q);
            let (v, t) = (z.div(y), r / q);
            assert!(same(u.abs_diff(v), (s - t).abs()), "{a} {b} {c}");
            assert!(same(u.plus(v), s + t), "{a} {b} {c}");
            assert!(same(z.mul(u), r * s), "{a} {b} {c}");
            assert!(same(z.div(u), r / s), "{a} {b} {c}");
            assert_eq!(u.less_than(v), s < t, "{a} {b} {c}");
        }
    }
}

#[test]
fn fractions_are_the_literals() {
    let one = Binary64::from_u64(1);
    assert!(same(one.div(Binary64::from_u64(1000)), 0.001));
    assert!(same(one.div(Binary64::from_u64(50)), 0.02));
    assert!(same(one.div(Binary64::from_u64(4)), 0.25));
}

#[test]
fn rounding_to_integers_goes_half_away_from_zero() {
    let ns = numbers();
    for &a in &ns {
        for &b in &ns {
            let x = Binary64::from_u64(a).div(Binary64::from_u64(b));
            let f = (a as f64 / b as f64).round();
            assert_eq!(x.round_to_u64(u64::MAX), f as u64, "{a} / {b}");
            assert_eq!(x.round_to_u64(65535), f as u16 as u64, "{a} / {b}");
        }
    }
    assert_eq!(Binary64::from_u64(5).div(Binary64::from_u64(2)).round_to_u64(100), 3);
    assert_eq!(Binary64::from_u64(3).div(Binary64::from_u64(2)).round_to_u64(1), 1);
}

#[test]
fn rounding_to_53_bits() {
    for n in numbers() {
        assert_eq!(round_to_53_bits(n as u128), (n as f64) as u128, "{n}");
    }
    let limit: u128 = 1 << 69;
    for d in [0u128, 1, 32767, 32768] {
        assert_eq!(round_to_53_bits(limit + d), (limit + d) as f64 as u128);
        assert_eq!(round_to_53_bits(limit - d), (limit - d) as f64 as u128);
    }
}
