//! The numeric theory against the machine's own floats: the bit-level
//! comparisons and the integer-to-float conversion must agree with what the
//! hardware computes.

use dt_core::numerics::{f64_eq, f64_le, f64_lt, i64_to_bits};

fn check_pair(a: f64, b: f64) {
    let (x, y) = (a.to_bits(), b.to_bits());
    assert_eq!(f64_eq(x, y), a == b, "eq on {a} {b}");
    assert_eq!(f64_lt(x, y), a < b, "lt on {a} {b}");
    assert_eq!(f64_le(x, y), a <= b, "le on {a} {b}");
}

#[test]
fn comparisons_agree_with_hardware() {
    let samples: [f64; 14] = [
        0.0,
        -0.0,
        1.0,
        -1.0,
        1.5,
        0.1,
        -3.4e5,
        5e-324,
        -5e-324,
        1.7976931348623157e308,
        f64::INFINITY,
        f64::NEG_INFINITY,
        f64::NAN,
        9007199254740992.0,
    ];
    for &a in samples.iter() {
        for &b in samples.iter() {
            check_pair(a, b);
        }
    }
}

#[test]
fn nan_compares_with_nothing() {
    let n = f64::NAN.to_bits();
    assert!(!f64_eq(n, n));
    assert!(!f64_lt(n, n));
    assert!(!f64_le(n, n));
    let one = 1.0f64.to_bits();
    assert!(!f64_lt(n, one));
    assert!(!f64_lt(one, n));
}

#[test]
fn zero_signs_are_equal() {
    assert!(f64_eq(0.0f64.to_bits(), (-0.0f64).to_bits()));
    assert!(!f64_lt((-0.0f64).to_bits(), 0.0f64.to_bits()));
    assert!(f64_le((-0.0f64).to_bits(), 0.0f64.to_bits()));
}

#[test]
fn conversion_agrees_with_hardware() {
    let samples: [i64; 16] = [
        0,
        1,
        -1,
        2,
        7,
        1023,
        -4096,
        9007199254740992,  // 2^53
        9007199254740993,  // 2^53 + 1: rounds to even
        9007199254740995,  // rounds up
        -9007199254740993,
        4611686018427387904,
        6917529027641081857,
        i64::MAX,
        i64::MIN,
        i64::MIN + 1,
    ];
    for &n in samples.iter() {
        assert_eq!(
            i64_to_bits(n),
            (n as f64).to_bits(),
            "conversion of {n} disagrees with the hardware"
        );
    }
}

#[test]
fn exact_small_integers() {
    for n in -2000i64..2000i64 {
        assert_eq!(i64_to_bits(n), (n as f64).to_bits());
    }
}
