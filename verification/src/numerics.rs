//! The numeric side of the value model. A 64-bit float is carried as its
//! IEEE-754 bit pattern, and this module gives those patterns a mathematical
//! reading: every finite pattern denotes an integer multiple of 2^-1074, and
//! `f_key` maps each non-NaN pattern to that multiple (scaled by 2^1074, with
//! the infinities beyond every finite value), so that the float comparisons
//! of the language are integer comparisons of keys.

use vstd::prelude::*;
use vstd::arithmetic::power2::*;
use vstd::arithmetic::mul::*;
use vstd::arithmetic::div_mod::*;

verus! {

/// 2^52: the weight of the exponent field, and the implicit mantissa bit.
pub const TWO52: u64 = 0x10_0000_0000_0000;

/// 2^53: the first mantissa value that no longer fits in 52 stored bits.
pub const TWO53: u64 = 0x20_0000_0000_0000;

/// The sign bit of a 64-bit float pattern.
pub const SIGN_BIT: u64 = 0x8000_0000_0000_0000;

/// The all-ones exponent field, marking an infinity or a NaN.
pub const EXP_TOP: u64 = 0x7ff;

/// True when the pattern's sign bit is set.
pub open spec fn f_sign(b: u64) -> bool {
    b >= SIGN_BIT
}

/// The pattern with the sign bit cleared.
pub open spec fn f_abs(b: u64) -> int {
    if b >= SIGN_BIT {
        b - SIGN_BIT
    } else {
        b as int
    }
}

/// The 11-bit exponent field.
pub open spec fn f_exp(b: u64) -> int {
    f_abs(b) / (TWO52 as int)
}

/// The 52-bit stored mantissa field.
pub open spec fn f_frac(b: u64) -> int {
    f_abs(b) % (TWO52 as int)
}

pub open spec fn f_is_nan(b: u64) -> bool {
    f_exp(b) == EXP_TOP && f_frac(b) != 0
}

pub open spec fn f_is_inf(b: u64) -> bool {
    f_exp(b) == EXP_TOP && f_frac(b) == 0
}

/// The magnitude a finite (exponent, mantissa) pair denotes, in units of
/// 2^-1074: a subnormal is its mantissa, a normal adds the implicit bit and
/// scales by its exponent.
pub open spec fn mag(e: int, f: int) -> int {
    if e == 0 {
        f
    } else {
        (f + TWO52) * pow2((e - 1) as nat)
    }
}

/// The magnitude extended to the infinities, which sit beyond every finite
/// magnitude.
pub open spec fn f_em(b: u64) -> int {
    if f_exp(b) == EXP_TOP {
        pow2(2200) as int
    } else {
        mag(f_exp(b), f_frac(b))
    }
}

/// The signed key of a non-NaN pattern: integer order on keys is exactly the
/// IEEE-754 order on the floats, and equal keys mean IEEE-754 equality
/// (so both zeros share the key 0).
pub open spec fn f_key(b: u64) -> int {
    if f_sign(b) {
        -f_em(b)
    } else {
        f_em(b)
    }
}

/// IEEE-754 equality of two patterns: false on any NaN, blind to the sign of
/// zero.
pub open spec fn f_eq_spec(a: u64, b: u64) -> bool {
    !f_is_nan(a) && !f_is_nan(b) && f_key(a) == f_key(b)
}

/// IEEE-754 strict order: false on any NaN.
pub open spec fn f_lt_spec(a: u64, b: u64) -> bool {
    !f_is_nan(a) && !f_is_nan(b) && f_key(a) < f_key(b)
}

/// IEEE-754 non-strict order: false on any NaN.
pub open spec fn f_le_spec(a: u64, b: u64) -> bool {
    !f_is_nan(a) && !f_is_nan(b) && f_key(a) <= f_key(b)
}

/// The exponent and mantissa fields tile the unsigned part of the pattern.
pub proof fn lemma_fields(b: u64)
    ensures
        f_abs(b) == f_exp(b) * (TWO52 as int) + f_frac(b),
        0 <= f_frac(b) < TWO52,
        0 <= f_exp(b) <= EXP_TOP,
        0 <= f_abs(b) < SIGN_BIT,
{
    lemma_fundamental_div_mod(f_abs(b), TWO52 as int);
    assert(f_abs(b) < SIGN_BIT);
    assert(f_exp(b) <= EXP_TOP) by {
        if f_exp(b) > EXP_TOP {
            lemma_mul_inequality(0x800, f_exp(b), TWO52 as int);
        }
    }
    assert(f_exp(b) >= 0) by {
        lemma_div_is_ordered(0, f_abs(b), TWO52 as int);
    }
}

/// A finite magnitude with exponent `e >= 1` lies in [2^(e+51), 2^(e+52)).
pub proof fn lemma_mag_bounds(e: int, f: int)
    requires
        0 <= f < TWO52,
        0 <= e,
    ensures
        e == 0 ==> 0 <= mag(e, f) < pow2(52),
        e >= 1 ==> pow2((e + 51) as nat) <= mag(e, f) < pow2((e + 52) as nat),
{
    lemma2_to64_rest();
    if e >= 1 {
        let p = pow2((e - 1) as nat) as int;
        lemma_pow2_pos((e - 1) as nat);
        assert((TWO52 as int) * p <= (f + TWO52) * p) by {
            lemma_mul_inequality(TWO52 as int, f + TWO52, p);
        }
        assert((f + TWO52) * p < (TWO53 as int) * p) by {
            lemma_mul_strict_inequality(f + TWO52, TWO53 as int, p);
        }
        assert(pow2(52) * pow2((e - 1) as nat) == pow2((e + 51) as nat)) by {
            lemma_pow2_adds(52, (e - 1) as nat);
        }
        assert(pow2(53) * pow2((e - 1) as nat) == pow2((e + 52) as nat)) by {
            lemma_pow2_adds(53, (e - 1) as nat);
        }
    }
}

/// Finite magnitudes are ordered exactly as their (exponent, mantissa) pairs
/// are ordered lexicographically, and are equal only on equal pairs.
pub proof fn lemma_mag_lex(e1: int, f1: int, e2: int, f2: int)
    requires
        0 <= e1,
        0 <= e2,
        0 <= f1 < TWO52,
        0 <= f2 < TWO52,
    ensures
        (mag(e1, f1) < mag(e2, f2)) <==> (e1 < e2 || (e1 == e2 && f1 < f2)),
        (mag(e1, f1) == mag(e2, f2)) <==> (e1 == e2 && f1 == f2),
    decreases (if e1 < e2 { 0int } else { 1int }),
{
    lemma2_to64_rest();
    if e1 == e2 {
        if e1 != 0 {
            let p = pow2((e1 - 1) as nat) as int;
            lemma_pow2_pos((e1 - 1) as nat);
            if f1 < f2 {
                lemma_mul_strict_inequality(f1 + TWO52, f2 + TWO52, p);
            }
            if f2 < f1 {
                lemma_mul_strict_inequality(f2 + TWO52, f1 + TWO52, p);
            }
        }
    } else if e1 < e2 {
        lemma_mag_bounds(e1, f1);
        lemma_mag_bounds(e2, f2);
        if e1 == 0 {
            assert(pow2(52) <= pow2((e2 + 51) as nat)) by {
                if 52 < e2 + 51 {
                    lemma_pow2_strictly_increases(52, (e2 + 51) as nat);
                }
            }
        } else {
            assert(pow2((e1 + 52) as nat) <= pow2((e2 + 51) as nat)) by {
                if e1 + 52 < e2 + 51 {
                    lemma_pow2_strictly_increases((e1 + 52) as nat, (e2 + 51) as nat);
                }
            }
        }
    } else {
        lemma_mag_lex(e2, f2, e1, f1);
    }
}

/// The extended magnitude of one non-NaN pattern: nonnegative, zero only on
/// a zero pattern, finite ones strictly below the infinities' value.
pub proof fn lemma_em_facts(x: u64)
    requires
        !f_is_nan(x),
    ensures
        f_em(x) >= 0,
        f_em(x) == 0 <==> f_abs(x) == 0,
        f_exp(x) < EXP_TOP ==> f_em(x) < pow2(2200),
        f_exp(x) == EXP_TOP ==> f_em(x) == pow2(2200),
{
    lemma_fields(x);
    lemma2_to64_rest();
    lemma_pow2_pos(2200);
    let e = f_exp(x);
    let f = f_frac(x);
    lemma_mag_bounds(e, f);
    if e >= 1 {
        lemma_pow2_pos((e + 51) as nat);
        assert(e * (TWO52 as int) >= 1 * (TWO52 as int)) by {
            lemma_mul_inequality(1, e, TWO52 as int);
        }
    }
    if e < EXP_TOP {
        assert(mag(e, f) < pow2(2200)) by {
            if e == 0 {
                lemma_pow2_strictly_increases(52, 2200);
            } else {
                if e + 52 < 2200 {
                    lemma_pow2_strictly_increases((e + 52) as nat, 2200);
                }
            }
        }
    }
}

/// Extended magnitudes follow the order of the unsigned bit patterns, and a
/// zero magnitude happens only on a zero pattern.
pub proof fn lemma_em_abs(a: u64, b: u64)
    requires
        !f_is_nan(a),
        !f_is_nan(b),
    ensures
        (f_em(a) < f_em(b)) <==> (f_abs(a) < f_abs(b)),
        (f_em(a) == f_em(b)) <==> (f_abs(a) == f_abs(b)),
        f_em(a) >= 0,
        f_em(a) == 0 <==> f_abs(a) == 0,
{
    lemma_fields(a);
    lemma_fields(b);
    lemma2_to64_rest();
    lemma_em_facts(a);
    lemma_em_facts(b);
    let e1 = f_exp(a);
    let f1 = f_frac(a);
    let e2 = f_exp(b);
    let f2 = f_frac(b);
    if e1 < EXP_TOP && e2 < EXP_TOP {
        lemma_mag_lex(e1, f1, e2, f2);
        assert((e1 * (TWO52 as int) + f1 < e2 * (TWO52 as int) + f2) <==> (e1 < e2 || (e1 == e2
            && f1 < f2)));
        assert((e1 * (TWO52 as int) + f1 == e2 * (TWO52 as int) + f2) <==> (e1 == e2 && f1
            == f2));
    }
}

/// How the signed keys of two non-NaN patterns compare, read off the sign
/// bits and the unsigned parts of the patterns.
pub proof fn lemma_key_order(a: u64, b: u64)
    requires
        !f_is_nan(a),
        !f_is_nan(b),
    ensures
        (f_key(a) == f_key(b)) <==> (a == b || (f_abs(a) == 0 && f_abs(b) == 0)),
        (f_key(a) < f_key(b)) <==> (if f_sign(a) != f_sign(b) {
            f_sign(a) && !(f_abs(a) == 0 && f_abs(b) == 0)
        } else if f_sign(a) {
            f_abs(b) < f_abs(a)
        } else {
            f_abs(a) < f_abs(b)
        }),
{
    lemma_em_abs(a, b);
    lemma_em_abs(b, a);
    lemma_fields(a);
    lemma_fields(b);
    if f_sign(a) == f_sign(b) {
        if f_sign(a) {
            assert(a == f_abs(a) + SIGN_BIT && b == f_abs(b) + SIGN_BIT);
        } else {
            assert(a == f_abs(a) && b == f_abs(b));
        }
    }
}

/// True when the pattern is a NaN. Relies on nothing but integer division.
pub fn f64_is_nan(bits: u64) -> (r: bool)
    ensures
        r == f_is_nan(bits),
{
    let ax = if bits >= SIGN_BIT {
        bits - SIGN_BIT
    } else {
        bits
    };
    let e = ax / TWO52;
    let f = ax % TWO52;
    e == EXP_TOP && f != 0
}

/// IEEE-754 equality on bit patterns.
pub fn f64_eq(a: u64, b: u64) -> (r: bool)
    ensures
        r == f_eq_spec(a, b),
{
    if f64_is_nan(a) || f64_is_nan(b) {
        return false;
    }
    let ax = if a >= SIGN_BIT {
        a - SIGN_BIT
    } else {
        a
    };
    let bx = if b >= SIGN_BIT {
        b - SIGN_BIT
    } else {
        b
    };
    proof {
        lemma_key_order(a, b);
    }
    a == b || (ax == 0 && bx == 0)
}

/// IEEE-754 strict order on bit patterns.
pub fn f64_lt(a: u64, b: u64) -> (r: bool)
    ensures
        r == f_lt_spec(a, b),
{
    if f64_is_nan(a) || f64_is_nan(b) {
        return false;
    }
    let sa = a >= SIGN_BIT;
    let sb = b >= SIGN_BIT;
    let ax = if sa {
        a - SIGN_BIT
    } else {
        a
    };
    let bx = if sb {
        b - SIGN_BIT
    } else {
        b
    };
    proof {
        lemma_key_order(a, b);
    }
    if sa != sb {
        sa && !(ax == 0 && bx == 0)
    } else if sa {
        bx < ax
    } else {
        ax < bx
    }
}

/// IEEE-754 non-strict order on bit patterns.
pub fn f64_le(a: u64, b: u64) -> (r: bool)
    ensures
        r == f_le_spec(a, b),
{
    if f64_is_nan(a) || f64_is_nan(b) {
        return false;
    }
    if f64_eq(a, b) {
        true
    } else {
        f64_lt(a, b)
    }
}

} // verus!

verus! {

/// The index of the highest set bit: the floor of the base-2 logarithm.
pub open spec fn floor_log2(m: int) -> nat
    decreases m,
{
    if m < 2 {
        0
    } else {
        (1 + floor_log2(m / 2)) as nat
    }
}

pub proof fn lemma_floor_log2(m: int)
    requires
        1 <= m,
    ensures
        pow2(floor_log2(m)) <= m < pow2((floor_log2(m) + 1) as nat),
    decreases m,
{
    if m < 2 {
        lemma2_to64();
    } else {
        lemma_floor_log2(m / 2);
        let l = floor_log2(m / 2);
        lemma_pow2_unfold((l + 1) as nat);
        lemma_pow2_unfold((l + 2) as nat);
        lemma_fundamental_div_mod(m, 2);
    }
}

pub proof fn lemma_floor_log2_unique(m: int, p: nat)
    requires
        pow2(p) <= m < pow2((p + 1) as nat),
    ensures
        floor_log2(m) == p,
{
    lemma_pow2_pos(p);
    lemma_floor_log2(m);
    let l = floor_log2(m);
    if l < p {
        if l + 1 < p {
            lemma_pow2_strictly_increases((l + 1) as nat, p);
        }
        assert(false);
    }
    if l > p {
        if p + 1 < l {
            lemma_pow2_strictly_increases((p + 1) as nat, l);
        }
        assert(false);
    }
}

/// The unsigned bit pattern of the float nearest to a positive integer,
/// rounding to nearest with ties to even.
pub open spec fn pos_to_abs(m: int) -> int {
    let p = floor_log2(m) as int;
    if p <= 52 {
        (p + 1023) * (TWO52 as int) + (m * pow2((52 - p) as nat) - TWO52)
    } else {
        let shift = (p - 52) as nat;
        let keep = m / (pow2(shift) as int);
        let low = m % (pow2(shift) as int);
        let half = pow2((shift - 1) as nat) as int;
        let rounded = if low > half || (low == half && keep % 2 == 1) {
            keep + 1
        } else {
            keep
        };
        if rounded == TWO53 {
            (p + 1024) * (TWO52 as int)
        } else {
            (p + 1023) * (TWO52 as int) + (rounded - TWO52)
        }
    }
}

/// The bit pattern of the float nearest to any integer of 64-bit magnitude.
pub open spec fn to_f64_bits(n: int) -> u64 {
    if n == 0 {
        0u64
    } else if n > 0 {
        pos_to_abs(n) as u64
    } else {
        (pos_to_abs(-n) + SIGN_BIT) as u64
    }
}

/// Where a positive conversion lands: its field decomposition, the ranges of
/// the fields, and the denoted magnitude for exactly representable inputs.
pub proof fn lemma_pos_to_abs_fields(m: int)
    requires
        1 <= m < pow2(64),
    ensures
        0 < pos_to_abs(m) < SIGN_BIT,
        pos_to_abs(m) / (TWO52 as int) < EXP_TOP,
        m <= TWO53 ==> mag(
            pos_to_abs(m) / (TWO52 as int),
            pos_to_abs(m) % (TWO52 as int),
        ) == m * pow2(1074),
{
    lemma2_to64();
    lemma2_to64_rest();
    lemma_floor_log2(m);
    let p = floor_log2(m) as int;
    assert(p <= 63) by {
        if p >= 64 {
            if 64 < p {
                lemma_pow2_strictly_increases(64, p as nat);
            }
        }
    }
    let t = TWO52 as int;
    if p <= 52 {
        let w = pow2((52 - p) as nat) as int;
        lemma_pow2_pos((52 - p) as nat);
        let mant = m * w;
        assert(pow2(p as nat) * w <= mant) by {
            lemma_mul_inequality(pow2(p as nat) as int, m, w);
        }
        assert(mant < pow2((p + 1) as nat) * w) by {
            lemma_mul_strict_inequality(m, pow2((p + 1) as nat) as int, w);
        }
        assert(pow2(p as nat) * w == pow2(52)) by {
            lemma_pow2_adds(p as nat, (52 - p) as nat);
        }
        assert(pow2((p + 1) as nat) * w == pow2(53)) by {
            lemma_pow2_adds((p + 1) as nat, (52 - p) as nat);
        }
        let a = pos_to_abs(m);
        assert(a == (p + 1023) * t + (mant - t));
        lemma_fundamental_div_mod_converse(a, t, p + 1023, mant - t);
        assert(mag(a / t, a % t) == mant * pow2((p + 1022) as nat));
        assert(mant * pow2((p + 1022) as nat) == m * (w * pow2((p + 1022) as nat))) by {
            lemma_mul_is_associative(m, w, pow2((p + 1022) as nat) as int);
        }
        assert(w * pow2((p + 1022) as nat) == pow2(1074)) by {
            lemma_pow2_adds((52 - p) as nat, (p + 1022) as nat);
        }
    } else {
        let shift = (p - 52) as nat;
        let pw = pow2(shift) as int;
        lemma_pow2_pos(shift);
        let keep = m / pw;
        let low = m % pw;
        let half = pow2((shift - 1) as nat) as int;
        lemma_fundamental_div_mod(m, pw);
        assert(t <= keep < TWO53) by {
            assert((pow2(p as nat) as int) / pw == pow2(52)) by {
                lemma_pow2_subtracts(shift, p as nat);
            }
            lemma_div_is_ordered(pow2(p as nat) as int, m, pw);
            if keep >= TWO53 {
                assert((TWO53 as int) * pw <= keep * pw) by {
                    lemma_mul_inequality(TWO53 as int, keep, pw);
                }
                assert((TWO53 as int) * pw == pow2((p + 1) as nat)) by {
                    lemma_pow2_adds(53, shift);
                }
            }
        }
        let rounded = if low > half || (low == half && keep % 2 == 1) {
            keep + 1
        } else {
            keep
        };
        let a = pos_to_abs(m);
        if rounded == TWO53 {
            assert(a == (p + 1024) * t);
            lemma_fundamental_div_mod_converse(a, t, p + 1024, 0);
        } else {
            assert(a == (p + 1023) * t + (rounded - t));
            lemma_fundamental_div_mod_converse(a, t, p + 1023, rounded - t);
        }
        if m <= TWO53 {
            assert(m == TWO53) by {
                assert(pow2(53) <= m);
            }
            assert(floor_log2(TWO53 as int) == 53) by {
                lemma_floor_log2_unique(TWO53 as int, 53);
            }
            assert(shift == 1);
            assert(pw == 2);
            assert(keep == t);
            assert(low == 0 && half == 1);
            assert(rounded == t);
            assert(a == 1076 * t);
            assert(mag(a / t, a % t) == t * pow2(1075));
            assert(t * pow2(1075) == m * pow2(1074)) by {
                lemma_pow2_adds(52, 1075);
                lemma_pow2_adds(53, 1074);
            }
        }
    }
}

/// A conversion of any 64-bit-magnitude integer is finite, and is zero and
/// negative exactly as the integer is.
pub proof fn lemma_to_bits_wf(n: int)
    requires
        -(SIGN_BIT as int) <= n < pow2(64),
    ensures
        !f_is_nan(to_f64_bits(n)),
        !f_is_inf(to_f64_bits(n)),
        f_sign(to_f64_bits(n)) == (n < 0),
        f_key(to_f64_bits(n)) == 0 <==> n == 0,
{
    lemma2_to64_rest();
    if n == 0 {
        let b = to_f64_bits(0);
        assert(b == 0u64);
        lemma_fields(b);
        lemma_fundamental_div_mod_converse(0, TWO52 as int, 0, 0);
    } else {
        let m = if n > 0 {
            n
        } else {
            -n
        };
        lemma_pos_to_abs_fields(m);
        let a = pos_to_abs(m);
        let b = to_f64_bits(n);
        assert(f_abs(b) == a);
        assert(f_exp(b) == a / (TWO52 as int) && f_frac(b) == a % (TWO52 as int));
        lemma_em_facts(b);
    }
}

/// An integer of magnitude at most 2^53 converts exactly: the key of its
/// float is the integer scaled by 2^1074.
pub proof fn lemma_to_bits_exact(n: int)
    requires
        -(TWO53 as int) <= n <= TWO53 as int,
    ensures
        !f_is_nan(to_f64_bits(n)),
        f_key(to_f64_bits(n)) == n * pow2(1074),
{
    lemma2_to64_rest();
    lemma_to_bits_wf(n);
    let b = to_f64_bits(n);
    if n == 0 {
        lemma_fundamental_div_mod_converse(0, TWO52 as int, 0, 0);
        assert(f_key(b) == 0);
        assert(n * pow2(1074) == 0) by {
            lemma_mul_by_zero_is_zero(pow2(1074) as int);
        }
    } else {
        let m = if n > 0 {
            n
        } else {
            -n
        };
        lemma_pos_to_abs_fields(m);
        let a = pos_to_abs(m);
        assert(f_abs(b) == a);
        assert(f_em(b) == m * pow2(1074));
        if n < 0 {
            assert(f_key(b) == -(m * pow2(1074)));
            assert(-(m * pow2(1074)) == n * pow2(1074)) by {
                lemma_mul_unary_negation(m, pow2(1074) as int);
            }
        }
    }
}

/// 2^k as a 64-bit integer, computed by doubling.
pub fn pow2_u64(k: u64) -> (r: u64)
    requires
        k <= 63,
    ensures
        r as int == pow2(k as nat),
{
    proof {
        lemma2_to64();
        lemma2_to64_rest();
    }
    let mut i: u64 = 0;
    let mut acc: u64 = 1;
    while i < k
        invariant
            i <= k,
            k <= 63,
            acc as int == pow2(i as nat),
        decreases k - i,
    {
        proof {
            lemma2_to64();
            lemma2_to64_rest();
            if (i as nat) < 63 {
                lemma_pow2_strictly_increases(i as nat, 63);
            }
            lemma_pow2_unfold((i + 1) as nat);
        }
        acc = acc * 2;
        i = i + 1;
    }
    acc
}

/// The unsigned float pattern of a positive 64-bit magnitude, rounding to
/// nearest with ties to even.
fn pos_bits(m: u64) -> (r: u64)
    requires
        m >= 1,
    ensures
        r as int == pos_to_abs(m as int),
        0 < r < SIGN_BIT,
{
    proof {
        lemma2_to64();
        lemma2_to64_rest();
        assert((m as int) < pow2(64));
        lemma_pos_to_abs_fields(m as int);
        lemma_floor_log2(m as int);
    }
    let mut p: u64 = 0;
    let mut t: u64 = m;
    while t >= 2
        invariant
            1 <= t,
            p <= 63,
            m >= 1,
            t as int == (m as int) / (pow2(p as nat) as int),
            floor_log2(m as int) == p as nat + floor_log2(t as int),
        decreases t,
    {
        proof {
            lemma_pow2_pos(p as nat);
            lemma_fundamental_div_mod(m as int, pow2(p as nat) as int);
            assert((pow2(p as nat) as int) * 2 == pow2((p + 1) as nat)) by {
                lemma_pow2_adds(p as nat, 1);
                lemma2_to64();
            }
            assert(p + 1 <= 63) by {
                assert((pow2(p as nat) as int) * 2 <= (pow2(p as nat) as int) * (t as int)) by {
                    lemma_mul_left_inequality(pow2(p as nat) as int, 2, t as int);
                }
                assert((m as int) >= (pow2(p as nat) as int) * 2);
                lemma2_to64_rest();
                if p + 1 >= 64 {
                    if 64 < p + 1 {
                        lemma_pow2_strictly_increases(64, (p + 1) as nat);
                    }
                }
            }
            lemma_div_denominator(m as int, pow2(p as nat) as int, 2);
        }
        t = t / 2;
        p = p + 1;
    }
    proof {
        assert(t == 1);
        assert(floor_log2(m as int) == p as nat);
        lemma_pow2_pos(p as nat);
        lemma_fundamental_div_mod(m as int, pow2(p as nat) as int);
    }
    if p <= 52 {
        let w = pow2_u64(52 - p);
        proof {
            lemma_pow2_pos((52 - p) as nat);
            assert(pow2(p as nat) * (w as int) <= (m as int) * (w as int)) by {
                lemma_mul_inequality(pow2(p as nat) as int, m as int, w as int);
            }
            assert((m as int) * (w as int) < pow2((p + 1) as nat) * (w as int)) by {
                lemma_mul_strict_inequality(m as int, pow2((p + 1) as nat) as int, w as int);
            }
            assert(pow2(p as nat) * (w as int) == pow2(52)) by {
                lemma_pow2_adds(p as nat, (52 - p) as nat);
            }
            assert(pow2((p + 1) as nat) * (w as int) == pow2(53)) by {
                lemma_pow2_adds((p + 1) as nat, (52 - p) as nat);
            }
        }
        let mant = m * w;
        (p + 1023) * TWO52 + (mant - TWO52)
    } else {
        let shift = p - 52;
        let pw = pow2_u64(shift);
        proof {
            lemma_pow2_pos(shift as nat);
            lemma_fundamental_div_mod(m as int, pw as int);
            assert((pow2(p as nat) as int) / (pw as int) == pow2(52)) by {
                lemma_pow2_subtracts(shift as nat, p as nat);
            }
            lemma_div_is_ordered(pow2(p as nat) as int, m as int, pw as int);
            if (m as int) / (pw as int) >= TWO53 {
                assert((TWO53 as int) * (pw as int) <= ((m as int) / (pw as int)) * (
                pw as int)) by {
                    lemma_mul_inequality(TWO53 as int, (m as int) / (pw as int), pw as int);
                }
                assert((TWO53 as int) * (pw as int) == pow2((p + 1) as nat)) by {
                    lemma_pow2_adds(53, shift as nat);
                }
                assert(false);
            }
            lemma_pow2_unfold(shift as nat);
        }
        let keep = m / pw;
        let low = m % pw;
        let half = pw / 2;
        let round_up = low > half || (low == half && keep % 2 == 1);
        let rounded = if round_up {
            keep + 1
        } else {
            keep
        };
        if rounded == TWO53 {
            (p + 1024) * TWO52
        } else {
            (p + 1023) * TWO52 + (rounded - TWO52)
        }
    }
}

/// The bit pattern of the float nearest to a 64-bit integer, built from
/// integer arithmetic alone: round to nearest, ties to even.
pub fn i64_to_bits(n: i64) -> (r: u64)
    ensures
        r == to_f64_bits(n as int),
{
    if n == 0 {
        return 0;
    }
    if n > 0 {
        let a = pos_bits(n as u64);
        proof {
            lemma2_to64_rest();
            lemma_pos_to_abs_fields(n as int);
        }
        a
    } else {
        let m: u64 = if n == i64::MIN {
            SIGN_BIT
        } else {
            (-n) as u64
        };
        proof {
            assert(m as int == -(n as int));
        }
        let a = pos_bits(m);
        proof {
            lemma2_to64_rest();
            lemma_pos_to_abs_fields(m as int);
        }
        a + SIGN_BIT
    }
}

} // verus!
