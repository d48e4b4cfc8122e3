//! From exact fractions to the numbers the device takes.
//!
//! A coordinate leaves the library as the bit pattern of a 32-bit binary
//! floating-point number: the fraction rounded to twenty-four significant
//! bits, halves going to the even neighbour. That is the number of the
//! format that lies nearest to the fraction.

use vstd::prelude::*;
use vstd::arithmetic::div_mod::{
    lemma_div_is_ordered,
    lemma_div_multiples_vanish,
    lemma_fundamental_div_mod,
    lemma_mod_bound,
    lemma_mod_multiples_basic,
};
use vstd::arithmetic::power2::{
    lemma2_to64,
    lemma_pow2_adds,
    lemma_pow2_pos,
    lemma_pow2_strictly_increases,
    lemma_pow2_unfold,
    pow2,
};
use crate::geometry::Ratio;
use crate::sample::{grade, is_finite, is_negative, magnitude, pattern_value, significand};
use vstd::math::abs;

verus! {

/// The pattern of the number one.
pub const ONE: u32 = 0x3F80_0000;

/// The pattern of the number minus one.
pub const MINUS_ONE: u32 = 0xBF80_0000;

/// Whether a fraction is a coordinate that can be rounded: its denominator
/// is positive and below `2^66`, and it lies in `[-1, 1]`.
pub open spec fn in_unit(c: (int, int)) -> bool {
    0 < c.1 < 0x4_0000_0000_0000_0000 && -c.1 <= c.0 <= c.1
}

/// How often `n` is doubled until it is no longer below `d`.
pub open spec fn doublings(n: nat, d: nat) -> nat
    decreases d - n,
{
    if 0 < n < d {
        if 2 * n < d {
            1 + doublings(2 * n, d)
        } else {
            1
        }
    } else {
        0
    }
}

/// The whole number nearest to `a / d`, and of two that are equally near
/// the even one.
pub open spec fn rounded(a: nat, d: nat) -> nat {
    if 2 * (a % d) > d || (2 * (a % d) == d && (a / d) % 2 == 1) {
        a / d + 1
    } else {
        a / d
    }
}

/// The significand of `n / d` at twenty-four bits, for `0 < n <= d`: the
/// fraction is doubled until it is at least one, and then rounded in units
/// of `2^-23`. It lies between `2^23` and `2^24`, both included.
pub open spec fn rounded_significand(n: nat, d: nat) -> nat {
    rounded(n * pow2(doublings(n, d) + 23), d)
}

/// The pattern of the number nearest to `num / den`.
///
/// Zero gives the pattern of zero. Otherwise the sign bit is that of `num`;
/// the exponent field is 127 less the doublings that bring the fraction to
/// at least one, and one more where rounding carries the significand up to
/// `2^24`; the fraction field is the significand without its leading bit.
pub open spec fn nearest_pattern(num: int, den: int) -> u32 {
    if num == 0 {
        0
    } else {
        let n = (if num < 0 {
            -num
        } else {
            num
        }) as nat;
        let k = doublings(n, den as nat);
        let q = rounded_significand(n, den as nat);
        let sign: int = if num < 0 {
            0x8000_0000
        } else {
            0
        };
        if q >= 0x100_0000 {
            (sign + (128 - k) * 0x80_0000) as u32
        } else {
            (sign + (127 - k) * 0x80_0000 + (q - 0x80_0000)) as u32
        }
    }
}

/// The doublings bring a fraction in `(0, 1]` into `[1, 2)`: `d <= n * 2^k
/// < 2 * d`, and none is needed where the fraction is one.
pub proof fn lemma_doublings_normalize(n: nat, d: nat)
    requires
        0 < n <= d,
    ensures
        d <= n * pow2(doublings(n, d)) < 2 * d,
        n == d ==> doublings(n, d) == 0,
    decreases d - n,
{
    lemma2_to64();
    if n < d {
        if 2 * n < d {
            let k = doublings(2 * n, d);
            lemma_doublings_normalize(2 * n, d);
            lemma_pow2_unfold(k + 1);
            assert((2 * n) * pow2(k) == n * (2 * pow2(k))) by (nonlinear_arith);
        } else {
            assert(n * 2 == 2 * n);
        }
    } else {
        assert(n * 1 == n);
    }
}

/// Rounding to the nearest whole number misses by at most a half, and
/// misses nothing where the fraction is whole.
pub proof fn lemma_rounded_is_nearest(a: nat, d: nat)
    requires
        d > 0,
    ensures
        -(d as int) <= 2 * (a - rounded(a, d) * d) <= d,
        a % d == 0 ==> rounded(a, d) * d == a,
        a / d <= rounded(a, d) <= a / d + 1,
{
    lemma_fundamental_div_mod(a as int, d as int);
    lemma_mod_bound(a as int, d as int);
    let q = (a / d) as int;
    assert((q + 1) * d == q * d + d) by (nonlinear_arith);
    assert(d * q == q * d) by (nonlinear_arith);
}

/// The significand of a fraction in `(0, 1]` has its leading bit at `2^23`
/// or, after a carry, is `2^24`; the doublings are at most 66 for a
/// denominator below `2^66`.
pub proof fn lemma_significand_range(n: nat, d: nat)
    requires
        0 < n <= d,
        d < 0x4_0000_0000_0000_0000,
    ensures
        0x80_0000 <= rounded_significand(n, d) <= 0x100_0000,
        doublings(n, d) <= 66,
        n == d ==> rounded_significand(n, d) == 0x80_0000,
{
    let k = doublings(n, d);
    lemma_doublings_normalize(n, d);
    lemma2_to64();
    lemma_pow2_adds(k, 23);
    let di = d as int;
    let s = (n * pow2(k)) as int;
    let a = (n * pow2(k + 23)) as int;
    assert(a == s * 0x80_0000) by (nonlinear_arith)
        requires
            a == n * pow2(k + 23),
            s == n * pow2(k),
            pow2(k + 23) == pow2(k) * 0x80_0000,
    ;
    assert(di * 0x80_0000 <= a < di * 0x100_0000);
    lemma_div_is_ordered(di * 0x80_0000, a, di);
    lemma_div_multiples_vanish(0x80_0000, di);
    lemma_fundamental_div_mod(a, di);
    lemma_mod_bound(a, di);
    let q = a / di;
    assert(q < 0x100_0000) by (nonlinear_arith)
        requires
            di > 0,
            a == di * q + a % di,
            0 <= a % di,
            a < di * 0x100_0000,
    ;
    lemma_rounded_is_nearest(a as nat, d);
    if k > 66 {
        lemma_pow2_adds(64, 3);
        if k > 67 {
            lemma_pow2_strictly_increases(67, k);
        }
        assert(n * pow2(k) >= pow2(k)) by (nonlinear_arith)
            requires
                n >= 1,
        ;
    }
    if n == d {
        lemma_mod_multiples_basic(0x80_0000, di);
        assert(a == 0x80_0000 * di);
    }
}

/// What the pattern of a rounded fraction holds: it is finite and normal,
/// has the sign of the fraction, and its absolute value is the rounded
/// significand at the grade that the doublings give.
pub proof fn lemma_nearest_decodes(num: int, den: int)
    requires
        in_unit((num, den)),
        num != 0,
    ensures
        is_finite(nearest_pattern(num, den)),
        is_negative(nearest_pattern(num, den)) <==> num < 0,
        doublings(abs(num), den as nat) <= 66,
        magnitude(nearest_pattern(num, den)) == rounded_significand(abs(num), den as nat) * pow2(
            (126 - doublings(abs(num), den as nat)) as nat,
        ),
{
    let n = abs(num);
    let d = den as nat;
    let k = doublings(n, d);
    let q = rounded_significand(n, d);
    let bits = nearest_pattern(num, den);
    lemma_significand_range(n, d);
    let up = (126 - k) as nat;
    if q >= 0x100_0000 {
        assert(significand(bits) == 0x80_0000);
        assert(grade(bits) == up + 1);
        lemma_pow2_unfold(up + 1);
        assert(0x80_0000 * (2 * pow2(up)) == 0x100_0000 * pow2(up)) by (nonlinear_arith);
    } else {
        assert(significand(bits) == q);
        assert(grade(bits) == up);
    }
}

/// The rounded fraction misses the fraction by at most half a unit in the
/// last place of its significand, and by nothing where the fraction has a
/// significand of twenty-four bits: with values in multiples of the
/// smallest positive value, and `u` the weight of the last place,
/// `2 * |value * den - num * 2^149| <= u * den`.
pub proof fn lemma_nearest_is_within_half_a_unit(num: int, den: int)
    requires
        in_unit((num, den)),
        num != 0,
    ensures
        -(den * pow2((126 - doublings(abs(num), den as nat)) as nat)) <= 2 * (pattern_value(
            nearest_pattern(num, den),
        ) * den - num * pow2(149)) <= den * pow2((126 - doublings(abs(num), den as nat)) as nat),
        (abs(num) * pow2(doublings(abs(num), den as nat) + 23)) % (den as nat) == 0
            ==> pattern_value(nearest_pattern(num, den)) * den == num * pow2(149),
{
    let n = abs(num);
    let d = den as nat;
    let k = doublings(n, d);
    let q = rounded_significand(n, d) as int;
    let up = (126 - k) as nat;
    let a = (n * pow2(k + 23)) as int;
    let p = pow2(up) as int;
    lemma_nearest_decodes(num, den);
    lemma_rounded_is_nearest(a as nat, d);
    lemma_pow2_adds(k + 23, up);
    lemma_pow2_pos(up);
    assert(n * pow2(149) == a * p) by (nonlinear_arith)
        requires
            a == n * pow2(k + 23),
            pow2(149) == pow2(k + 23) * p,
    ;
    assert(-(den * p) <= 2 * ((q * p) * den - a * p) <= den * p) by (nonlinear_arith)
        requires
            -den <= 2 * (a - q * den) <= den,
            p > 0,
    ;
    if a % den == 0 {
        assert((q * p) * den == a * p) by (nonlinear_arith)
            requires
                q * den == a,
        ;
    }
    if num < 0 {
        assert((-(q * p)) * den == -((q * p) * den)) by (nonlinear_arith);
        assert(num * pow2(149) == -(n * pow2(149))) by (nonlinear_arith)
            requires
                num == -n,
        ;
    }
}

/// How far a finite pattern lies from the fraction `num / den`: the
/// distance of their values, in multiples of the smallest positive value,
/// times `den`.
pub open spec fn miss(bits: u32, num: int, den: int) -> nat {
    abs(pattern_value(bits) * den - num * pow2(149))
}

/// Where rounding to a whole number has to choose between two that are
/// equally near, it has chosen the even one.
pub proof fn lemma_half_way_is_even(a: nat, d: nat)
    requires
        d > 0,
        2 * abs(a - rounded(a, d) * d) == d,
    ensures
        rounded(a, d) % 2 == 0,
{
    lemma_fundamental_div_mod(a as int, d as int);
    lemma_mod_bound(a as int, d as int);
    let f = (a / d) as int;
    assert((f + 1) * d == f * d + d) by (nonlinear_arith);
    assert(d * f == f * d) by (nonlinear_arith);
}

/// The rounded fraction is the nearest number there is: no finite pattern
/// lies nearer to the fraction, and where another value lies equally near,
/// the significand of the rounded fraction is even.
pub proof fn lemma_no_pattern_is_nearer(num: int, den: int, other: u32)
    requires
        in_unit((num, den)),
        is_finite(other),
    ensures
        miss(nearest_pattern(num, den), num, den) <= miss(other, num, den),
        miss(nearest_pattern(num, den), num, den) == miss(other, num, den) && pattern_value(other)
            != pattern_value(nearest_pattern(num, den)) ==> significand(nearest_pattern(num, den))
            % 2 == 0,
{
    let near = nearest_pattern(num, den);
    if num == 0 {
        assert(magnitude(0) == 0) by (nonlinear_arith)
            requires
                magnitude(0) == significand(0) * pow2(grade(0)),
                significand(0) == 0,
        ;
        assert(0 * den == 0);
        assert(0 * pow2(149) == 0);
        let w = pattern_value(other);
        if w != 0 {
            assert(w * den != 0) by (nonlinear_arith)
                requires
                    w != 0,
                    den > 0,
            ;
        }
    } else {
        let n = abs(num) as int;
        let d = den;
        let k = doublings(n as nat, d as nat);
        let up = (126 - k) as nat;
        let p = pow2(up) as int;
        let a = (n * pow2(k + 23)) as int;
        let q = rounded_significand(n as nat, d as nat) as int;
        lemma_nearest_decodes(num, den);
        lemma_significand_range(n as nat, d as nat);
        lemma_doublings_normalize(n as nat, d as nat);
        lemma_rounded_is_nearest(a as nat, d as nat);
        lemma_pow2_adds(k + 23, up);
        lemma_pow2_adds(k, 23);
        lemma_pow2_pos(up);
        lemma2_to64();
        assert(n * pow2(149) == a * p) by (nonlinear_arith)
            requires
                a == n * pow2(k + 23),
                pow2(149) == pow2(k + 23) * p,
        ;
        assert(a >= d * 0x80_0000) by (nonlinear_arith)
            requires
                a == n * pow2(k + 23),
                pow2(k + 23) == pow2(k) * 0x80_0000,
                d <= n * pow2(k),
        ;
        // The miss of the rounded fraction is `p * e`, with `2 * e <= d`.
        let e = abs(q * d - a) as int;
        let v = pattern_value(near);
        let target = num * pow2(149);
        if num < 0 {
            assert(target == -(a * p)) by (nonlinear_arith)
                requires
                    target == num * pow2(149),
                    num == -n,
                    n * pow2(149) == a * p,
            ;
        }
        assert(miss(near, num, den) == p * e) by {
            if num < 0 {
                assert(v * d - target == -(p * (q * d - a))) by (nonlinear_arith)
                    requires
                        v == -(q * p),
                        target == -(a * p),
                ;
            } else {
                assert(v * d - target == p * (q * d - a)) by (nonlinear_arith)
                    requires
                        v == q * p,
                        target == a * p,
                ;
            }
            assert(p * (q * d - a) == p * e || p * (q * d - a) == -(p * e)) by (nonlinear_arith)
                requires
                    e == q * d - a || e == -(q * d - a),
            ;
            assert(p * e >= 0) by (nonlinear_arith)
                requires
                    p > 0,
                    e >= 0,
            ;
        }
        assert(2 * (p * e) <= p * d) by (nonlinear_arith)
            requires
                2 * e <= d,
                p > 0,
        ;
        // The other pattern.
        let mc = significand(other) as int;
        let gc = grade(other);
        let big = magnitude(other) as int;
        let w = pattern_value(other);
        lemma_pow2_pos(gc);
        assert(big >= 0);
        let far = miss(other, num, den) as int;
        if is_negative(other) != (num < 0) {
            // On the other side of zero: farther than the fraction is from zero.
            assert(far == big * d + a * p) by {
                assert(big * d >= 0 && a * p >= 0) by (nonlinear_arith)
                    requires
                        big >= 0,
                        d > 0,
                        a >= 0,
                        p > 0,
                ;
                if num < 0 {
                    assert(w * d - target == big * d + a * p) by (nonlinear_arith)
                        requires
                            w == big,
                            target == -(a * p),
                    ;
                } else {
                    assert(w * d - target == -(big * d + a * p)) by (nonlinear_arith)
                        requires
                            w == -big,
                            target == a * p,
                    ;
                }
            }
            assert(2 * far > p * d) by (nonlinear_arith)
                requires
                    far == big * d + a * p,
                    big >= 0,
                    d > 0,
                    p > 0,
                    a >= d * 0x80_0000,
            ;
        } else {
            let gap = big * d - a * p;
            assert(far == abs(gap)) by {
                if num < 0 {
                    assert(w * d - target == -(big * d - a * p)) by (nonlinear_arith)
                        requires
                            w == -big,
                            target == -(a * p),
                    ;
                } else {
                    assert(w * d - target == big * d - a * p) by (nonlinear_arith)
                        requires
                            w == big,
                            target == a * p,
                    ;
                }
            }
            if gc >= up {
                // A whole multiple of the unit in the last place.
                let over = (gc - up) as nat;
                lemma_pow2_adds(over, up);
                lemma_pow2_pos(over);
                let j = mc * pow2(over);
                assert(big == j * p) by (nonlinear_arith)
                    requires
                        big == mc * pow2(gc),
                        pow2(gc) == pow2(over) * p,
                        j == mc * pow2(over),
                ;
                assert(gap == p * (j * d - a)) by (nonlinear_arith)
                    requires
                        gap == big * d - a * p,
                        big == j * p,
                ;
                if j == q {
                    assert(w == v);
                    assert(far == p * e) by (nonlinear_arith)
                        requires
                            far == abs(gap),
                            gap == p * (q * d - a),
                            e == abs(q * d - a),
                            p > 0,
                    ;
                } else {
                    let step = abs(j * d - a) as int;
                    let jd = j * d;
                    let qd = q * d;
                    assert(jd - qd >= d || jd - qd <= -d) by (nonlinear_arith)
                        requires
                            j != q,
                            d > 0,
                            jd == j * d,
                            qd == q * d,
                    ;
                    assert(2 * step >= d);
                    assert(far == p * step) by (nonlinear_arith)
                        requires
                            far == abs(gap),
                            gap == p * (j * d - a),
                            step == abs(j * d - a),
                            p > 0,
                    ;
                    assert(2 * far >= p * d) by (nonlinear_arith)
                        requires
                            far == p * step,
                            2 * step >= d,
                            p > 0,
                    ;
                }
            } else {
                // Below the unit in the last place: below the power of two
                // that the fraction is not below.
                lemma_pow2_unfold(gc + 1);
                if gc + 1 < up {
                    lemma_pow2_strictly_increases(gc + 1, up);
                }
                assert(2 * big <= 0xFF_FFFF * p) by (nonlinear_arith)
                    requires
                        big == mc * pow2(gc),
                        0 <= mc <= 0xFF_FFFF,
                        2 * pow2(gc) <= p,
                        pow2(gc) > 0,
                ;
                assert(2 * (a * p - big * d) >= p * d) by (nonlinear_arith)
                    requires
                        2 * big <= 0xFF_FFFF * p,
                        a >= d * 0x80_0000,
                        p > 0,
                        d > 0,
                        big >= 0,
                ;
                assert(p * d > 0) by (nonlinear_arith)
                    requires
                        p > 0,
                        d > 0,
                ;
            }
        }
        if miss(near, num, den) == miss(other, num, den) && w != v {
            assert(2 * (p * e) == p * d);
            assert(2 * e == d) by (nonlinear_arith)
                requires
                    2 * (p * e) == p * d,
                    p > 0,
            ;
            lemma_half_way_is_even(a as nat, d as nat);
        }
    }
}

/// The ends and the middle are hit exactly: one rounds to one, minus one
/// to minus one, and zero to zero.
pub proof fn lemma_edges_are_exact(den: int)
    requires
        0 < den < 0x4_0000_0000_0000_0000,
    ensures
        nearest_pattern(den, den) == ONE,
        nearest_pattern(-den, den) == MINUS_ONE,
        nearest_pattern(0, den) == 0,
{
    lemma_significand_range(den as nat, den as nat);
    lemma_doublings_normalize(den as nat, den as nat);
}

/// The pattern of the number nearest to the fraction, or `None` where the
/// fraction is no coordinate: where its denominator is not positive or not
/// below `2^66`, or where it lies outside `[-1, 1]`.
pub fn nearest_float(c: Ratio) -> (bits: Option<u32>)
    ensures
        bits is Some <==> in_unit(c@),
        bits matches Some(b) ==> b == nearest_pattern(c.num as int, c.den as int),
{
    if c.den <= 0 || c.den >= 0x4_0000_0000_0000_0000 || c.num > c.den || c.num < -c.den {
        return None;
    }
    if c.num == 0 {
        return Some(0);
    }
    let negative: bool = c.num < 0;
    let n: u128 = if negative {
        (-c.num) as u128
    } else {
        c.num as u128
    };
    let d: u128 = c.den as u128;
    let mut s: u128 = n;
    let mut k: u32 = 0;
    proof {
        lemma2_to64();
        lemma_significand_range(n as nat, d as nat);
        lemma_doublings_normalize(n as nat, d as nat);
        assert(n * 1 == n);
    }
    while s < d
        invariant
            0 < n <= d < 0x4_0000_0000_0000_0000,
            0 < s < 2 * d,
            s == n * pow2(k as nat),
            k + doublings(s as nat, d as nat) == doublings(n as nat, d as nat),
            doublings(n as nat, d as nat) <= 66,
        decreases 67 - k,
    {
        proof {
            lemma_pow2_unfold((k + 1) as nat);
            assert((2 * n) * pow2(k as nat) == n * (2 * pow2(k as nat))) by (nonlinear_arith);
            assert(2 * (n * pow2(k as nat)) == (2 * n) * pow2(k as nat)) by (nonlinear_arith);
        }
        s = 2 * s;
        k += 1;
    }
    proof {
        lemma_pow2_adds(k as nat, 23);
        assert(n * pow2((k + 23) as nat) == s * 0x80_0000) by (nonlinear_arith)
            requires
                s == n * pow2(k as nat),
                pow2((k + 23) as nat) == pow2(k as nat) * 0x80_0000,
        ;
    }
    let a: u128 = s * 0x80_0000;
    let floor: u128 = a / d;
    let rest: u128 = a % d;
    let q: u128 = if 2 * rest > d || (2 * rest == d && floor % 2 == 1) {
        floor + 1
    } else {
        floor
    };
    let sign: u32 = if negative {
        0x8000_0000
    } else {
        0
    };
    if q >= 0x100_0000 {
        Some(sign + (128 - k) * 0x80_0000)
    } else {
        Some(sign + (127 - k) * 0x80_0000 + (q - 0x80_0000) as u32)
    }
}

} // verus!
