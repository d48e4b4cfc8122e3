//! Prices as they arrive, and the integer ticks they are mapped from.
//!
//! A price arrives as the bit pattern of a 32-bit binary floating-point
//! number: one sign bit, eight exponent bits, twenty-three fraction bits.
//! Its value is a whole multiple of the smallest positive value of that
//! format, so a whole number says it exactly. Those numbers are too wide to
//! compute with, so a series is brought to a common unit, the tick, that is
//! chosen by its largest sample: the samples of the top forty grades are
//! whole multiples of a tick, and what lies below a tick is cut off.

use vstd::prelude::*;
use vstd::arithmetic::div_mod::{
    lemma_basic_div,
    lemma_div_by_multiple,
    lemma_div_is_ordered,
    lemma_div_multiples_vanish_quotient,
    lemma_fundamental_div_mod,
    lemma_mod_bound,
};
use vstd::arithmetic::mul::{lemma_mul_is_associative, lemma_mul_is_commutative};
use vstd::arithmetic::power2::{
    lemma2_to64,
    lemma2_to64_rest,
    lemma_pow2_adds,
    lemma_pow2_pos,
    lemma_pow2_strictly_increases,
    lemma_pow2_unfold,
    pow2,
};

verus! {

/// The grades below the top grade of a series that are kept exactly. With
/// a significand of twenty-four bits, a tick count then has at most
/// sixty-three.
pub const HEADROOM: u32 = 39;

/// Whether the sign bit is set.
pub open spec fn is_negative(bits: u32) -> bool {
    bits >= 0x8000_0000
}

/// The exponent field: the eight bits below the sign bit.
pub open spec fn exponent_field(bits: u32) -> nat {
    ((bits / 0x80_0000) % 256) as nat
}

/// The fraction field: the lowest twenty-three bits.
pub open spec fn fraction_field(bits: u32) -> nat {
    (bits % 0x80_0000) as nat
}

/// Whether the pattern is a finite number: neither an infinity nor a
/// not-a-number.
pub open spec fn is_finite(bits: u32) -> bool {
    exponent_field(bits) != 255
}

/// The finite pattern that is drawn for a pattern: the pattern itself where
/// it is finite, the largest finite number of the same sign for an
/// infinity, and zero for a not-a-number.
pub open spec fn settled(bits: u32) -> u32 {
    if is_finite(bits) {
        bits
    } else if fraction_field(bits) != 0 {
        0
    } else if is_negative(bits) {
        0xFF7F_FFFF
    } else {
        0x7F7F_FFFF
    }
}

/// The significand of a finite pattern as a whole number below `2^24`: the
/// fraction, with the hidden bit above it for a normal number.
pub open spec fn significand(bits: u32) -> nat {
    if exponent_field(bits) == 0 {
        fraction_field(bits)
    } else {
        0x80_0000 + fraction_field(bits)
    }
}

/// The grade of a finite pattern: how often the smallest positive value is
/// doubled to get the weight of the significand's lowest bit.
pub open spec fn grade(bits: u32) -> nat {
    if exponent_field(bits) == 0 {
        0
    } else {
        (exponent_field(bits) - 1) as nat
    }
}

/// The absolute value of a finite pattern, in multiples of the smallest
/// positive value.
pub open spec fn magnitude(bits: u32) -> nat {
    significand(bits) * pow2(grade(bits))
}

/// The value of a finite pattern, in multiples of the smallest positive
/// value of the format.
pub open spec fn pattern_value(bits: u32) -> int {
    if is_negative(bits) {
        -(magnitude(bits) as int)
    } else {
        magnitude(bits) as int
    }
}

/// The value that is drawn for a pattern: the value of the finite pattern
/// that stands for it.
pub open spec fn price_value(bits: u32) -> int {
    pattern_value(settled(bits))
}

/// The highest grade among the samples of a series (0 for the empty series).
pub open spec fn top_grade(s: Seq<u32>) -> nat
    decreases s.len(),
{
    if s.len() == 0 {
        0
    } else {
        let rest = top_grade(s.drop_last());
        if grade(settled(s.last())) > rest {
            grade(settled(s.last()))
        } else {
            rest
        }
    }
}

/// The grade of one tick of a series: `HEADROOM` grades below the top
/// grade, and the smallest positive value itself where the top is lower.
pub open spec fn base_grade(s: Seq<u32>) -> nat {
    if top_grade(s) > HEADROOM {
        (top_grade(s) - HEADROOM) as nat
    } else {
        0
    }
}

/// The sample in ticks of grade `base`: its value divided by the tick and
/// cut off towards zero.
pub open spec fn tick(bits: u32, base: nat) -> int {
    if is_negative(settled(bits)) {
        -((magnitude(settled(bits)) / pow2(base)) as int)
    } else {
        (magnitude(settled(bits)) / pow2(base)) as int
    }
}

/// A series in its own ticks.
pub open spec fn ticks_of(s: Seq<u32>) -> Seq<i64> {
    Seq::new(s.len(), |i: int| tick(s[i], base_grade(s)) as i64)
}

/// No sample of a series has a grade above the top grade.
pub proof fn lemma_top_grade_bounds(s: Seq<u32>, i: int)
    requires
        0 <= i < s.len(),
    ensures
        grade(settled(s[i])) <= top_grade(s),
        grade(settled(s[i])) <= base_grade(s) + 39,
    decreases s.len(),
{
    if i < s.len() - 1 {
        lemma_top_grade_bounds(s.drop_last(), i);
    }
}

/// The fields of a settled pattern are within their widths: the pattern is
/// finite, its significand is below `2^24`, its grade at most 253.
pub proof fn lemma_settled_is_finite(bits: u32)
    ensures
        is_finite(settled(bits)),
        significand(settled(bits)) < 0x100_0000,
        grade(settled(bits)) <= 253,
        is_finite(bits) ==> settled(bits) == bits,
{
}

/// How a sample comes to its tick count: a sample at or above the grade of
/// the tick is its significand doubled as often as its grade lies above,
/// and so a whole multiple of the tick; one below is its significand halved
/// as often as its grade lies below, the remainder cut off.
pub proof fn lemma_tick_by_grade(bits: u32, base: nat)
    ensures
        grade(settled(bits)) >= base ==> magnitude(settled(bits)) / pow2(base) == significand(
            settled(bits),
        ) * pow2((grade(settled(bits)) - base) as nat) && (magnitude(settled(bits)) / pow2(base))
            * pow2(base) == magnitude(settled(bits)),
        grade(settled(bits)) < base ==> magnitude(settled(bits)) / pow2(base) == significand(
            settled(bits),
        ) / pow2((base - grade(settled(bits))) as nat),
        grade(settled(bits)) + 24 <= base ==> magnitude(settled(bits)) / pow2(base) == 0,
{
    let b = settled(bits);
    let m = significand(b) as int;
    let g = grade(b);
    lemma_pow2_pos(base);
    lemma_pow2_pos(g);
    if g >= base {
        let up = (g - base) as nat;
        lemma_pow2_pos(up);
        lemma_pow2_adds(up, base);
        assert(pow2(g) == pow2(up) * pow2(base));
        lemma_mul_is_associative(m, pow2(up) as int, pow2(base) as int);
        assert(m * pow2(g) == (m * pow2(up)) * pow2(base));
        assert(m * pow2(up) >= 0) by (nonlinear_arith)
            requires
                m >= 0,
                pow2(up) > 0,
        ;
        lemma_div_by_multiple(m * pow2(up), pow2(base) as int);
    } else {
        let down = (base - g) as nat;
        lemma_pow2_pos(down);
        lemma_pow2_adds(g, down);
        assert(pow2(base) == pow2(g) * pow2(down));
        lemma_div_multiples_vanish_quotient(pow2(g) as int, m, pow2(down) as int);
        lemma_mul_is_commutative(pow2(g) as int, m);
        assert(m * pow2(g) == pow2(g) * m);
        assert(magnitude(b) / pow2(base) == m / (pow2(down) as int));
        if g + 24 <= base {
            lemma2_to64();
            if down > 24 {
                lemma_pow2_strictly_increases(24, down);
            }
            assert(m < pow2(down));
            lemma_basic_div(m, pow2(down) as int);
        }
    }
}

/// What is cut off is less than one tick: the whole ticks of a sample are
/// not above its absolute value and lie less than one tick below it.
pub proof fn lemma_cut_off_is_below_a_tick(bits: u32, base: nat)
    ensures
        0 <= magnitude(settled(bits)) - (magnitude(settled(bits)) / pow2(base)) * pow2(base) < pow2(
            base,
        ),
{
    let m = magnitude(settled(bits)) as int;
    let p = pow2(base) as int;
    lemma_pow2_pos(base);
    lemma_fundamental_div_mod(m, p);
    lemma_mod_bound(m, p);
    assert(p * (m / p) == (m / p) * p) by (nonlinear_arith);
}

/// A sample whose grade lies at most `HEADROOM` above the grade of the tick
/// has a tick count below `2^63` in absolute value.
pub proof fn lemma_tick_fits(bits: u32, base: nat)
    requires
        grade(settled(bits)) <= base + 39,
    ensures
        -0x8000_0000_0000_0000 < tick(bits, base) < 0x8000_0000_0000_0000,
{
    let b = settled(bits);
    let m = significand(b) as int;
    let g = grade(b);
    lemma_tick_by_grade(bits, base);
    lemma_pow2_pos(base);
    if g >= base {
        let up = (g - base) as nat;
        lemma2_to64_rest();
        if up < 39 {
            lemma_pow2_strictly_increases(up, 39);
        }
        lemma_pow2_pos(up);
        assert(m * pow2(up) < 0x8000_0000_0000_0000) by (nonlinear_arith)
            requires
                0 <= m < 0x100_0000,
                0 < pow2(up) <= 0x80_0000_0000,
        ;
    } else {
        let down = (base - g) as nat;
        lemma_pow2_pos(down);
        assert(0 <= m / (pow2(down) as int) <= m) by (nonlinear_arith)
            requires
                m >= 0,
                pow2(down) > 0,
        ;
    }
}

/// Ticks keep the order of the values: a sample that is not above another
/// in value is not above it in ticks, whatever the grade of the tick.
pub proof fn lemma_tick_keeps_order(a: u32, b: u32, base: nat)
    requires
        price_value(a) <= price_value(b),
    ensures
        tick(a, base) <= tick(b, base),
{
    let ma = magnitude(settled(a)) as int;
    let mb = magnitude(settled(b)) as int;
    let p = pow2(base) as int;
    lemma_pow2_pos(base);
    lemma_div_is_ordered(0, ma, p);
    lemma_div_is_ordered(0, mb, p);
    lemma_basic_div(0, p);
    if is_negative(settled(a)) {
        if is_negative(settled(b)) {
            lemma_div_is_ordered(mb, ma, p);
        }
    } else {
        if is_negative(settled(b)) {
            assert(ma == 0 && mb == 0);
        } else {
            lemma_div_is_ordered(ma, mb, p);
        }
    }
}

/// Within a series the ticks keep the order of the values. In particular
/// samples of equal value have equal ticks.
pub proof fn lemma_ticks_keep_order(s: Seq<u32>, i: int, j: int)
    requires
        0 <= i < s.len(),
        0 <= j < s.len(),
        price_value(s[i]) <= price_value(s[j]),
    ensures
        ticks_of(s)[i] <= ticks_of(s)[j],
        ticks_of(s)[i] == tick(s[i], base_grade(s)),
        ticks_of(s)[j] == tick(s[j], base_grade(s)),
{
    lemma_top_grade_bounds(s, i);
    lemma_top_grade_bounds(s, j);
    lemma_tick_fits(s[i], base_grade(s));
    lemma_tick_fits(s[j], base_grade(s));
    lemma_tick_keeps_order(s[i], s[j], base_grade(s));
}

/// A sample whose grade is not below the grade of the tick is a whole
/// number of ticks: nothing of it is cut off. Where the top grade of the
/// series is at most `HEADROOM`, that holds of every sample, with a tick of
/// the smallest positive value.
pub proof fn lemma_ticks_are_exact(s: Seq<u32>, i: int)
    requires
        0 <= i < s.len(),
        grade(settled(s[i])) >= base_grade(s),
    ensures
        ticks_of(s)[i] * pow2(base_grade(s)) == price_value(s[i]),
        top_grade(s) <= 39 ==> ticks_of(s)[i] == price_value(s[i]),
{
    let base = base_grade(s);
    lemma_top_grade_bounds(s, i);
    lemma_tick_fits(s[i], base);
    lemma_tick_by_grade(s[i], base);
    let q = (magnitude(settled(s[i])) / pow2(base)) as int;
    let p = pow2(base) as int;
    assert((-q) * p == -(q * p)) by (nonlinear_arith);
    if top_grade(s) <= 39 {
        lemma2_to64();
        assert(q * 1 == q);
    }
}

/// Within a series every sample lies less than one tick from its whole
/// ticks, and on the side away from zero: with `t` the tick count of the
/// sample and `u` the tick of the series, the value lies between `t * u` and
/// `(t + 1) * u` where it is not negative, and between `(t - 1) * u` and
/// `t * u` where it is.
pub proof fn lemma_ticks_miss_by_less_than_a_tick(s: Seq<u32>, i: int)
    requires
        0 <= i < s.len(),
    ensures
        price_value(s[i]) >= 0 ==> 0 <= price_value(s[i]) - ticks_of(s)[i] * pow2(base_grade(s))
            < pow2(base_grade(s)),
        price_value(s[i]) <= 0 ==> 0 <= ticks_of(s)[i] * pow2(base_grade(s)) - price_value(s[i])
            < pow2(base_grade(s)),
{
    let base = base_grade(s);
    lemma_top_grade_bounds(s, i);
    lemma_tick_fits(s[i], base);
    lemma_cut_off_is_below_a_tick(s[i], base);
    lemma_pow2_pos(base);
    let q = (magnitude(settled(s[i])) / pow2(base)) as int;
    let p = pow2(base) as int;
    assert((-q) * p == -(q * p)) by (nonlinear_arith);
    if magnitude(settled(s[i])) == 0 {
        lemma_basic_div(0, p);
        assert(0 * p == 0);
    }
}

/// The top grade of a series that is not empty is the grade of one of its
/// samples.
pub proof fn lemma_top_grade_is_attained(s: Seq<u32>)
    requires
        s.len() > 0,
    ensures
        exists|t: int| 0 <= t < s.len() && grade(settled(#[trigger] s[t])) == top_grade(s),
    decreases s.len(),
{
    let rest = s.drop_last();
    if grade(settled(s.last())) > top_grade(rest) || rest.len() == 0 {
        assert(grade(settled(s[s.len() - 1])) == top_grade(s));
    } else {
        lemma_top_grade_is_attained(rest);
        let t = choose|t: int| 0 <= t < rest.len() && grade(settled(#[trigger] rest[t])) == top_grade(rest);
        assert(rest[t] == s[t]);
        assert(grade(settled(s[t])) == top_grade(s));
    }
}

/// The extremes of a series stay apart: where the smallest and the largest
/// value of a series differ, so do their ticks. What is cut off below a
/// tick never makes a series flat that is not.
pub proof fn lemma_extremes_stay_apart(s: Seq<u32>, i: int, j: int)
    requires
        0 <= i < s.len(),
        0 <= j < s.len(),
        forall|k: int| 0 <= k < s.len() ==> price_value(s[i]) <= price_value(#[trigger] s[k]),
        forall|k: int| 0 <= k < s.len() ==> price_value(#[trigger] s[k]) <= price_value(s[j]),
        price_value(s[i]) < price_value(s[j]),
    ensures
        ticks_of(s)[i] < ticks_of(s)[j],
{
    let base = base_grade(s);
    let p = pow2(base) as int;
    lemma_pow2_pos(base);
    lemma_ticks_keep_order(s, i, j);
    lemma_tick_by_grade(s[i], base);
    lemma_tick_by_grade(s[j], base);
    lemma_settled_is_finite(s[i]);
    lemma_settled_is_finite(s[j]);
    let qi = (magnitude(settled(s[i])) / pow2(base)) as int;
    let qj = (magnitude(settled(s[j])) / pow2(base)) as int;
    if base == 0 {
        lemma2_to64();
        assert(qi * 1 == qi && qj * 1 == qj);
    } else if tick(s[i], base) == tick(s[j], base) {
        lemma_top_grade_is_attained(s);
        let t = choose|t: int| 0 <= t < s.len() && grade(settled(#[trigger] s[t])) == top_grade(s);
        let k = tick(s[t], base);
        lemma_ticks_keep_order(s, i, t);
        lemma_ticks_keep_order(s, t, j);
        assert(k == tick(s[i], base) && k == tick(s[j], base));
        lemma_tick_by_grade(s[t], base);
        lemma_settled_is_finite(s[t]);
        lemma2_to64();
        lemma2_to64_rest();
        let mt = significand(settled(s[t])) as int;
        assert(mt >= 0x80_0000);
        assert(mt * pow2(39) >= 0x4000_0000_0000_0000) by (nonlinear_arith)
            requires
                mt >= 0x80_0000,
                pow2(39) == 0x80_0000_0000,
        ;
        assert(k >= 0x4000_0000_0000_0000 || k <= -0x4000_0000_0000_0000);
        // A tick count this large is out of reach for a sample below the
        // grade of the tick, so both extremes are whole numbers of ticks.
        let mi = significand(settled(s[i])) as int;
        let mj = significand(settled(s[j])) as int;
        if grade(settled(s[i])) < base {
            let down = (base - grade(settled(s[i]))) as nat;
            lemma_pow2_pos(down);
            assert(0 <= mi / (pow2(down) as int) <= mi) by (nonlinear_arith)
                requires
                    mi >= 0,
                    pow2(down) > 0,
            ;
        }
        if grade(settled(s[j])) < base {
            let down = (base - grade(settled(s[j]))) as nat;
            lemma_pow2_pos(down);
            assert(0 <= mj / (pow2(down) as int) <= mj) by (nonlinear_arith)
                requires
                    mj >= 0,
                    pow2(down) > 0,
            ;
        }
        assert(qi * p == magnitude(settled(s[i])));
        assert(qj * p == magnitude(settled(s[j])));
        assert(qi == qj);
        assert(false);
    }
}

/// The finite pattern that is drawn for `bits`.
pub fn settle(bits: u32) -> (drawn: u32)
    ensures
        drawn == settled(bits),
{
    let exponent: u32 = (bits / 0x80_0000) % 256;
    if exponent != 255 {
        bits
    } else if bits % 0x80_0000 != 0 {
        0
    } else if bits >= 0x8000_0000 {
        0xFF7F_FFFF
    } else {
        0x7F7F_FFFF
    }
}

/// The grade of the finite pattern that is drawn for `bits`.
fn grade_of(bits: u32) -> (g: u32)
    ensures
        g == grade(settled(bits)),
        g <= 253,
{
    let exponent: u32 = (settle(bits) / 0x80_0000) % 256;
    if exponent == 0 {
        0
    } else {
        exponent - 1
    }
}

/// Two to the power `k`.
fn two_to(k: u32) -> (p: u64)
    requires
        k <= 39,
    ensures
        p == pow2(k as nat),
        0 < p <= 0x80_0000_0000,
{
    let mut p: u64 = 1;
    let mut i: u32 = 0;
    proof {
        lemma2_to64();
        lemma2_to64_rest();
    }
    while i < k
        invariant
            i <= k <= 39,
            p == pow2(i as nat),
            0 < p <= pow2(39),
            pow2(39) == 0x80_0000_0000,
        decreases k - i,
    {
        proof {
            lemma_pow2_unfold((i + 1) as nat);
            if i + 1 < 39 {
                lemma_pow2_strictly_increases((i + 1) as nat, 39);
            }
        }
        p = 2 * p;
        i += 1;
    }
    p
}

/// The sample in ticks of grade `base`.
fn tick_at(bits: u32, base: u32) -> (t: i64)
    requires
        grade(settled(bits)) <= base + 39,
    ensures
        t == tick(bits, base as nat),
{
    let drawn: u32 = settle(bits);
    let exponent: u32 = (drawn / 0x80_0000) % 256;
    let fraction: u32 = drawn % 0x80_0000;
    let m: u64 = if exponent == 0 {
        fraction as u64
    } else {
        0x80_0000 + fraction as u64
    };
    let g: u32 = if exponent == 0 {
        0
    } else {
        exponent - 1
    };
    proof {
        lemma_tick_by_grade(bits, base as nat);
        lemma_tick_fits(bits, base as nat);
    }
    let count: u64 = if g >= base {
        let p: u64 = two_to(g - base);
        assert(m * p < 0x8000_0000_0000_0000) by (nonlinear_arith)
            requires
                0 <= m < 0x100_0000,
                0 < p <= 0x80_0000_0000,
        ;
        m * p
    } else if base - g >= 24 {
        0
    } else {
        m / two_to(base - g)
    };
    if drawn >= 0x8000_0000 {
        -(count as i64)
    } else {
        count as i64
    }
}

/// The highest grade among the samples.
fn highest_grade(prices: &Vec<u32>) -> (top: u32)
    ensures
        top == top_grade(prices@),
        top <= 253,
{
    let n: usize = prices.len();
    let mut top: u32 = 0;
    let mut i: usize = 0;
    assert(prices@.take(0).len() == 0);
    while i < n
        invariant
            n == prices@.len(),
            0 <= i <= n,
            top == top_grade(prices@.take(i as int)),
            top <= 253,
        decreases n - i,
    {
        let g: u32 = grade_of(prices[i]);
        proof {
            let next = prices@.take(i + 1);
            assert(next.drop_last() =~= prices@.take(i as int));
            assert(next.last() == prices[i as int]);
        }
        if g > top {
            top = g;
        }
        i += 1;
    }
    assert(prices@.take(n as int) =~= prices@);
    top
}

/// Brings a series of bit patterns to its own ticks.
pub fn quantize(prices: &Vec<u32>) -> (ticks: Vec<i64>)
    ensures
        ticks@ == ticks_of(prices@),
{
    let n: usize = prices.len();
    let top: u32 = highest_grade(prices);
    let base: u32 = if top > HEADROOM {
        top - HEADROOM
    } else {
        0
    };
    let mut ticks: Vec<i64> = Vec::new();
    let mut i: usize = 0;
    while i < n
        invariant
            n == prices@.len(),
            0 <= i <= n,
            base == base_grade(prices@),
            ticks@.len() == i,
            forall|k: int| 0 <= k < i ==> #[trigger] ticks@[k] == ticks_of(prices@)[k],
        decreases n - i,
    {
        proof {
            lemma_top_grade_bounds(prices@, i as int);
            lemma_tick_fits(prices@[i as int], base as nat);
        }
        let t: i64 = tick_at(prices[i], base);
        ticks.push(t);
        i += 1;
    }
    assert(ticks@ =~= ticks_of(prices@));
    ticks
}

} // verus!
