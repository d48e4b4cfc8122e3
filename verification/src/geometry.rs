//! Mapping a price series onto normalized device coordinates.
//!
//! A series is mapped in its own integer ticks. A coordinate is an exact
//! fraction in `[-1, 1]`, so that the edges of the chart are hit exactly and
//! nothing is lost to rounding before the values reach the device.

use vstd::prelude::*;
use vstd::pervasive::unreached;
use crate::rounding::{in_unit, lemma_edges_are_exact, nearest_float, nearest_pattern, MINUS_ONE, ONE};
use crate::sample::{
    base_grade,
    grade,
    lemma_extremes_stay_apart,
    lemma_settled_is_finite,
    lemma_tick_by_grade,
    lemma_ticks_are_exact,
    lemma_ticks_keep_order,
    lemma_ticks_miss_by_less_than_a_tick,
    lemma_top_grade_is_attained,
    magnitude,
    price_value,
    quantize,
    settled,
    significand,
    ticks_of,
    top_grade,
};
use vstd::arithmetic::power2::{
    lemma2_to64_rest,
    lemma_pow2_pos,
    lemma_pow2_strictly_increases,
    lemma_pow2_unfold,
    pow2,
};
use vstd::math::abs;

verus! {

/// An exact fraction `num / den`.
#[derive(Clone, Copy, Debug, PartialEq, Eq, Structural)]
pub struct Ratio {
    pub num: i128,
    pub den: i128,
}

impl View for Ratio {
    type V = (int, int);

    /// Numerator and denominator as mathematical integers.
    open spec fn view(&self) -> (int, int) {
        (self.num as int, self.den as int)
    }
}

/// The smallest sample of a series (0 for the empty series).
pub open spec fn lowest(s: Seq<i64>) -> int
    decreases s.len(),
{
    if s.len() == 0 {
        0
    } else if s.len() == 1 {
        s[0] as int
    } else {
        let rest = lowest(s.drop_last());
        if s.last() < rest {
            s.last() as int
        } else {
            rest
        }
    }
}

/// The largest sample of a series (0 for the empty series).
pub open spec fn highest(s: Seq<i64>) -> int
    decreases s.len(),
{
    if s.len() == 0 {
        0
    } else if s.len() == 1 {
        s[0] as int
    } else {
        let rest = highest(s.drop_last());
        if s.last() > rest {
            s.last() as int
        } else {
            rest
        }
    }
}

/// Twice the lower end of the vertical span. A flat series gets a span of
/// width one centered on its value, so the end lies half a tick below it.
pub open spec fn doubled_low(lo: int, hi: int) -> int {
    if lo == hi {
        2 * lo - 1
    } else {
        2 * lo
    }
}

/// Twice the upper end of the vertical span.
pub open spec fn doubled_high(lo: int, hi: int) -> int {
    if lo == hi {
        2 * hi + 1
    } else {
        2 * hi
    }
}

/// The horizontal coordinate of sample `i` out of `n`: the index spread
/// evenly over `[-1, 1]`, and 0 for a single sample.
pub open spec fn x_coordinate(i: int, n: int) -> (int, int) {
    if n == 1 {
        (0, 1)
    } else {
        (2 * i - (n - 1), n - 1)
    }
}

/// The vertical coordinate of price `p` in a series that spans `lo..=hi`:
/// `2 * (p - low) / (high - low) - 1` over the common denominator, where
/// `low` and `high` are the ends of the span.
pub open spec fn y_coordinate(p: int, lo: int, hi: int) -> (int, int) {
    (4 * p - doubled_low(lo, hi) - doubled_high(lo, hi), doubled_high(lo, hi) - doubled_low(lo, hi))
}

/// The vertex data of a series: for each sample in order its horizontal,
/// then its vertical coordinate.
pub open spec fn vertex_coordinates(prices: Seq<i64>) -> Seq<(int, int)> {
    Seq::new(
        2 * prices.len(),
        |k: int|
            if k % 2 == 0 {
                x_coordinate(k / 2, prices.len() as int)
            } else {
                y_coordinate(prices[k / 2] as int, lowest(prices), highest(prices))
            },
    )
}

/// `lowest` is a sample of the series and no sample lies below it.
pub proof fn lemma_lowest_is_minimum(s: Seq<i64>)
    requires
        s.len() > 0,
    ensures
        forall|i: int| 0 <= i < s.len() ==> lowest(s) <= #[trigger] s[i],
        exists|i: int| 0 <= i < s.len() && #[trigger] s[i] == lowest(s),
    decreases s.len(),
{
    if s.len() == 1 {
        assert(s[0] == lowest(s));
    } else {
        let rest = s.drop_last();
        lemma_lowest_is_minimum(rest);
        assert forall|i: int| 0 <= i < s.len() implies lowest(s) <= #[trigger] s[i] by {
            if i < rest.len() {
                assert(rest[i] == s[i]);
            }
        }
        if s.last() < lowest(rest) {
            assert(s[s.len() - 1] == lowest(s));
        } else {
            let j = choose|j: int| 0 <= j < rest.len() && #[trigger] rest[j] == lowest(rest);
            assert(s[j] == lowest(s));
        }
    }
}

/// `highest` is a sample of the series and no sample lies above it.
pub proof fn lemma_highest_is_maximum(s: Seq<i64>)
    requires
        s.len() > 0,
    ensures
        forall|i: int| 0 <= i < s.len() ==> highest(s) >= #[trigger] s[i],
        exists|i: int| 0 <= i < s.len() && #[trigger] s[i] == highest(s),
    decreases s.len(),
{
    if s.len() == 1 {
        assert(s[0] == highest(s));
    } else {
        let rest = s.drop_last();
        lemma_highest_is_maximum(rest);
        assert forall|i: int| 0 <= i < s.len() implies highest(s) >= #[trigger] s[i] by {
            if i < rest.len() {
                assert(rest[i] == s[i]);
            }
        }
        if s.last() > highest(rest) {
            assert(s[s.len() - 1] == highest(s));
        } else {
            let j = choose|j: int| 0 <= j < rest.len() && #[trigger] rest[j] == highest(rest);
            assert(s[j] == highest(s));
        }
    }
}

/// In a series that is not flat, every sample at the minimum maps to the
/// bottom edge (`y == -1`) and every sample at the maximum to the top edge
/// (`y == +1`).
pub proof fn lemma_extremes_touch_edges(prices: Seq<i64>, i: int)
    requires
        0 <= i < prices.len(),
        lowest(prices) != highest(prices),
    ensures
        vertex_coordinates(prices)[2 * i + 1].1 > 0,
        prices[i] == lowest(prices) ==> vertex_coordinates(prices)[2 * i + 1].0
            == -vertex_coordinates(prices)[2 * i + 1].1,
        prices[i] == highest(prices) ==> vertex_coordinates(prices)[2 * i + 1].0
            == vertex_coordinates(prices)[2 * i + 1].1,
{
    lemma_lowest_is_minimum(prices);
    lemma_highest_is_maximum(prices);
    assert(lowest(prices) <= prices[i] <= highest(prices));
    assert((2 * i + 1) % 2 == 1 && (2 * i + 1) / 2 == i);
}

/// In a series whose samples are all equal, the span is never empty and
/// every vertex lies on the horizontal center line (`y == 0`).
pub proof fn lemma_flat_series_is_centered(prices: Seq<i64>, i: int)
    requires
        0 <= i < prices.len(),
        forall|j: int, k: int| 0 <= j < prices.len() && 0 <= k < prices.len() ==> prices[j] == prices[k],
    ensures
        vertex_coordinates(prices)[2 * i + 1].1 != 0,
        vertex_coordinates(prices)[2 * i + 1].0 == 0,
{
    lemma_lowest_is_minimum(prices);
    lemma_highest_is_maximum(prices);
    let a = choose|a: int| 0 <= a < prices.len() && #[trigger] prices[a] == lowest(prices);
    let b = choose|b: int| 0 <= b < prices.len() && #[trigger] prices[b] == highest(prices);
    assert(prices[a] == prices[i] && prices[b] == prices[i]);
    assert((2 * i + 1) % 2 == 1 && (2 * i + 1) / 2 == i);
}

/// Every coordinate is a fraction with a positive denominator and lies in
/// `[-1, 1]`.
pub proof fn lemma_coordinates_are_normalized(prices: Seq<i64>, k: int)
    requires
        0 <= k < 2 * prices.len(),
    ensures
        vertex_coordinates(prices)[k].1 > 0,
        -vertex_coordinates(prices)[k].1 <= vertex_coordinates(prices)[k].0
            <= vertex_coordinates(prices)[k].1,
{
    lemma_lowest_is_minimum(prices);
    lemma_highest_is_maximum(prices);
    let i = k / 2;
    assert(0 <= i < prices.len());
    assert(lowest(prices) <= prices[i] <= highest(prices));
}

/// The samples are spread from the left edge to the right edge: with two or
/// more samples the first has `x == -1`, the last `x == +1`, and the
/// numerators over the common denominator grow by two from each sample to
/// the next.
pub proof fn lemma_samples_span_the_width(prices: Seq<i64>, i: int)
    requires
        prices.len() >= 2,
        0 <= i < prices.len(),
    ensures
        vertex_coordinates(prices)[2 * i].1 == prices.len() - 1,
        vertex_coordinates(prices)[2 * i].0 == 2 * i - (prices.len() - 1),
        i == 0 ==> vertex_coordinates(prices)[2 * i].0 == -vertex_coordinates(prices)[2 * i].1,
        i == prices.len() - 1 ==> vertex_coordinates(prices)[2 * i].0 == vertex_coordinates(
            prices,
        )[2 * i].1,
{
    assert((2 * i) % 2 == 0 && (2 * i) / 2 == i);
}

/// A sample that no sample of the series lies below is at `lowest`.
pub proof fn lemma_minimum_is_lowest(s: Seq<i64>, i: int)
    requires
        0 <= i < s.len(),
        forall|k: int| 0 <= k < s.len() ==> s[i] <= #[trigger] s[k],
    ensures
        s[i] == lowest(s),
{
    lemma_lowest_is_minimum(s);
}

/// A sample that no sample of the series lies above is at `highest`.
pub proof fn lemma_maximum_is_highest(s: Seq<i64>, i: int)
    requires
        0 <= i < s.len(),
        forall|k: int| 0 <= k < s.len() ==> s[i] >= #[trigger] s[k],
    ensures
        s[i] == highest(s),
{
    lemma_highest_is_maximum(s);
}

/// A series that is not empty has a sample of smallest and a sample of
/// largest value.
pub proof fn lemma_price_extremes_exist(prices: Seq<u32>) -> (ends: (int, int))
    requires
        prices.len() > 0,
    ensures
        0 <= ends.0 < prices.len(),
        0 <= ends.1 < prices.len(),
        forall|k: int|
            0 <= k < prices.len() ==> price_value(prices[ends.0]) <= price_value(
                #[trigger] prices[k],
            ),
        forall|k: int|
            0 <= k < prices.len() ==> price_value(#[trigger] prices[k]) <= price_value(
                prices[ends.1],
            ),
    decreases prices.len(),
{
    if prices.len() == 1 {
        (0, 0)
    } else {
        let rest = prices.drop_last();
        let last = prices.len() - 1;
        let (a, b) = lemma_price_extremes_exist(rest);
        assert(rest[a] == prices[a] && rest[b] == prices[b]);
        let lo = if price_value(prices[last]) < price_value(prices[a]) {
            last
        } else {
            a
        };
        let hi = if price_value(prices[last]) > price_value(prices[b]) {
            last
        } else {
            b
        };
        assert forall|k: int| 0 <= k < prices.len() implies price_value(prices[lo]) <= price_value(
            #[trigger] prices[k],
        ) && price_value(prices[k]) <= price_value(prices[hi]) by {
            if k < last {
                assert(rest[k] == prices[k]);
            }
        }
        (lo, hi)
    }
}

/// In a price series that holds two samples `a` and `b` of different value,
/// every sample of the smallest value maps to the bottom edge (`y == -1`)
/// and every sample of the largest value to the top edge (`y == +1`).
pub proof fn lemma_price_extremes_touch_edges(prices: Seq<u32>, i: int, a: int, b: int)
    requires
        0 <= i < prices.len(),
        0 <= a < prices.len(),
        0 <= b < prices.len(),
        price_value(prices[a]) != price_value(prices[b]),
    ensures
        vertex_coordinates(ticks_of(prices))[2 * i + 1].1 > 0,
        (forall|k: int|
            0 <= k < prices.len() ==> price_value(prices[i]) <= price_value(#[trigger] prices[k]))
            ==> vertex_coordinates(ticks_of(prices))[2 * i + 1].0 == -vertex_coordinates(
            ticks_of(prices),
        )[2 * i + 1].1,
        (forall|k: int|
            0 <= k < prices.len() ==> price_value(#[trigger] prices[k]) <= price_value(prices[i]))
            ==> vertex_coordinates(ticks_of(prices))[2 * i + 1].0 == vertex_coordinates(
            ticks_of(prices),
        )[2 * i + 1].1,
{
    let ticks = ticks_of(prices);
    let (lo, hi) = lemma_price_extremes_exist(prices);
    assert(price_value(prices[lo]) <= price_value(prices[a]));
    assert(price_value(prices[lo]) <= price_value(prices[b]));
    assert(price_value(prices[a]) <= price_value(prices[hi]));
    assert(price_value(prices[b]) <= price_value(prices[hi]));
    lemma_extremes_stay_apart(prices, lo, hi);
    lemma_lowest_is_minimum(ticks);
    lemma_highest_is_maximum(ticks);
    assert(lowest(ticks) <= ticks[lo] < ticks[hi] <= highest(ticks));
    lemma_extremes_touch_edges(ticks, i);
    if forall|k: int|
        0 <= k < prices.len() ==> price_value(prices[i]) <= price_value(#[trigger] prices[k]) {
        assert forall|k: int| 0 <= k < ticks.len() implies ticks[i] <= #[trigger] ticks[k] by {
            lemma_ticks_keep_order(prices, i, k);
        }
        lemma_minimum_is_lowest(ticks, i);
    }
    if forall|k: int|
        0 <= k < prices.len() ==> price_value(#[trigger] prices[k]) <= price_value(prices[i]) {
        assert forall|k: int| 0 <= k < ticks.len() implies ticks[i] >= #[trigger] ticks[k] by {
            lemma_ticks_keep_order(prices, k, i);
        }
        lemma_maximum_is_highest(ticks, i);
    }
}

/// Between the edges the mapping is the linear interpolation of the values
/// themselves: in a series all of whose samples are whole numbers of ticks,
/// with `a` a sample of the smallest and `b` one of the largest value, the
/// vertical coordinate `y` of every sample `i` is
/// `2 * (value(i) - value(a)) / (value(b) - value(a)) - 1`.
pub proof fn lemma_interpolation_is_exact(prices: Seq<u32>, i: int, a: int, b: int)
    requires
        0 <= i < prices.len(),
        0 <= a < prices.len(),
        0 <= b < prices.len(),
        forall|k: int| 0 <= k < prices.len() ==> price_value(prices[a]) <= price_value(#[trigger] prices[k]),
        forall|k: int| 0 <= k < prices.len() ==> price_value(#[trigger] prices[k]) <= price_value(prices[b]),
        price_value(prices[a]) < price_value(prices[b]),
        forall|k: int| 0 <= k < prices.len() ==> grade(settled(#[trigger] prices[k])) >= base_grade(prices),
    ensures
        vertex_coordinates(ticks_of(prices))[2 * i + 1].0 * (price_value(prices[b]) - price_value(
            prices[a],
        )) == vertex_coordinates(ticks_of(prices))[2 * i + 1].1 * (2 * price_value(prices[i])
            - price_value(prices[a]) - price_value(prices[b])),
{
    let ticks = ticks_of(prices);
    let p = pow2(base_grade(prices)) as int;
    lemma_extremes_stay_apart(prices, a, b);
    assert forall|k: int| 0 <= k < ticks.len() implies ticks[a] <= #[trigger] ticks[k] by {
        lemma_ticks_keep_order(prices, a, k);
    }
    assert forall|k: int| 0 <= k < ticks.len() implies ticks[b] >= #[trigger] ticks[k] by {
        lemma_ticks_keep_order(prices, k, b);
    }
    lemma_minimum_is_lowest(ticks, a);
    lemma_maximum_is_highest(ticks, b);
    lemma_ticks_are_exact(prices, i);
    lemma_ticks_are_exact(prices, a);
    lemma_ticks_are_exact(prices, b);
    assert((2 * i + 1) % 2 == 1 && (2 * i + 1) / 2 == i);
    let ti = ticks[i] as int;
    let ta = ticks[a] as int;
    let tb = ticks[b] as int;
    assert((4 * ti - 2 * ta - 2 * tb) * (tb * p - ta * p) == (2 * tb - 2 * ta) * (2 * (ti * p) - ta
        * p - tb * p)) by (nonlinear_arith);
}

/// How far a coordinate over ticks lies from the same coordinate over the
/// values, for three values that each lie less than one tick `u` from their
/// whole ticks: the cross product of the two fractions is at most twelve
/// ticks times the span in ticks, and nothing where nothing is cut off.
proof fn lemma_gap_of_cut_values(
    ti: int,
    ta: int,
    tb: int,
    vi: int,
    va: int,
    vb: int,
    u: int,
)
    requires
        u > 0,
        ta <= ti <= tb,
        ta < tb,
        -u < vi - ti * u < u,
        -u < va - ta * u < u,
        -u < vb - tb * u < u,
    ensures
        -(12 * (u * (tb - ta))) <= (4 * ti - 2 * ta - 2 * tb) * (vb - va) - (2 * tb - 2 * ta) * (2
            * vi - va - vb) <= 12 * (u * (tb - ta)),
        vi == ti * u && va == ta * u && vb == tb * u ==> (4 * ti - 2 * ta - 2 * tb) * (vb - va) == (
        2 * tb - 2 * ta) * (2 * vi - va - vb),
{
    let span = tb - ta;
    let level = 2 * ti - ta - tb;
    let es = (vb - tb * u) - (va - ta * u);
    let en = 2 * (vi - ti * u) - (va - ta * u) - (vb - tb * u);
    let gap = (4 * ti - 2 * ta - 2 * tb) * (vb - va) - (2 * tb - 2 * ta) * (2 * vi - va - vb);
    assert(vb - va == span * u + es) by (nonlinear_arith)
        requires
            span == tb - ta,
            es == (vb - tb * u) - (va - ta * u),
    ;
    assert(2 * vi - va - vb == level * u + en) by (nonlinear_arith)
        requires
            level == 2 * ti - ta - tb,
            en == 2 * (vi - ti * u) - (va - ta * u) - (vb - tb * u),
    ;
    assert(gap == 2 * (level * es - span * en)) by (nonlinear_arith)
        requires
            gap == (2 * level) * (vb - va) - (2 * span) * (2 * vi - va - vb),
            vb - va == span * u + es,
            2 * vi - va - vb == level * u + en,
    ;
    assert(-(2 * (u * span)) <= level * es <= 2 * (u * span)) by (nonlinear_arith)
        requires
            -span <= level <= span,
            -2 * u < es < 2 * u,
            u > 0,
    ;
    assert(-(4 * (u * span)) <= span * en <= 4 * (u * span)) by (nonlinear_arith)
        requires
            span > 0,
            -4 * u < en < 4 * u,
            u > 0,
    ;
    if vi == ti * u && va == ta * u && vb == tb * u {
        assert(level * es == 0 && span * en == 0) by (nonlinear_arith)
            requires
                es == 0,
                en == 0,
        ;
    }
}

/// A series of which anything is cut off is wide: where a sample lies below
/// the grade of the tick, the largest value of the series lies at least
/// `2^61` ticks above the smallest.
pub proof fn lemma_cut_off_means_a_wide_span(prices: Seq<u32>, j: int, a: int, b: int)
    requires
        0 <= j < prices.len(),
        0 <= a < prices.len(),
        0 <= b < prices.len(),
        forall|k: int| 0 <= k < prices.len() ==> price_value(prices[a]) <= price_value(#[trigger] prices[k]),
        forall|k: int| 0 <= k < prices.len() ==> price_value(#[trigger] prices[k]) <= price_value(prices[b]),
        grade(settled(prices[j])) < base_grade(prices),
    ensures
        price_value(prices[b]) - price_value(prices[a]) >= 0x2000_0000_0000_0000 * pow2(
            base_grade(prices),
        ),
{
    let base = base_grade(prices);
    let u = pow2(base) as int;
    lemma_pow2_pos(base);
    let vj = price_value(prices[j]);
    let gj = grade(settled(prices[j]));
    lemma_settled_is_finite(prices[j]);
    lemma_pow2_unfold(base);
    if gj + 1 < base {
        lemma_pow2_strictly_increases(gj, (base - 1) as nat);
    }
    let mj = significand(settled(prices[j])) as int;
    let big = magnitude(settled(prices[j])) as int;
    lemma_pow2_pos(gj);
    assert(2 * big < 0x100_0000 * u) by (nonlinear_arith)
        requires
            big == mj * pow2(gj),
            0 <= mj < 0x100_0000,
            0 < pow2(gj),
            2 * pow2(gj) <= u,
    ;
    assert(-0x80_0000 * u < vj < 0x80_0000 * u);
    lemma_top_grade_is_attained(prices);
    let t = choose|t: int|
        0 <= t < prices.len() && grade(settled(#[trigger] prices[t])) == top_grade(prices);
    let vt = price_value(prices[t]);
    lemma_ticks_are_exact(prices, t);
    lemma_ticks_keep_order(prices, a, t);
    lemma_tick_by_grade(prices[t], base);
    lemma_settled_is_finite(prices[t]);
    lemma2_to64_rest();
    let mt = significand(settled(prices[t])) as int;
    assert(mt >= 0x80_0000);
    let tt = ticks_of(prices)[t] as int;
    assert(mt * pow2(39) >= 0x4000_0000_0000_0000) by (nonlinear_arith)
        requires
            mt >= 0x80_0000,
            pow2(39) == 0x80_0000_0000,
    ;
    assert(tt >= 0x4000_0000_0000_0000 || tt <= -0x4000_0000_0000_0000);
    assert(vt >= 0x4000_0000_0000_0000 * u || vt <= -0x4000_0000_0000_0000 * u) by (nonlinear_arith)
        requires
            vt == tt * u,
            u > 0,
            tt >= 0x4000_0000_0000_0000 || tt <= -0x4000_0000_0000_0000,
    ;
    assert(price_value(prices[a]) <= vt <= price_value(prices[b]));
    assert(price_value(prices[a]) <= vj <= price_value(prices[b]));
}

/// Everywhere the mapping is the linear interpolation of the values but for
/// at most `2^-58`: in a series with `a` a sample of the smallest and `b`
/// one of the largest value, the vertical coordinate `y` of every sample `i`
/// differs from `2 * (value(i) - value(a)) / (value(b) - value(a)) - 1` by
/// no more than that. What is cut off below a tick is all that can make
/// the two differ, and a series that has anything cut off spans at least
/// `2^61` ticks.
pub proof fn lemma_interpolation_is_near(prices: Seq<u32>, i: int, a: int, b: int)
    requires
        0 <= i < prices.len(),
        0 <= a < prices.len(),
        0 <= b < prices.len(),
        forall|k: int| 0 <= k < prices.len() ==> price_value(prices[a]) <= price_value(#[trigger] prices[k]),
        forall|k: int| 0 <= k < prices.len() ==> price_value(#[trigger] prices[k]) <= price_value(prices[b]),
        price_value(prices[a]) < price_value(prices[b]),
    ensures
        abs(
            vertex_coordinates(ticks_of(prices))[2 * i + 1].0 * (price_value(prices[b])
                - price_value(prices[a])) - vertex_coordinates(ticks_of(prices))[2 * i + 1].1 * (2
                * price_value(prices[i]) - price_value(prices[a]) - price_value(prices[b])),
        ) * 0x400_0000_0000_0000 <= vertex_coordinates(ticks_of(prices))[2 * i + 1].1 * (
        price_value(prices[b]) - price_value(prices[a])),
{
    let ticks = ticks_of(prices);
    let base = base_grade(prices);
    let u = pow2(base) as int;
    lemma_pow2_pos(base);
    lemma_extremes_stay_apart(prices, a, b);
    assert forall|k: int| 0 <= k < ticks.len() implies ticks[a] <= #[trigger] ticks[k] by {
        lemma_ticks_keep_order(prices, a, k);
    }
    assert forall|k: int| 0 <= k < ticks.len() implies ticks[b] >= #[trigger] ticks[k] by {
        lemma_ticks_keep_order(prices, k, b);
    }
    lemma_minimum_is_lowest(ticks, a);
    lemma_maximum_is_highest(ticks, b);
    assert((2 * i + 1) % 2 == 1 && (2 * i + 1) / 2 == i);
    let ti = ticks[i] as int;
    let ta = ticks[a] as int;
    let tb = ticks[b] as int;
    let vi = price_value(prices[i]);
    let va = price_value(prices[a]);
    let vb = price_value(prices[b]);
    lemma_ticks_miss_by_less_than_a_tick(prices, i);
    lemma_ticks_miss_by_less_than_a_tick(prices, a);
    lemma_ticks_miss_by_less_than_a_tick(prices, b);
    lemma_gap_of_cut_values(ti, ta, tb, vi, va, vb, u);
    let y1 = vertex_coordinates(ticks)[2 * i + 1].1;
    let gap = vertex_coordinates(ticks)[2 * i + 1].0 * (vb - va) - y1 * (2 * vi - va - vb);
    let span = tb - ta;
    assert(y1 == 2 * span);
    let off = abs(gap) as int;
    if vi == ti * u && va == ta * u && vb == tb * u {
        assert(gap == 0);
        assert(y1 * (vb - va) > 0) by (nonlinear_arith)
            requires
                y1 > 0,
                vb - va > 0,
        ;
    } else {
        let j = if vi != ti * u {
            i
        } else if va != ta * u {
            a
        } else {
            b
        };
        if grade(settled(prices[j])) >= base {
            lemma_ticks_are_exact(prices, j);
        }
        lemma_cut_off_means_a_wide_span(prices, j, a, b);
        assert(off * 0x400_0000_0000_0000 <= y1 * (vb - va)) by (nonlinear_arith)
            requires
                0 <= off <= 12 * (u * span),
                y1 == 2 * span,
                span > 0,
                u > 0,
                vb - va >= 0x2000_0000_0000_0000 * u,
        ;
    }
}

/// In a price series whose samples are all of one value, the span is never
/// empty and every vertex lies on the horizontal center line (`y == 0`).
pub proof fn lemma_flat_price_series_is_centered(prices: Seq<u32>, i: int)
    requires
        0 <= i < prices.len(),
        forall|j: int, k: int|
            0 <= j < prices.len() && 0 <= k < prices.len() ==> price_value(prices[j])
                == price_value(prices[k]),
    ensures
        vertex_coordinates(ticks_of(prices))[2 * i + 1].1 != 0,
        vertex_coordinates(ticks_of(prices))[2 * i + 1].0 == 0,
{
    let ticks = ticks_of(prices);
    assert forall|j: int, k: int| 0 <= j < ticks.len() && 0 <= k < ticks.len() implies ticks[j]
        == ticks[k] by {
        lemma_ticks_keep_order(prices, j, k);
        lemma_ticks_keep_order(prices, k, j);
    }
    lemma_flat_series_is_centered(ticks, i);
}

/// The data that is uploaded for a price series: its vertex data, each
/// coordinate rounded to the nearest 32-bit number.
pub open spec fn upload_of(prices: Seq<u32>) -> Seq<u32> {
    vertex_coordinates(ticks_of(prices)).map_values(|c: (int, int)| nearest_pattern(c.0, c.1))
}

/// Every vertical coordinate has a denominator that can be rounded.
pub proof fn lemma_vertical_span_is_bounded(ticks: Seq<i64>, i: int)
    requires
        0 <= i < ticks.len(),
    ensures
        0 < vertex_coordinates(ticks)[2 * i + 1].1 < 0x4_0000_0000_0000_0000,
{
    lemma_lowest_is_minimum(ticks);
    lemma_highest_is_maximum(ticks);
    assert((2 * i + 1) % 2 == 1 && (2 * i + 1) / 2 == i);
}

/// What is uploaded for the extremes: in a price series that holds two
/// samples `a` and `b` of different value, every sample of the smallest
/// value is uploaded with the vertical coordinate minus one, and every
/// sample of the largest value with the vertical coordinate one, exactly.
pub proof fn lemma_uploaded_extremes_are_edges(prices: Seq<u32>, i: int, a: int, b: int)
    requires
        0 <= i < prices.len(),
        0 <= a < prices.len(),
        0 <= b < prices.len(),
        price_value(prices[a]) != price_value(prices[b]),
    ensures
        (forall|k: int|
            0 <= k < prices.len() ==> price_value(prices[i]) <= price_value(#[trigger] prices[k]))
            ==> upload_of(prices)[2 * i + 1] == MINUS_ONE,
        (forall|k: int|
            0 <= k < prices.len() ==> price_value(#[trigger] prices[k]) <= price_value(prices[i]))
            ==> upload_of(prices)[2 * i + 1] == ONE,
{
    lemma_price_extremes_touch_edges(prices, i, a, b);
    lemma_vertical_span_is_bounded(ticks_of(prices), i);
    lemma_edges_are_exact(vertex_coordinates(ticks_of(prices))[2 * i + 1].1);
}

/// What is uploaded for a flat series: where the samples are all of one
/// value, every vertex is uploaded with the vertical coordinate zero.
pub proof fn lemma_uploaded_flat_series_is_centered(prices: Seq<u32>, i: int)
    requires
        0 <= i < prices.len(),
        forall|j: int, k: int|
            0 <= j < prices.len() && 0 <= k < prices.len() ==> price_value(prices[j])
                == price_value(prices[k]),
    ensures
        upload_of(prices)[2 * i + 1] == 0,
{
    lemma_flat_price_series_is_centered(prices, i);
}

/// The smallest and the largest sample, or `None` for an empty series.
pub fn series_bounds(prices: &Vec<i64>) -> (bounds: Option<(i64, i64)>)
    ensures
        bounds is None <==> prices@.len() == 0,
        bounds matches Some((lo, hi)) ==> lo == lowest(prices@) && hi == highest(prices@),
{
    let n: usize = prices.len();
    if n == 0 {
        return None;
    }
    let mut lo: i64 = prices[0];
    let mut hi: i64 = prices[0];
    let mut i: usize = 1;
    assert(prices@.take(1).len() == 1);
    while i < n
        invariant
            n == prices@.len(),
            1 <= i <= n,
            lo == lowest(prices@.take(i as int)),
            hi == highest(prices@.take(i as int)),
        decreases n - i,
    {
        let p: i64 = prices[i];
        proof {
            let next = prices@.take(i + 1);
            assert(next.drop_last() =~= prices@.take(i as int));
            assert(next.last() == p);
        }
        if p < lo {
            lo = p;
        }
        if p > hi {
            hi = p;
        }
        i += 1;
    }
    assert(prices@.take(n as int) =~= prices@);
    Some((lo, hi))
}

/// The vertex data of one frame: coordinates in pairs, horizontal first,
/// one pair per sample, in sample order.
#[derive(Debug, PartialEq, Eq)]
pub struct VertexBuffer {
    coords: Vec<Ratio>,
}

impl View for VertexBuffer {
    type V = Seq<(int, int)>;

    closed spec fn view(&self) -> Seq<(int, int)> {
        self.coords@.map_values(|r: Ratio| r@)
    }
}

impl VertexBuffer {
    /// Every coordinate of a buffer is a fraction in `[-1, 1]` with a
    /// positive denominator below `2^66`.
    #[verifier::type_invariant]
    closed spec fn normalized(&self) -> bool {
        forall|k: int| 0 <= k < self.coords@.len() ==> in_unit(#[trigger] self.coords@[k]@)
    }

    /// The data that is uploaded: each coordinate as the bit pattern of the
    /// 32-bit number nearest to it, in the order of the coordinates.
    pub fn float_bits(&self) -> (bits: Vec<u32>)
        ensures
            bits@ == self@.map_values(|c: (int, int)| nearest_pattern(c.0, c.1)),
    {
        proof {
            use_type_invariant(self);
        }
        let n: usize = self.coords.len();
        let mut bits: Vec<u32> = Vec::new();
        let mut i: usize = 0;
        while i < n
            invariant
                n == self.coords@.len(),
                0 <= i <= n,
                bits@.len() == i,
                forall|k: int| 0 <= k < n ==> in_unit(#[trigger] self.coords@[k]@),
                forall|k: int|
                    0 <= k < i ==> #[trigger] bits@[k] == nearest_pattern(
                        self.coords@[k].num as int,
                        self.coords@[k].den as int,
                    ),
            decreases n - i,
        {
            assert(in_unit(self.coords@[i as int]@));
            let pattern: u32 = match nearest_float(self.coords[i]) {
                Some(pattern) => pattern,
                None => unreached(),
            };
            bits.push(pattern);
            i += 1;
        }
        assert(bits@ =~= self@.map_values(|c: (int, int)| nearest_pattern(c.0, c.1)));
        bits
    }

    /// The coordinates in upload order.
    pub fn coordinates(&self) -> (coords: &Vec<Ratio>)
        ensures
            coords@.map_values(|r: Ratio| r@) == self@,
    {
        &self.coords
    }

    /// The number of coordinates, twice the number of vertices.
    pub fn len(&self) -> (n: usize)
        ensures
            n == self@.len(),
    {
        self.coords.len()
    }

    /// Whether there is nothing to draw.
    pub fn is_empty(&self) -> (empty: bool)
        ensures
            empty <==> self@.len() == 0,
    {
        self.coords.len() == 0
    }

    /// The number of vertices.
    pub fn vertex_count(&self) -> (n: usize)
        ensures
            n == self@.len() / 2,
    {
        self.coords.len() / 2
    }
}

/// Maps a series that is given in ticks to its vertex data.
pub fn map_ticks(prices: &Vec<i64>) -> (buffer: VertexBuffer)
    ensures
        buffer@ == vertex_coordinates(prices@),
        buffer@.len() == 2 * prices@.len(),
{
    let n: usize = prices.len();
    let mut coords: Vec<Ratio> = Vec::new();
    match series_bounds(prices) {
        None => {},
        Some((lo, hi)) => {
            let flat: bool = lo == hi;
            let low2: i128 = if flat {
                2 * (lo as i128) - 1
            } else {
                2 * (lo as i128)
            };
            let high2: i128 = if flat {
                2 * (hi as i128) + 1
            } else {
                2 * (hi as i128)
            };
            let y_den: i128 = high2 - low2;
            let x_den: i128 = if n == 1 {
                1
            } else {
                n as i128 - 1
            };
            let mut i: usize = 0;
            proof {
                lemma_lowest_is_minimum(prices@);
                lemma_highest_is_maximum(prices@);
            }
            while i < n
                invariant
                    n == prices@.len(),
                    0 <= i <= n,
                    lo == lowest(prices@),
                    hi == highest(prices@),
                    forall|j: int| 0 <= j < n ==> lo <= #[trigger] prices@[j] <= hi,
                    forall|k: int| 0 <= k < 2 * i ==> in_unit(#[trigger] coords@[k]@),
                    low2 == doubled_low(lo as int, hi as int),
                    high2 == doubled_high(lo as int, hi as int),
                    y_den == high2 - low2,
                    x_den == x_coordinate(0, n as int).1,
                    coords@.len() == 2 * i,
                    forall|k: int|
                        0 <= k < 2 * i ==> (#[trigger] coords@[k])@ == vertex_coordinates(
                            prices@,
                        )[k],
                decreases n - i,
            {
                let x_num: i128 = if n == 1 {
                    0
                } else {
                    2 * (i as i128) - (n as i128 - 1)
                };
                let y_num: i128 = 4 * (prices[i] as i128) - low2 - high2;
                coords.push(Ratio { num: x_num, den: x_den });
                coords.push(Ratio { num: y_num, den: y_den });
                proof {
                    let k0: int = 2 * i;
                    assert(k0 % 2 == 0 && k0 / 2 == i);
                    assert((k0 + 1) % 2 == 1 && (k0 + 1) / 2 == i);
                    assert(coords@[k0]@ == vertex_coordinates(prices@)[k0]);
                    assert(coords@[k0 + 1]@ == vertex_coordinates(prices@)[k0 + 1]);
                    assert(in_unit(coords@[k0]@));
                    assert(lo <= prices@[i as int] <= hi);
                    assert(in_unit(coords@[k0 + 1]@));
                }
                i += 1;
            }
        },
    }
    let buffer = VertexBuffer { coords };
    assert(buffer@ =~= vertex_coordinates(prices@));
    buffer
}

/// Maps a price series, given as the bit patterns of its samples, to its
/// vertex data: the series is brought to its own ticks and the ticks are
/// mapped. The result does not depend on the pixel dimensions: normalized
/// device coordinates are independent of the size of the surface.
pub fn map_to_geometry(prices: &Vec<u32>, width: u32, height: u32) -> (buffer: VertexBuffer)
    ensures
        buffer@ == vertex_coordinates(ticks_of(prices@)),
        buffer@.len() == 2 * prices@.len(),
{
    let ticks = quantize(prices);
    map_ticks(&ticks)
}

} // verus!
