//! What the operators compute on series of `Fixed`, stated in exact integer
//! arithmetic.

use crate::central_moment::{
    deviation_of, mean_of, squared_deviation, squared_deviations, total, variance_of,
};
use crate::covariance::{covariance_of, lemma_population_and_sample_denominators};
use crate::fixed::{floor_sqrt, lemma_floor_sqrt_brackets, toward_zero, Fixed, SCALE};
use crate::moving_average::{running_sum, sma_of, valid_period};
use crate::scalar::Scalar;
use vstd::arithmetic::div_mod::{
    lemma_div_multiples_vanish_quotient, lemma_div_nonincreasing, lemma_div_pos_is_pos,
};
use vstd::prelude::*;

verus! {

/// The exact sum, in millionths, of the elements of `series` from index
/// `from` up to, not including, index `to`.
pub open spec fn micros_total(series: Seq<Fixed>, from: int, to: int) -> int
    decreases to - from,
{
    if to <= from {
        0
    } else {
        micros_total(series, from, to - 1) + series[to - 1].micros
    }
}

/// Whether no element of `series` is further from zero than `bound`
/// millionths.
pub open spec fn within(series: Seq<Fixed>, bound: int) -> bool {
    forall|j: int| 0 <= j < series.len() ==> -bound <= (#[trigger] series[j]).micros <= bound
}

/// A sum of at most `count` elements, none further from zero than `bound`,
/// is no further from zero than `count * bound`.
proof fn lemma_total_bounded(
    series: Seq<Fixed>,
    bound: int,
    from: int,
    to: int,
    count: int,
    cap: int,
)
    requires
        within(series, bound),
        0 <= from <= to <= series.len(),
        to - from <= count,
        0 <= bound,
        count * bound <= cap,
    ensures
        -cap <= micros_total(series, from, to) <= cap,
    decreases to - from,
{
    if from < to {
        assert((count - 1) * bound <= cap - bound) by (nonlinear_arith)
            requires
                count * bound <= cap,
        ;
        lemma_total_bounded(series, bound, from, to - 1, count - 1, cap - bound);
        assert(-bound <= series[to - 1].micros <= bound);
    } else {
        assert(0 <= count * bound) by (nonlinear_arith)
            requires
                0 <= count,
                0 <= bound,
        ;
    }
}

proof fn lemma_total_without_first(series: Seq<Fixed>, from: int, to: int)
    requires
        from < to,
    ensures
        micros_total(series, from, to) - series[from].micros == micros_total(
            series,
            from + 1,
            to,
        ),
    decreases to - from,
{
    if from + 1 < to {
        lemma_total_without_first(series, from, to - 1);
    } else {
        assert(micros_total(series, from, from) == 0);
        assert(micros_total(series, from + 1, to) == 0);
    }
}

/// Where no sum of `periods` elements leaves the range of `i64`, the running
/// sum of the window walk is the exact sum of the window.
proof fn lemma_running_sum_is_window_total(
    series: Seq<Fixed>,
    periods: int,
    bound: int,
    i: int,
)
    requires
        within(series, bound),
        0 < periods,
        0 <= bound,
        bound * periods <= i64::MAX,
        0 <= i <= series.len(),
    ensures
        running_sum(series, periods, i).micros == micros_total(
            series,
            if i >= periods {
                i - periods
            } else {
                0
            },
            i,
        ),
    decreases i,
{
    if i > 0 {
        lemma_running_sum_is_window_total(series, periods, bound, i - 1);
        let cap = i64::MAX as int;
        assert(periods * bound <= cap) by (nonlinear_arith)
            requires
                bound * periods <= cap,
        ;
        if i - 1 >= periods {
            let start = i - 1 - periods;
            lemma_total_without_first(series, start, i - 1);
            lemma_total_bounded(series, bound, start + 1, i - 1, periods, cap);
            lemma_total_bounded(series, bound, start + 1, i, periods, cap);
        } else {
            lemma_total_bounded(series, bound, 0, i, periods, cap);
        }
    }
}

/// A quotient by a positive number is not changed by scaling both numbers
/// alike, and is no further from zero than the number divided.
proof fn lemma_toward_zero_scaled(a: int, b: int)
    requires
        b > 0,
    ensures
        toward_zero(a * SCALE, b * SCALE) == toward_zero(a, b),
        -a <= toward_zero(a, b) <= a || a <= toward_zero(a, b) <= -a,
{
    assert(b * SCALE > 0) by (nonlinear_arith)
        requires
            b > 0,
    ;
    if a >= 0 {
        assert(a * SCALE >= 0) by (nonlinear_arith)
            requires
                a >= 0,
        ;
        lemma_div_multiples_vanish_quotient(SCALE as int, a, b);
        assert(SCALE * a == a * SCALE && SCALE * b == b * SCALE) by (nonlinear_arith);
        lemma_div_pos_is_pos(a, b);
        lemma_div_nonincreasing(a, b);
    } else {
        assert(a * SCALE < 0 && -(a * SCALE) == (-a) * SCALE) by (nonlinear_arith)
            requires
                a < 0,
        ;
        lemma_div_multiples_vanish_quotient(SCALE as int, -a, b);
        assert(SCALE * (-a) == (-a) * SCALE && SCALE * b == b * SCALE) by (nonlinear_arith);
        lemma_div_pos_is_pos(-a, b);
        lemma_div_nonincreasing(-a, b);
    }
}

/// Each element of the simple moving average of a series of `Fixed` is the
/// exact average of its window, rounded toward zero, wherever no sum of
/// `periods` elements can leave the range of `i64`: element `k` averages the
/// elements from index `k` up to, not including, index `k + periods`.
pub proof fn lemma_sma_is_window_average(series: Seq<Fixed>, periods: usize, bound: int, k: int)
    requires
        valid_period(series.len(), periods),
        within(series, bound),
        0 <= bound,
        bound * periods <= i64::MAX,
        periods * SCALE <= i64::MAX,
        0 <= k < series.len() - periods,
    ensures
        sma_of(series, periods)[k].micros == toward_zero(
            micros_total(series, k, k + periods),
            periods as int,
        ),
{
    let window = micros_total(series, k, k + periods);
    lemma_running_sum_is_window_total(series, periods as int, bound, k + periods);
    assert(periods * bound <= i64::MAX) by (nonlinear_arith)
        requires
            bound * periods <= i64::MAX,
    ;
    lemma_total_bounded(series, bound, k, k + periods, periods as int, i64::MAX as int);
    lemma_toward_zero_scaled(window, periods as int);
}

/// The mean of a series of `Fixed` is the exact sum of its elements over
/// their count, rounded toward zero, wherever that sum cannot leave the
/// range of `i64`.
pub proof fn lemma_mean_is_average(series: Seq<Fixed>, bound: int)
    requires
        0 < series.len() <= usize::MAX,
        within(series, bound),
        0 <= bound,
        bound * series.len() <= i64::MAX,
        series.len() * SCALE <= i64::MAX,
    ensures
        mean_of(series).micros == toward_zero(
            micros_total(series, 0, series.len() as int),
            series.len() as int,
        ),
{
    let n = series.len() as int;
    lemma_total_is_exact(series, bound, n);
    assert(n * bound <= i64::MAX) by (nonlinear_arith)
        requires
            bound * n <= i64::MAX,
    ;
    lemma_total_bounded(series, bound, 0, n, n, i64::MAX as int);
    lemma_toward_zero_scaled(micros_total(series, 0, n), n);
}

proof fn lemma_total_is_exact(series: Seq<Fixed>, bound: int, i: int)
    requires
        within(series, bound),
        0 <= bound,
        bound * series.len() <= i64::MAX,
        0 <= i <= series.len(),
    ensures
        total(series, i).micros == micros_total(series, 0, i),
    decreases i,
{
    if i > 0 {
        lemma_total_is_exact(series, bound, i - 1);
        let n = series.len() as int;
        assert(n * bound <= i64::MAX) by (nonlinear_arith)
            requires
                bound * n <= i64::MAX,
        ;
        lemma_total_bounded(series, bound, 0, i, n, i64::MAX as int);
    }
}

proof fn lemma_squared_deviations_not_negative(series: Seq<Fixed>, center: Fixed, n: int)
    ensures
        squared_deviations(series, center, n).micros >= 0,
    decreases n,
{
    if n > 0 {
        lemma_squared_deviations_not_negative(series, center, n - 1);
        let d = series[n - 1].difference(center).micros as int;
        assert(d * d >= 0) by (nonlinear_arith);
        lemma_div_pos_is_pos(d * d, SCALE as int);
        assert(squared_deviation(series[n - 1], center).micros >= 0);
    }
}

/// The variance of a series of `Fixed` is not negative.
pub proof fn lemma_variance_not_negative(series: Seq<Fixed>)
    ensures
        variance_of(series).micros >= 0,
{
    let n = series.len() as int;
    let ss = squared_deviations(series, mean_of(series), n).micros as int;
    lemma_squared_deviations_not_negative(series, mean_of(series), n);
    let count = Fixed::of_count(series.len() as usize).micros as int;
    assert(ss * SCALE >= 0) by (nonlinear_arith)
        requires
            ss >= 0,
    ;
    if count > 0 {
        lemma_div_pos_is_pos(ss * SCALE, count);
    } else if count < 0 {
        lemma_div_pos_is_pos(ss * SCALE, -count);
    }
}

/// The sum of the squared deviations of `series` from its mean, in
/// millionths.
pub open spec fn squared_deviation_micros(series: Seq<Fixed>) -> int {
    squared_deviations(series, mean_of(series), series.len() as int).micros as int
}

/// For a series of `Fixed` the population variance is the sum of the squared
/// deviations over the count of elements, and the sample covariance of the
/// series with itself is the same sum over the count less one, each rounded
/// toward zero.
pub proof fn lemma_variance_over_count_covariance_over_one_less(series: Seq<Fixed>)
    requires
        2 <= series.len() <= usize::MAX,
        series.len() * SCALE <= i64::MAX,
    ensures
        squared_deviation_micros(series) >= 0,
        variance_of(series).micros == squared_deviation_micros(series) / (series.len() as int),
        covariance_of(series, series).micros == squared_deviation_micros(series) / (series.len()
            - 1),
{
    let n = series.len() as int;
    let ss = squared_deviations(series, mean_of(series), n).micros as int;
    lemma_population_and_sample_denominators(series);
    lemma_squared_deviations_not_negative(series, mean_of(series), n);
    lemma_toward_zero_scaled(ss, n);
    lemma_toward_zero_scaled(ss, n - 1);
    assert((n - 1) * SCALE == n * SCALE - SCALE) by (nonlinear_arith);
}

/// The standard deviation of a series of `Fixed`, squared, is its variance
/// to within the last digit of the deviation: with both counted in
/// millionths, the variance lies between the square of the deviation and
/// the square of the next millionth after it.
pub proof fn lemma_deviation_squared_is_variance(series: Seq<Fixed>)
    ensures
        deviation_of(series).micros >= 0,
        deviation_of(series).micros * deviation_of(series).micros <= variance_of(series).micros
            * SCALE,
        variance_of(series).micros * SCALE < (deviation_of(series).micros + 1) * (deviation_of(
            series,
        ).micros + 1),
{
    let v = variance_of(series).micros as int;
    lemma_variance_not_negative(series);
    if v > 0 {
        assert(0 < v * SCALE < 0x1_0000_0000_0000_0000_0000_0000) by (nonlinear_arith)
            requires
                0 < v <= i64::MAX,
                SCALE == 1_000_000,
        ;
        let r = floor_sqrt((v * SCALE) as nat);
        lemma_floor_sqrt_brackets((v * SCALE) as nat);
        assert(r < 0x1_0000_0000_0000) by (nonlinear_arith)
            requires
                r * r <= v * SCALE,
                v * SCALE < 0x1_0000_0000_0000_0000_0000_0000,
        ;
    } else {
        assert(v * SCALE == 0) by (nonlinear_arith)
            requires
                v == 0,
        ;
    }
}

} // verus!
