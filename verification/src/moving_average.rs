//! Simple and exponential moving averages of a series.

use crate::central_moment::{mean_of, total};
use crate::errors::Error;
use crate::scalar::Scalar;
use vstd::prelude::*;

verus! {

/// Whether a series of `len` elements admits windows of `periods` elements:
/// the period is positive and smaller than the series.
pub open spec fn valid_period(len: nat, periods: usize) -> bool {
    0 < periods < len
}

/// The running sum that the window walk holds when it reaches index `i`:
/// every element before `i` has been added, and every element that fell out
/// of the window of `periods` elements has been taken off again.
pub open spec fn running_sum<T: Scalar>(series: Seq<T>, periods: int, i: int) -> T
    decreases i,
{
    if i <= 0 {
        T::of_count(0)
    } else {
        let before = running_sum(series, periods, i - 1);
        let kept = if i - 1 >= periods {
            before.difference(series[i - 1 - periods])
        } else {
            before
        };
        kept.sum(series[i - 1])
    }
}

/// Element `k` of the simple moving average: the running sum of the window
/// that starts at `k`, over the period.
pub open spec fn sma_at<T: Scalar>(series: Seq<T>, periods: usize, k: int) -> T {
    running_sum(series, periods as int, k + periods).quotient(T::of_count(periods))
}

/// The simple moving average of `series`: one element for each window of
/// `periods` elements that ends before the last element.
pub open spec fn sma_of<T: Scalar>(series: Seq<T>, periods: usize) -> Seq<T> {
    Seq::new((series.len() - periods) as nat, |k: int| sma_at(series, periods, k))
}

/// The weight that the exponential average gives to the newest element:
/// two over one more than the period.
pub open spec fn smoothing<T: Scalar>(periods: usize) -> T {
    T::of_count(2).quotient(T::of_count((periods + 1) as usize))
}

/// Element `k` of the exponential moving average. The first is the simple
/// average of the first window; each later one weighs the element before it
/// against the element of the series at `k + periods`.
pub open spec fn ema_at<T: Scalar>(series: Seq<T>, periods: usize, k: int) -> T
    decreases k,
{
    if k <= 0 {
        sma_at(series, periods, 0)
    } else {
        let weight = smoothing::<T>(periods);
        T::of_count(1).difference(weight).product(ema_at(series, periods, k - 1)).sum(
            weight.product(series[k + periods]),
        )
    }
}

/// The exponential moving average of `series`, as long as its simple one.
pub open spec fn ema_of<T: Scalar>(series: Seq<T>, periods: usize) -> Seq<T> {
    Seq::new((series.len() - periods) as nat, |k: int| ema_at(series, periods, k))
}

proof fn lemma_running_sum_before_eviction<T: Scalar>(series: Seq<T>, periods: int, i: int)
    requires
        0 <= i <= periods <= series.len(),
    ensures
        running_sum(series, periods, i) == total(series.take(periods), i),
    decreases i,
{
    if i > 0 {
        lemma_running_sum_before_eviction(series, periods, i - 1);
        assert(series.take(periods)[i - 1] == series[i - 1]);
    }
}

/// Both moving averages start with the mean of the first window: until the
/// window is full the walk only adds, as the mean does.
pub proof fn lemma_first_average_is_mean_of_first_window<T: Scalar>(
    series: Seq<T>,
    periods: usize,
)
    requires
        valid_period(series.len(), periods),
    ensures
        sma_of(series, periods)[0] == mean_of(series.take(periods as int)),
        ema_of(series, periods)[0] == mean_of(series.take(periods as int)),
{
    lemma_running_sum_before_eviction(series, periods as int, periods as int);
}

/// The exponential moving average of a series is as long as its simple
/// moving average over the same period, and starts with the same element.
pub proof fn lemma_ema_starts_at_sma<T: Scalar>(series: Seq<T>, periods: usize)
    requires
        valid_period(series.len(), periods),
    ensures
        ema_of(series, periods).len() == sma_of(series, periods).len(),
        ema_of(series, periods).len() == series.len() - periods,
        ema_of(series, periods)[0] == sma_of(series, periods)[0],
{
}

/// The simple moving average of `series` over windows of `periods`
/// elements; `InvalidPeriod` where the period is zero or not smaller than
/// the series.
///
/// The window walk emits the average of a window when it reaches the
/// element behind it, so the last element of the series is in no window.
pub fn sma<T: Scalar>(series: &[T], periods: usize) -> (r: Result<Vec<T>, Error>)
    ensures
        !valid_period(series@.len(), periods) ==> r == Err::<Vec<T>, Error>(Error::InvalidPeriod),
        valid_period(series@.len(), periods) ==> r.is_ok() && r.unwrap()@ == sma_of(
            series@,
            periods,
        ),
        r.is_ok() ==> r.unwrap()@.len() == series@.len() - periods,
{
    let n: usize = series.len();
    if periods == 0 || periods >= n {
        return Err(Error::InvalidPeriod);
    }
    let divisor = T::from_count(periods);
    let mut sum = T::from_count(0);
    let mut ma: Vec<T> = Vec::with_capacity(n - periods);
    let mut i: usize = 0;
    while i < n
        invariant
            0 < periods < n,
            n == series@.len(),
            i <= n,
            divisor == T::of_count(periods),
            sum == running_sum(series@, periods as int, i as int),
            ma@.len() == (if i >= periods {
                i - periods
            } else {
                0
            }),
            forall|k: int| 0 <= k < ma@.len() ==> ma@[k] == sma_at(series@, periods, k),
        decreases n - i,
    {
        if i >= periods {
            ma.push(sum.over(divisor));
            sum = sum.minus(series[i - periods]);
        }
        sum = sum.plus(series[i]);
        i = i + 1;
    }
    assert(ma@ =~= sma_of(series@, periods));
    Ok(ma)
}

/// The exponentially weighted moving average of `series` with the smoothing
/// weight of `periods`; `InvalidPeriod` where the period is zero or not
/// smaller than the series.
pub fn ema<T: Scalar>(series: &[T], periods: usize) -> (r: Result<Vec<T>, Error>)
    ensures
        !valid_period(series@.len(), periods) ==> r == Err::<Vec<T>, Error>(Error::InvalidPeriod),
        valid_period(series@.len(), periods) ==> r.is_ok() && r.unwrap()@ == ema_of(
            series@,
            periods,
        ),
        r.is_ok() ==> r.unwrap()@.len() == series@.len() - periods,
{
    let n: usize = series.len();
    if periods == 0 || periods >= n {
        return Err(Error::InvalidPeriod);
    }
    let mut sum = T::from_count(0);
    let mut i: usize = 0;
    while i < periods
        invariant
            0 < periods < n,
            n == series@.len(),
            i <= periods,
            sum == running_sum(series@, periods as int, i as int),
        decreases periods - i,
    {
        sum = sum.plus(series[i]);
        i = i + 1;
    }
    let weight = T::from_count(2).over(T::from_count(periods + 1));
    let rest = T::from_count(1).minus(weight);
    let mut last = sum.over(T::from_count(periods));
    let mut ma: Vec<T> = Vec::with_capacity(n - periods);
    ma.push(last);
    i = periods + 1;
    while i < n
        invariant
            0 < periods < n,
            n == series@.len(),
            periods < i <= n,
            weight == smoothing::<T>(periods),
            rest == T::of_count(1).difference(weight),
            ma@.len() == i - periods,
            last == ma@[i - periods - 1],
            forall|k: int| 0 <= k < ma@.len() ==> ma@[k] == ema_at(series@, periods, k),
        decreases n - i,
    {
        last = rest.times(last).plus(weight.times(series[i]));
        ma.push(last);
        i = i + 1;
    }
    assert(ma@ =~= ema_of(series@, periods));
    Ok(ma)
}

/// The moving averages as methods of a series.
pub trait MovingAverage<T: Scalar>: View<V = Seq<T>> {
    /// The simple moving average over windows of `periods` elements.
    fn sma(&self, periods: usize) -> (r: Result<Vec<T>, Error>)
        ensures
            !valid_period(self@.len(), periods) ==> r == Err::<Vec<T>, Error>(
                Error::InvalidPeriod,
            ),
            valid_period(self@.len(), periods) ==> r.is_ok() && r.unwrap()@ == sma_of(
                self@,
                periods,
            ),
            r.is_ok() ==> r.unwrap()@.len() == self@.len() - periods,
    ;

    /// The exponentially weighted moving average with the smoothing weight
    /// of `periods`.
    fn ema(&self, periods: usize) -> (r: Result<Vec<T>, Error>)
        ensures
            !valid_period(self@.len(), periods) ==> r == Err::<Vec<T>, Error>(
                Error::InvalidPeriod,
            ),
            valid_period(self@.len(), periods) ==> r.is_ok() && r.unwrap()@ == ema_of(
                self@,
                periods,
            ),
            r.is_ok() ==> r.unwrap()@.len() == self@.len() - periods,
    ;
}

impl<T: Scalar> MovingAverage<T> for [T] {
    fn sma(&self, periods: usize) -> (r: Result<Vec<T>, Error>) {
        sma(self, periods)
    }

    fn ema(&self, periods: usize) -> (r: Result<Vec<T>, Error>) {
        ema(self, periods)
    }
}

} // verus!
