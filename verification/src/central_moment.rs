//! Mean, population variance and population standard deviation of a series.

use crate::errors::Error;
use crate::scalar::Scalar;
use vstd::prelude::*;

verus! {

/// The sum of the first `n` elements of `series`, added from the left,
/// starting from the count of nothing.
pub open spec fn total<T: Scalar>(series: Seq<T>, n: int) -> T
    decreases n,
{
    if n <= 0 {
        T::of_count(0)
    } else {
        total(series, n - 1).sum(series[n - 1])
    }
}

/// The arithmetic mean: the sum of all elements over their count.
pub open spec fn mean_of<T: Scalar>(series: Seq<T>) -> T {
    total(series, series.len() as int).quotient(T::of_count(series.len() as usize))
}

/// The squared distance of `x` from `center`.
pub open spec fn squared_deviation<T: Scalar>(x: T, center: T) -> T {
    x.difference(center).product(x.difference(center))
}

/// The sum, from the left, of the squared distances of the first `n`
/// elements from `center`.
pub open spec fn squared_deviations<T: Scalar>(series: Seq<T>, center: T, n: int) -> T
    decreases n,
{
    if n <= 0 {
        T::of_count(0)
    } else {
        squared_deviations(series, center, n - 1).sum(squared_deviation(series[n - 1], center))
    }
}

/// The population variance: the squared deviations from the mean, summed,
/// over the count of elements.
pub open spec fn variance_of<T: Scalar>(series: Seq<T>) -> T {
    squared_deviations(series, mean_of(series), series.len() as int).quotient(
        T::of_count(series.len() as usize),
    )
}

/// The population standard deviation: the square root of the variance.
pub open spec fn deviation_of<T: Scalar>(series: Seq<T>) -> T {
    variance_of(series).square_root()
}

/// The mean of a series that is known to have an element.
pub(crate) fn mean_value<T: Scalar>(series: &[T]) -> (r: T)
    requires
        series@.len() > 0,
    ensures
        r == mean_of(series@),
{
    let n: usize = series.len();
    let mut sum = T::from_count(0);
    let mut i: usize = 0;
    while i < n
        invariant
            n == series@.len(),
            i <= n,
            sum == total(series@, i as int),
        decreases n - i,
    {
        sum = sum.plus(series[i]);
        i = i + 1;
    }
    sum.over(T::from_count(n))
}

/// The arithmetic mean of `series`; `EmptySeries` where it has no element.
pub fn mean<T: Scalar>(series: &[T]) -> (r: Result<T, Error>)
    ensures
        r == (if series@.len() == 0 {
            Err::<T, Error>(Error::EmptySeries)
        } else {
            Ok::<T, Error>(mean_of(series@))
        }),
{
    if series.len() == 0 {
        return Err(Error::EmptySeries);
    }
    Ok(mean_value(series))
}

/// The population variance of `series`; `EmptySeries` where it has no
/// element. Every deviation is taken from one and the same mean.
pub fn var<T: Scalar>(series: &[T]) -> (r: Result<T, Error>)
    ensures
        r == (if series@.len() == 0 {
            Err::<T, Error>(Error::EmptySeries)
        } else {
            Ok::<T, Error>(variance_of(series@))
        }),
{
    let n: usize = series.len();
    if n == 0 {
        return Err(Error::EmptySeries);
    }
    let mean = mean_value(series);
    let mut ss = T::from_count(0);
    let mut i: usize = 0;
    while i < n
        invariant
            n == series@.len(),
            i <= n,
            mean == mean_of(series@),
            ss == squared_deviations(series@, mean, i as int),
        decreases n - i,
    {
        let diff = series[i].minus(mean);
        ss = ss.plus(diff.times(diff));
        i = i + 1;
    }
    Ok(ss.over(T::from_count(n)))
}

/// The population standard deviation of `series`, the square root of its
/// variance; `EmptySeries` where it has no element.
pub fn stddev<T: Scalar>(series: &[T]) -> (r: Result<T, Error>)
    ensures
        r == (if series@.len() == 0 {
            Err::<T, Error>(Error::EmptySeries)
        } else {
            Ok::<T, Error>(deviation_of(series@))
        }),
{
    match var(series) {
        Ok(v) => Ok(v.root()),
        Err(e) => Err(e),
    }
}

/// The central moments as methods of a series.
pub trait CentralMoment<T: Scalar>: View<V = Seq<T>> {
    /// The arithmetic mean of the series.
    fn mean(&self) -> (r: Result<T, Error>)
        ensures
            r == (if self@.len() == 0 {
                Err::<T, Error>(Error::EmptySeries)
            } else {
                Ok::<T, Error>(mean_of(self@))
            }),
    ;

    /// The population variance of the series.
    fn var(&self) -> (r: Result<T, Error>)
        ensures
            r == (if self@.len() == 0 {
                Err::<T, Error>(Error::EmptySeries)
            } else {
                Ok::<T, Error>(variance_of(self@))
            }),
    ;

    /// The population standard deviation of the series: the square root of
    /// what `var` returns.
    fn stddev(&self) -> (r: Result<T, Error>)
        ensures
            r == (if self@.len() == 0 {
                Err::<T, Error>(Error::EmptySeries)
            } else {
                Ok::<T, Error>(deviation_of(self@))
            }),
    ;
}

impl<T: Scalar> CentralMoment<T> for [T] {
    fn mean(&self) -> (r: Result<T, Error>) {
        mean(self)
    }

    fn var(&self) -> (r: Result<T, Error>) {
        var(self)
    }

    fn stddev(&self) -> (r: Result<T, Error>) {
        stddev(self)
    }
}

} // verus!
