//! Sample covariance of two series of one length.

use crate::central_moment::{mean_of, mean_value, squared_deviations, variance_of};
use crate::errors::Error;
use crate::scalar::Scalar;
use vstd::prelude::*;

verus! {

/// The sum, from the left, over the first `n` paired elements, of the
/// distance of the one from `center_a` times the distance of the other from
/// `center_b`.
pub open spec fn co_deviations<T: Scalar>(
    a: Seq<T>,
    center_a: T,
    b: Seq<T>,
    center_b: T,
    n: int,
) -> T
    decreases n,
{
    if n <= 0 {
        T::of_count(0)
    } else {
        co_deviations(a, center_a, b, center_b, n - 1).sum(
            a[n - 1].difference(center_a).product(b[n - 1].difference(center_b)),
        )
    }
}

/// The sample covariance of two series of one length: the co-deviations from
/// the two means, summed, over one less than the count of pairs.
pub open spec fn covariance_of<T: Scalar>(a: Seq<T>, b: Seq<T>) -> T {
    co_deviations(a, mean_of(a), b, mean_of(b), a.len() as int).quotient(
        T::of_count(a.len() as usize).difference(T::of_count(1)),
    )
}

proof fn lemma_co_deviations_with_itself<T: Scalar>(series: Seq<T>, center: T, n: int)
    ensures
        co_deviations(series, center, series, center, n) == squared_deviations(series, center, n),
    decreases n,
{
    if n > 0 {
        lemma_co_deviations_with_itself(series, center, n - 1);
    }
}

/// The population variance of a series and the sample covariance of the
/// series with itself divide one and the same sum, that of the squared
/// deviations from the mean: the variance divides it by the count of
/// elements, the covariance by the count less one.
pub proof fn lemma_population_and_sample_denominators<T: Scalar>(series: Seq<T>)
    ensures
        variance_of(series) == squared_deviations(
            series,
            mean_of(series),
            series.len() as int,
        ).quotient(T::of_count(series.len() as usize)),
        covariance_of(series, series) == squared_deviations(
            series,
            mean_of(series),
            series.len() as int,
        ).quotient(T::of_count(series.len() as usize).difference(T::of_count(1))),
{
    lemma_co_deviations_with_itself(series, mean_of(series), series.len() as int);
}

/// The sample covariance of `a` and `b`: `LengthMismatch` where they differ
/// in length, `InsufficientData` where they hold fewer than two pairs.
pub fn covar<T: Scalar>(a: &[T], b: &[T]) -> (r: Result<T, Error>)
    ensures
        r == (if a@.len() != b@.len() {
            Err::<T, Error>(Error::LengthMismatch)
        } else if a@.len() < 2 {
            Err::<T, Error>(Error::InsufficientData)
        } else {
            Ok::<T, Error>(covariance_of(a@, b@))
        }),
{
    let n: usize = a.len();
    if n != b.len() {
        return Err(Error::LengthMismatch);
    }
    if n < 2 {
        return Err(Error::InsufficientData);
    }
    let mean_a = mean_value(a);
    let mean_b = mean_value(b);
    let mut sum = T::from_count(0);
    let mut i: usize = 0;
    while i < n
        invariant
            n == a@.len(),
            n == b@.len(),
            i <= n,
            sum == co_deviations(a@, mean_a, b@, mean_b, i as int),
        decreases n - i,
    {
        sum = sum.plus(a[i].minus(mean_a).times(b[i].minus(mean_b)));
        i = i + 1;
    }
    Ok(sum.over(T::from_count(n).minus(T::from_count(1))))
}

/// The covariance as a method of a series.
pub trait Covariance<T: Scalar>: View<V = Seq<T>> {
    /// The sample covariance of this series and `other`.
    fn covar(&self, other: &Self) -> (r: Result<T, Error>)
        ensures
            r == (if self@.len() != other@.len() {
                Err::<T, Error>(Error::LengthMismatch)
            } else if self@.len() < 2 {
                Err::<T, Error>(Error::InsufficientData)
            } else {
                Ok::<T, Error>(covariance_of(self@, other@))
            }),
    ;
}

impl<T: Scalar> Covariance<T> for [T] {
    fn covar(&self, other: &Self) -> (r: Result<T, Error>) {
        covar(self, other)
    }
}

} // verus!
