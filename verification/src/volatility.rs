//! Range volatility: the distance between the extremes of a series.

use crate::fixed::{saturate, Fixed};
use crate::scalar::Scalar;
use vstd::prelude::*;

verus! {

/// A sample that stands at an integer level, and is ordered as its level is.
pub trait Level: Copy {
    /// The level at which the sample stands.
    spec fn level(self) -> int;

    /// Whether `self` stands below `other`.
    fn below(self, other: Self) -> (b: bool)
        ensures
            b == (self.level() < other.level()),
    ;
}

impl Level for i32 {
    open spec fn level(self) -> int {
        self as int
    }

    fn below(self, other: Self) -> (b: bool) {
        self < other
    }
}

impl Level for i64 {
    open spec fn level(self) -> int {
        self as int
    }

    fn below(self, other: Self) -> (b: bool) {
        self < other
    }
}

impl Level for Fixed {
    open spec fn level(self) -> int {
        self.micros as int
    }

    fn below(self, other: Self) -> (b: bool) {
        self.micros < other.micros
    }
}

/// The levels of the samples of a series, in order.
pub open spec fn levels<T: Level>(series: Seq<T>) -> Seq<int> {
    series.map_values(|v: T| v.level())
}

/// The distance from the least to the greatest of `levels`, and zero where
/// there are fewer than two of them.
pub open spec fn spread(levels: Seq<int>) -> int {
    if levels.len() <= 1 {
        0
    } else {
        levels.max() - levels.min()
    }
}

/// Whether `lo` and `hi` both occur in `levels` and no level lies outside
/// them.
pub open spec fn bounds_of(levels: Seq<int>, lo: int, hi: int) -> bool {
    &&& levels.contains(lo)
    &&& levels.contains(hi)
    &&& forall|k: int| 0 <= k < levels.len() ==> lo <= #[trigger] levels[k] <= hi
}

/// The bounds of a series are its least and its greatest element, so the
/// spread of a series of two or more is the distance between its bounds.
pub proof fn lemma_bounds_are_extremes(levels: Seq<int>, lo: int, hi: int)
    requires
        bounds_of(levels, lo, hi),
    ensures
        lo == levels.min(),
        hi == levels.max(),
        levels.len() >= 2 ==> spread(levels) == hi - lo,
{
    levels.max_ensures();
    levels.min_ensures();
}

/// The spread of a series is never negative.
pub proof fn lemma_spread_not_negative(levels: Seq<int>)
    ensures
        spread(levels) >= 0,
{
    if levels.len() >= 2 {
        levels.max_ensures();
        levels.min_ensures();
    }
}

/// A least and a greatest sample of `series`, found in one pass; `None`
/// where the series is empty.
pub fn extremes<T: Level>(series: &[T]) -> (r: Option<(T, T)>)
    ensures
        r.is_none() <==> series@.len() == 0,
        r.is_some() ==> series@.contains(r.unwrap().0) && series@.contains(r.unwrap().1)
            && bounds_of(levels(series@), r.unwrap().0.level(), r.unwrap().1.level()),
{
    let n: usize = series.len();
    if n == 0 {
        return None;
    }
    let ghost all = levels(series@);
    let mut lo: T = series[0];
    let mut hi: T = series[0];
    let ghost mut lo_at: int = 0;
    let ghost mut hi_at: int = 0;
    let mut i: usize = 1;
    while i < n
        invariant
            n == series@.len(),
            all == levels(series@),
            1 <= i <= n,
            0 <= lo_at < i,
            0 <= hi_at < i,
            series@[lo_at] == lo,
            series@[hi_at] == hi,
            forall|k: int| 0 <= k < i ==> lo.level() <= #[trigger] all[k] <= hi.level(),
        decreases n - i,
    {
        let x: T = series[i];
        assert(all[i as int] == x.level() && all[lo_at] == lo.level() && all[hi_at] == hi.level());
        if x.below(lo) {
            lo = x;
            proof {
                lo_at = i as int;
            }
        } else if hi.below(x) {
            hi = x;
            proof {
                hi_at = i as int;
            }
        }
        i = i + 1;
    }
    assert(all[lo_at] == lo.level() && all[hi_at] == hi.level());
    assert(series@[lo_at] == lo && series@[hi_at] == hi);
    Some((lo, hi))
}

/// The range of a series: how far its greatest sample lies above its least.
///
/// `T` is the type of the range. The range of a series of signed integers is
/// given in the unsigned type of their width, which holds every distance
/// between two of them.
pub trait Volatility<T> {
    /// The range of the series as a `T`.
    spec fn range(&self) -> T;

    /// The difference between the greatest and the least sample; zero for a
    /// series of fewer than two samples.
    fn range_volatility(&self) -> (r: T)
        ensures
            r == self.range(),
    ;
}

impl Volatility<u32> for [i32] {
    open spec fn range(&self) -> u32 {
        spread(levels(self@)) as u32
    }

    fn range_volatility(&self) -> (r: u32)
        ensures
            r == spread(levels(self@)),
    {
        match extremes(self) {
            Some((lo, hi)) => {
                proof {
                    lemma_bounds_are_extremes(levels(self@), lo as int, hi as int);
                }
                let wide: i64 = hi as i64 - lo as i64;
                wide as u32
            },
            None => 0,
        }
    }
}

impl Volatility<u64> for [i64] {
    open spec fn range(&self) -> u64 {
        spread(levels(self@)) as u64
    }

    fn range_volatility(&self) -> (r: u64)
        ensures
            r == spread(levels(self@)),
    {
        match extremes(self) {
            Some((lo, hi)) => {
                proof {
                    lemma_bounds_are_extremes(levels(self@), lo as int, hi as int);
                }
                let wide: i128 = hi as i128 - lo as i128;
                wide as u64
            },
            None => 0,
        }
    }
}

impl Volatility<Fixed> for [Fixed] {
    /// The range of a series of `Fixed` is a `Fixed`: the spread of the
    /// series in millionths, or the greatest `Fixed` where the spread is
    /// beyond it.
    open spec fn range(&self) -> Fixed {
        Fixed { micros: saturate(spread(levels(self@))) }
    }

    fn range_volatility(&self) -> (r: Fixed)
        ensures
            r.micros == saturate(spread(levels(self@))),
    {
        match extremes(self) {
            Some((lo, hi)) => {
                proof {
                    lemma_bounds_are_extremes(levels(self@), lo.micros as int, hi.micros as int);
                }
                hi.minus(lo)
            },
            None => Fixed { micros: 0 },
        }
    }
}

} // verus!
