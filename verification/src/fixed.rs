//! A decimal sample type with exact arithmetic.

use crate::scalar::Scalar;
use vstd::prelude::*;

verus! {

/// How many of the smallest steps of a `Fixed` make one.
pub const SCALE: i64 = 1_000_000;

/// A decimal number with six fractional digits, held as a whole number of
/// millionths.
///
/// Its arithmetic is exact where the exact result is a whole number of
/// millionths within the range of `i64`. A result beyond that range is the
/// nearest end of the range; a product, a quotient or a square root that
/// falls between two millionths is the one nearer to zero; a quotient by
/// zero is zero, and so is the square root of a negative number.
#[derive(Clone, Copy, Debug, PartialEq, Eq, Structural)]
pub struct Fixed {
    pub micros: i64,
}

/// The `i64` nearest to `v`.
pub open spec fn saturate(v: int) -> i64 {
    if v < i64::MIN {
        i64::MIN
    } else if v > i64::MAX {
        i64::MAX
    } else {
        v as i64
    }
}

/// The quotient of `a` by `b`, rounded toward zero; zero where `b` is zero.
pub open spec fn toward_zero(a: int, b: int) -> int {
    if b == 0 {
        0
    } else if a >= 0 && b > 0 {
        a / b
    } else if a < 0 && b > 0 {
        -((-a) / b)
    } else if a >= 0 {
        -(a / (-b))
    } else {
        (-a) / (-b)
    }
}

/// The greatest natural number whose square is at most `n`.
pub open spec fn floor_sqrt(n: nat) -> nat
    decreases n,
{
    if n == 0 {
        0
    } else {
        let below = floor_sqrt((n - 1) as nat);
        if (below + 1) * (below + 1) <= n {
            below + 1
        } else {
            below
        }
    }
}

/// `floor_sqrt(n)` squared is at most `n`, and the next number squared is
/// more than `n`.
pub proof fn lemma_floor_sqrt_brackets(n: nat)
    ensures
        floor_sqrt(n) * floor_sqrt(n) <= n < (floor_sqrt(n) + 1) * (floor_sqrt(n) + 1),
    decreases n,
{
    let r = floor_sqrt(n);
    if n == 0 {
        assert(r * r == 0 && (r + 1) * (r + 1) == 1) by (nonlinear_arith)
            requires
                r == 0,
        ;
    } else {
        lemma_floor_sqrt_brackets((n - 1) as nat);
        let below = floor_sqrt((n - 1) as nat);
        if (below + 1) * (below + 1) <= n {
            assert(r * r <= n < (r + 1) * (r + 1)) by (nonlinear_arith)
                requires
                    r == below + 1,
                    (below + 1) * (below + 1) <= n,
                    n - 1 < (below + 1) * (below + 1),
            ;
        } else {
            assert(r == below);
        }
    }
}

/// Only one natural number brackets `n` between its square and the square of
/// its successor.
pub proof fn lemma_floor_sqrt_unique(n: nat, r: nat)
    requires
        r * r <= n < (r + 1) * (r + 1),
    ensures
        r == floor_sqrt(n),
{
    lemma_floor_sqrt_brackets(n);
    let s = floor_sqrt(n);
    if r < s {
        assert((r + 1) * (r + 1) <= s * s) by (nonlinear_arith)
            requires
                r + 1 <= s,
        ;
    } else if s < r {
        assert((s + 1) * (s + 1) <= r * r) by (nonlinear_arith)
            requires
                s + 1 <= r,
        ;
    }
}

/// The integer square root, by bisection.
fn integer_root(n: u128) -> (r: u64)
    requires
        n < 0x1_0000_0000_0000_0000_0000_0000,
    ensures
        r == floor_sqrt(n as nat),
        r < 0x1_0000_0000_0000,
{
    let mut lo: u128 = 0;
    let mut hi: u128 = 0x1_0000_0000_0000;
    assert(0x1_0000_0000_0000u128 * 0x1_0000_0000_0000u128 == 0x1_0000_0000_0000_0000_0000_0000u128)
        by (nonlinear_arith);
    while hi - lo > 1
        invariant
            lo < hi <= 0x1_0000_0000_0000,
            lo * lo <= n < hi * hi,
        decreases hi - lo,
    {
        let mid: u128 = lo + (hi - lo) / 2;
        assert(mid * mid < 0x1_0000_0000_0000_0000_0000_0000) by (nonlinear_arith)
            requires
                mid < 0x1_0000_0000_0000,
        ;
        if mid * mid <= n {
            lo = mid;
        } else {
            hi = mid;
        }
    }
    proof {
        lemma_floor_sqrt_unique(n as nat, lo as nat);
    }
    lo as u64
}

fn clamp(v: i128) -> (r: i64)
    ensures
        r == saturate(v as int),
{
    if v < i64::MIN as i128 {
        i64::MIN
    } else if v > i64::MAX as i128 {
        i64::MAX
    } else {
        v as i64
    }
}

impl From<i32> for Fixed {
    /// The whole number `v` as a `Fixed`.
    fn from(v: i32) -> (r: Self)
        ensures
            r.micros == v * SCALE,
    {
        Fixed { micros: (v as i64) * SCALE }
    }
}

impl vstd::std_specs::convert::FromSpecImpl<i32> for Fixed {
    open spec fn obeys_from_spec() -> bool {
        true
    }

    open spec fn from_spec(v: i32) -> Self {
        Fixed { micros: (v * SCALE) as i64 }
    }
}

impl Scalar for Fixed {
    open spec fn of_count(n: usize) -> Self {
        Fixed { micros: saturate(n * SCALE) }
    }

    open spec fn sum(self, rhs: Self) -> Self {
        Fixed { micros: saturate(self.micros + rhs.micros) }
    }

    open spec fn difference(self, rhs: Self) -> Self {
        Fixed { micros: saturate(self.micros - rhs.micros) }
    }

    open spec fn product(self, rhs: Self) -> Self {
        Fixed { micros: saturate(toward_zero(self.micros * rhs.micros, SCALE as int)) }
    }

    open spec fn quotient(self, rhs: Self) -> Self {
        Fixed { micros: saturate(toward_zero(self.micros * SCALE, rhs.micros as int)) }
    }

    open spec fn square_root(self) -> Self {
        if self.micros <= 0 {
            Fixed { micros: 0 }
        } else {
            Fixed { micros: floor_sqrt((self.micros * SCALE) as nat) as i64 }
        }
    }

    fn from_count(n: usize) -> (r: Self) {
        let wide: i128 = (n as i128) * (SCALE as i128);
        Fixed { micros: clamp(wide) }
    }

    fn plus(self, rhs: Self) -> (r: Self) {
        Fixed { micros: clamp(self.micros as i128 + rhs.micros as i128) }
    }

    fn minus(self, rhs: Self) -> (r: Self) {
        Fixed { micros: clamp(self.micros as i128 - rhs.micros as i128) }
    }

    fn times(self, rhs: Self) -> (r: Self) {
        let a: i128 = self.micros as i128;
        let b: i128 = rhs.micros as i128;
        assert(-0x4000_0000_0000_0000_0000_0000_0000_0000 <= a * b
            <= 0x4000_0000_0000_0000_0000_0000_0000_0000) by (nonlinear_arith)
            requires
                -0x8000_0000_0000_0000 <= a <= 0x8000_0000_0000_0000,
                -0x8000_0000_0000_0000 <= b <= 0x8000_0000_0000_0000,
        ;
        let wide: i128 = a * b;
        Fixed { micros: clamp(wide / (SCALE as i128)) }
    }

    fn over(self, rhs: Self) -> (r: Self) {
        if rhs.micros == 0 {
            return Fixed { micros: 0 };
        }
        let a: i128 = self.micros as i128;
        let wide: i128 = a * 1_000_000;
        let b: i128 = rhs.micros as i128;
        let q: i128 = if b < 0 {
            (-wide) / (-b)
        } else {
            wide / b
        };
        Fixed { micros: clamp(q) }
    }

    fn root(self) -> (r: Self) {
        if self.micros <= 0 {
            return Fixed { micros: 0 };
        }
        let wide: u128 = (self.micros as u128) * 1_000_000;
        Fixed { micros: integer_root(wide) as i64 }
    }
}

} // verus!
