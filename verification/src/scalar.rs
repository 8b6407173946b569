//! The arithmetic that the operators ask of a sample type.

use vstd::prelude::*;

verus! {

/// The arithmetic that the operators need of a sample type.
///
/// Each operation comes twice: as the function that says what its result is
/// (`sum`, `difference`, `product`, `quotient`, `square_root`, `of_count`),
/// and as the method that computes that result (`plus`, `minus`, `times`,
/// `over`, `root`, `from_count`). A result depends on the operands alone.
///
/// The operators promise nothing of the arithmetic itself. Their contracts
/// name each result by the operations that lead to it, in the order in which
/// they are carried out, so they hold as they stand for types whose
/// arithmetic rounds, where a sum depends on the order of its terms.
pub trait Scalar: Copy {
    /// The number that stands for a count of `n` items.
    spec fn of_count(n: usize) -> Self;

    /// The sum of `self` and `rhs`.
    spec fn sum(self, rhs: Self) -> Self;

    /// `self` less `rhs`.
    spec fn difference(self, rhs: Self) -> Self;

    /// The product of `self` and `rhs`.
    spec fn product(self, rhs: Self) -> Self;

    /// `self` divided by `rhs`.
    spec fn quotient(self, rhs: Self) -> Self;

    /// The square root of `self`.
    spec fn square_root(self) -> Self;

    /// Computes `of_count(n)`.
    fn from_count(n: usize) -> (r: Self)
        ensures
            r == Self::of_count(n),
    ;

    /// Computes `self.sum(rhs)`.
    fn plus(self, rhs: Self) -> (r: Self)
        ensures
            r == self.sum(rhs),
    ;

    /// Computes `self.difference(rhs)`.
    fn minus(self, rhs: Self) -> (r: Self)
        ensures
            r == self.difference(rhs),
    ;

    /// Computes `self.product(rhs)`.
    fn times(self, rhs: Self) -> (r: Self)
        ensures
            r == self.product(rhs),
    ;

    /// Computes `self.quotient(rhs)`.
    fn over(self, rhs: Self) -> (r: Self)
        ensures
            r == self.quotient(rhs),
    ;

    /// Computes `self.square_root()`.
    fn root(self) -> (r: Self)
        ensures
            r == self.square_root(),
    ;
}

} // verus!
