//! The numbers an expression tree computes with.

use vstd::prelude::*;

verus! {

/// A number type that an expression tree can be evaluated in.
///
/// A tree only ever asks for the constant one, for a sum and for a product.
/// Nothing is assumed of how the three relate: no law of a ring is required,
/// so arithmetic that rounds or overflows qualifies, as long as each
/// operation is a function of its operands.
///
/// The three `spec_` functions say what the operations mean, and the
/// contracts of a tree are written over them. An implementation in verified
/// code proves its executable operations against them. One in ordinary code
/// writes the same arithmetic twice, once under each name.
pub trait Scalar: Copy {
    /// The constant one: the derivative of a variable by itself.
    spec fn spec_one() -> Self;

    /// The sum of `self` and `rhs`.
    spec fn spec_plus(self, rhs: Self) -> Self;

    /// The product of `self` and `rhs`.
    spec fn spec_times(self, rhs: Self) -> Self;

    /// Returns the constant one.
    fn one() -> (r: Self)
        ensures
            r == Self::spec_one(),
    ;

    /// Returns `self + rhs`.
    fn plus(self, rhs: Self) -> (r: Self)
        ensures
            r == self.spec_plus(rhs),
    ;

    /// Returns `self * rhs`.
    fn times(self, rhs: Self) -> (r: Self)
        ensures
            r == self.spec_times(rhs),
    ;
}

} // verus!
