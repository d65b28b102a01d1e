//! Integer scalars whose results are mathematically exact, and what the
//! values and derivatives of a tree over them mean in the integers.

use crate::expr::Expr;
use crate::scalar::Scalar;
use vstd::prelude::*;

verus! {

/// A signed 64-bit integer whose arithmetic is exact: an operation whose
/// mathematical result does not fit yields `Overflow`, and `Overflow` absorbs
/// every later operation.
#[derive(Clone, Copy, Debug, PartialEq, Eq, Structural)]
pub enum Exact {
    Value(i64),
    Overflow,
}

/// Whether the integer `x` fits in an `i64`.
pub open spec fn fits(x: int) -> bool {
    i64::MIN <= x <= i64::MAX
}

impl Exact {
    /// The exact value of `x`, or `Overflow` where it does not fit.
    pub open spec fn of_int(x: int) -> Exact {
        if fits(x) {
            Exact::Value(x as i64)
        } else {
            Exact::Overflow
        }
    }

    /// The integer that a value stands for; zero for `Overflow`.
    pub open spec fn as_int(self) -> int {
        match self {
            Exact::Value(v) => v as int,
            Exact::Overflow => 0,
        }
    }
}

impl Scalar for Exact {
    open spec fn spec_one() -> Self {
        Exact::Value(1)
    }

    open spec fn spec_plus(self, rhs: Self) -> Self {
        match (self, rhs) {
            (Exact::Value(a), Exact::Value(b)) => Exact::of_int(a + b),
            _ => Exact::Overflow,
        }
    }

    open spec fn spec_times(self, rhs: Self) -> Self {
        match (self, rhs) {
            (Exact::Value(a), Exact::Value(b)) => Exact::of_int(a * b),
            _ => Exact::Overflow,
        }
    }

    fn one() -> (r: Self) {
        Exact::Value(1)
    }

    fn plus(self, rhs: Self) -> (r: Self) {
        match (self, rhs) {
            (Exact::Value(a), Exact::Value(b)) => match a.checked_add(b) {
                Some(c) => Exact::Value(c),
                None => Exact::Overflow,
            },
            _ => Exact::Overflow,
        }
    }

    fn times(self, rhs: Self) -> (r: Self) {
        match (self, rhs) {
            (Exact::Value(a), Exact::Value(b)) => match a.checked_mul(b) {
                Some(c) => Exact::Value(c),
                None => Exact::Overflow,
            },
            _ => Exact::Overflow,
        }
    }
}

impl Expr<Exact> {
    /// The value of the expression in the integers, where nothing overflows.
    pub open spec fn int_value(self) -> int
        decreases self,
    {
        match self {
            Expr::Leaf { value, .. } => value.as_int(),
            Expr::Sum { left, right } => left.int_value() + right.int_value(),
            Expr::Product { left, right } => left.int_value() * right.int_value(),
        }
    }

    /// The integer in the leaf that a derivative by `name` is taken by: the
    /// leftmost leaf of that name.
    pub open spec fn int_leaf(self, name: Seq<char>) -> int
        decreases self,
    {
        match self {
            Expr::Leaf { value, .. } => value.as_int(),
            Expr::Sum { left, right } => if left.contains(name) {
                left.int_leaf(name)
            } else {
                right.int_leaf(name)
            },
            Expr::Product { left, right } => if left.contains(name) {
                left.int_leaf(name)
            } else {
                right.int_leaf(name)
            },
        }
    }

    /// The value that the expression has in the integers once the leftmost
    /// leaf called `name` holds `x`, every other leaf being left as it is.
    pub open spec fn int_value_at(self, name: Seq<char>, x: int) -> int
        decreases self,
    {
        match self {
            Expr::Leaf { value, name: own } => if own == name {
                x
            } else {
                value.as_int()
            },
            Expr::Sum { left, right } => if left.contains(name) {
                left.int_value_at(name, x) + right.int_value()
            } else {
                left.int_value() + right.int_value_at(name, x)
            },
            Expr::Product { left, right } => if left.contains(name) {
                left.int_value_at(name, x) * right.int_value()
            } else {
                left.int_value() * right.int_value_at(name, x)
            },
        }
    }

    /// The derivative by `name` in the integers: the product of the values
    /// of the other operands of the products on the way to the leaf.
    pub open spec fn int_derivative(self, name: Seq<char>) -> int
        decreases self,
    {
        match self {
            Expr::Leaf { .. } => 1,
            Expr::Sum { left, right } => if left.contains(name) {
                left.int_derivative(name)
            } else {
                right.int_derivative(name)
            },
            Expr::Product { left, right } => if left.contains(name) {
                right.int_value() * left.int_derivative(name)
            } else {
                left.int_value() * right.int_derivative(name)
            },
        }
    }

    /// A value that has not overflowed is the value in the integers.
    pub proof fn value_is_exact(self)
        ensures
            self.value() matches Exact::Value(v) ==> v == self.int_value(),
        decreases self,
    {
        match self {
            Expr::Leaf { .. } => {},
            Expr::Sum { left, right } => {
                left.value_is_exact();
                right.value_is_exact();
            },
            Expr::Product { left, right } => {
                left.value_is_exact();
                right.value_is_exact();
            },
        }
    }

    /// A derivative that has not overflowed is the derivative in the
    /// integers.
    pub proof fn derivative_is_exact(self, name: Seq<char>)
        ensures
            self.derivative(name) matches Some(Exact::Value(d)) ==> d == self.int_derivative(name),
        decreases self,
    {
        match self {
            Expr::Leaf { .. } => {},
            Expr::Sum { left, right } => {
                left.derivative_is_exact(name);
                right.derivative_is_exact(name);
            },
            Expr::Product { left, right } => {
                left.derivative_is_exact(name);
                right.derivative_is_exact(name);
                left.value_is_exact();
                right.value_is_exact();
            },
        }
    }

    /// The derivative is the slope. As a function of the integer `x` in the
    /// leftmost leaf called `name`, the value of the expression is the line
    /// through its present value whose slope is the derivative by `name`.
    pub proof fn derivative_is_slope(self, name: Seq<char>, x: int)
        requires
            self.contains(name),
        ensures
            self.int_value_at(name, x) == self.int_value() + self.int_derivative(name) * (x
                - self.int_leaf(name)),
        decreases self,
    {
        let k = x - self.int_leaf(name);
        match self {
            Expr::Leaf { name: own, .. } => {
                assert(seq![own][0] == own);
            },
            Expr::Sum { left, right } => {
                Expr::lemma_contains_either(*left, *right, name);
                if left.contains(name) {
                    left.derivative_is_slope(name, x);
                } else {
                    right.derivative_is_slope(name, x);
                }
            },
            Expr::Product { left, right } => {
                Expr::lemma_contains_either(*left, *right, name);
                let vl = left.int_value();
                let vr = right.int_value();
                if left.contains(name) {
                    left.derivative_is_slope(name, x);
                    let d = left.int_derivative(name);
                    assert((vl + d * k) * vr == vl * vr + (vr * d) * k) by (nonlinear_arith);
                } else {
                    right.derivative_is_slope(name, x);
                    let d = right.int_derivative(name);
                    assert(vl * (vr + d * k) == vl * vr + (vl * d) * k) by (nonlinear_arith);
                }
            },
        }
    }
}

} // verus!
