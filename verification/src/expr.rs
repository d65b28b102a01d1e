//! Expressions as mathematical values: what a tree means, apart from how it
//! is stored.

use crate::scalar::Scalar;
use vstd::prelude::*;

verus! {

/// An arithmetic expression over named constants.
pub enum Expr<S> {
    /// A constant with its name.
    Leaf { value: S, name: Seq<char> },
    /// `left + right`.
    Sum { left: Box<Expr<S>>, right: Box<Expr<S>> },
    /// `left * right`.
    Product { left: Box<Expr<S>>, right: Box<Expr<S>> },
}

impl<S: Scalar> Expr<S> {
    /// The names of the leaves, from left to right. A name that several
    /// leaves carry occurs once for each of them.
    pub open spec fn names(self) -> Seq<Seq<char>>
        decreases self,
    {
        match self {
            Expr::Leaf { name, .. } => seq![name],
            Expr::Sum { left, right } => left.names() + right.names(),
            Expr::Product { left, right } => left.names() + right.names(),
        }
    }

    /// The value of the expression.
    pub open spec fn value(self) -> S
        decreases self,
    {
        match self {
            Expr::Leaf { value, .. } => value,
            Expr::Sum { left, right } => left.value().spec_plus(right.value()),
            Expr::Product { left, right } => left.value().spec_times(right.value()),
        }
    }

    /// Whether some leaf is called `name`.
    pub open spec fn contains(self, name: Seq<char>) -> bool {
        self.names().contains(name)
    }

    /// The partial derivative of the expression by the leaf called `name`,
    /// or `None` where no leaf has that name.
    ///
    /// An operator differentiates the one operand that holds the name, the
    /// left one where both do. A sum passes that operand's derivative on; a
    /// product multiplies it by the value of the other operand, which stands
    /// on the left of the multiplication.
    pub open spec fn derivative(self, name: Seq<char>) -> Option<S>
        decreases self,
    {
        match self {
            Expr::Leaf { name: own, .. } => if own == name {
                Some(S::spec_one())
            } else {
                None
            },
            Expr::Sum { left, right } => if left.contains(name) {
                left.derivative(name)
            } else {
                right.derivative(name)
            },
            Expr::Product { left, right } => if left.contains(name) {
                Self::scaled(right.value(), left.derivative(name))
            } else {
                Self::scaled(left.value(), right.derivative(name))
            },
        }
    }

    /// `factor * d` where the derivative `d` exists.
    pub open spec fn scaled(factor: S, d: Option<S>) -> Option<S> {
        match d {
            Some(d) => Some(factor.spec_times(d)),
            None => None,
        }
    }

    /// An operator holds a name exactly when one of its operands does.
    pub proof fn lemma_contains_either(left: Expr<S>, right: Expr<S>, name: Seq<char>)
        ensures
            (left.names() + right.names()).contains(name) <==> left.contains(name)
                || right.contains(name),
    {
        let l = left.names();
        let r = right.names();
        if l.contains(name) {
            let i = choose|i: int| 0 <= i < l.len() && l[i] == name;
            assert((l + r)[i] == name);
        }
        if r.contains(name) {
            let i = choose|i: int| 0 <= i < r.len() && r[i] == name;
            assert((l + r)[l.len() + i] == name);
        }
        if (l + r).contains(name) {
            let i = choose|i: int| 0 <= i < (l + r).len() && (l + r)[i] == name;
            if i < l.len() {
                assert(l[i] == name);
            } else {
                assert(r[i - l.len()] == name);
            }
        }
    }

    /// The derivative by a name exists exactly when a leaf has that name.
    pub proof fn lemma_derivative_exists(self, name: Seq<char>)
        ensures
            self.derivative(name) is Some <==> self.contains(name),
        decreases self,
    {
        match self {
            Expr::Leaf { name: own, .. } => {
                assert(seq![own][0] == own);
            },
            Expr::Sum { left, right } => {
                Self::lemma_contains_either(*left, *right, name);
                left.lemma_derivative_exists(name);
                right.lemma_derivative_exists(name);
            },
            Expr::Product { left, right } => {
                Self::lemma_contains_either(*left, *right, name);
                left.lemma_derivative_exists(name);
                right.lemma_derivative_exists(name);
            },
        }
    }
}

} // verus!
