//! Arithmetic expression trees over named constants, with their values and
//! their first partial derivatives.
//!
//! A tree is a [`node::Node`]: a leaf with a value and a name, or the sum or
//! the product of two trees. `evaluate` returns the value and the leaf names
//! from left to right; `derivative_over` returns the partial derivative by a
//! named leaf, by the sum and product rules, or reports that no leaf has the
//! name.
//!
//! The numbers are any [`scalar::Scalar`]. What a tree means is the
//! [`expr::Expr`] it stands for; the contracts are written over that, and
//! [`laws`] collects what follows from them. [`exact::Exact`] is a scalar of
//! checked integers, for which values and derivatives are shown to be the
//! ones of integer arithmetic.

pub mod exact;
pub mod expr;
pub mod laws;
pub mod node;
pub mod scalar;
