//! What holds of every expression tree, stated over the model in which the
//! contracts of `Node` are written.

use crate::expr::Expr;
use crate::node::Node;
use crate::scalar::Scalar;
use vstd::prelude::*;

verus! {

/// Whether no name occurs both in `a` and in `b`.
pub open spec fn disjoint<S: Scalar>(a: Expr<S>, b: Expr<S>) -> bool {
    forall|name: Seq<char>| !(a.contains(name) && b.contains(name))
}

/// A leaf evaluates to its one name and its value. Its derivative by its own
/// name is one; by every other name it has none.
pub proof fn leaf_rules<S: Scalar>(value: S, name: Seq<char>, other: Seq<char>)
    ensures
        (Expr::Leaf { value, name }).names() == seq![name],
        (Expr::Leaf { value, name }).value() == value,
        (Expr::Leaf { value, name }).contains(other) <==> other == name,
        (Expr::Leaf { value, name }).derivative(name) == Some(S::spec_one()),
        other != name ==> (Expr::Leaf { value, name }).derivative(other) is None,
{
    assert(seq![name][0] == name);
}

/// A tree holds a name exactly when one of its leaves carries it: a leaf
/// holds its own name and no other, and an operator holds what either
/// operand holds.
pub proof fn contains_is_membership<S: Scalar>(e: Expr<S>, name: Seq<char>)
    ensures
        e.contains(name) <==> match e {
            Expr::Leaf { name: own, .. } => own == name,
            Expr::Sum { left, right } => left.contains(name) || right.contains(name),
            Expr::Product { left, right } => left.contains(name) || right.contains(name),
        },
{
    match e {
        Expr::Leaf { name: own, .. } => {
            assert(seq![own][0] == own);
        },
        Expr::Sum { left, right } => {
            Expr::lemma_contains_either(*left, *right, name);
        },
        Expr::Product { left, right } => {
            Expr::lemma_contains_either(*left, *right, name);
        },
    }
}

/// The names that `evaluate` reports are those, and only those, for which
/// `contains` answers yes.
pub proof fn contains_agrees_with_names<S: Scalar>(e: Expr<S>, name: Seq<char>)
    ensures
        e.contains(name) <==> exists|i: int| 0 <= i < e.names().len() && e.names()[i] == name,
{
}

/// The operand that holds the name decides the derivative of a sum, and the
/// left operand comes first: whatever the right operand holds, a name of the
/// left operand is differentiated there.
pub proof fn sum_prefers_left<S: Scalar>(a: Expr<S>, b: Expr<S>, name: Seq<char>)
    ensures
        a.contains(name) ==> (Expr::Sum { left: Box::new(a), right: Box::new(b) }).derivative(
            name,
        ) == a.derivative(name),
        !a.contains(name) ==> (Expr::Sum { left: Box::new(a), right: Box::new(b) }).derivative(
            name,
        ) == b.derivative(name),
{
}

/// Linearity of the sum: where the operands share no name, the derivative of
/// `a + b` by a name of `a` is the derivative of `a`, and by a name of `b`
/// that of `b`.
pub proof fn sum_is_linear<S: Scalar>(a: Expr<S>, b: Expr<S>, name: Seq<char>)
    requires
        disjoint(a, b),
    ensures
        a.contains(name) ==> (Expr::Sum { left: Box::new(a), right: Box::new(b) }).derivative(
            name,
        ) == a.derivative(name),
        b.contains(name) ==> (Expr::Sum { left: Box::new(a), right: Box::new(b) }).derivative(
            name,
        ) == b.derivative(name),
{
    assert(!(a.contains(name) && b.contains(name)));
}

/// The product rule: where the operands share no name, the derivative of
/// `a * b` by a name of `a` is the value of `b` times the derivative of `a`,
/// and by a name of `b` the value of `a` times the derivative of `b`.
pub proof fn product_rule<S: Scalar>(a: Expr<S>, b: Expr<S>, name: Seq<char>)
    requires
        disjoint(a, b),
    ensures
        a.contains(name) ==> a.derivative(name) is Some && (Expr::Product {
            left: Box::new(a),
            right: Box::new(b),
        }).derivative(name) == Some(b.value().spec_times(a.derivative(name).unwrap())),
        b.contains(name) ==> b.derivative(name) is Some && (Expr::Product {
            left: Box::new(a),
            right: Box::new(b),
        }).derivative(name) == Some(a.value().spec_times(b.derivative(name).unwrap())),
{
    assert(!(a.contains(name) && b.contains(name)));
    a.lemma_derivative_exists(name);
    b.lemma_derivative_exists(name);
}

/// A derivative query fails exactly for the names that no leaf carries.
pub proof fn unknown_names_fail<S: Scalar>(e: Expr<S>, name: Seq<char>)
    ensures
        e.derivative(name) is None <==> !e.names().contains(name),
{
    e.lemma_derivative_exists(name);
}

/// Evaluation is idempotent. Let `evaluate` take a tree from `start` to
/// `once` with the result `first`, and then from `once` to `twice` with the
/// result `second`: the two results are the same, and the second pass
/// changes nothing in the tree.
pub proof fn evaluate_is_idempotent<S: Scalar>(
    start: Node<S>,
    once: Node<S>,
    first: (Seq<Seq<char>>, S),
    twice: Node<S>,
    second: (Seq<Seq<char>>, S),
)
    requires
        once.evaluated(),
        once@ == start@,
        first == (start@.names(), start@.value()),
        twice.evaluated(),
        twice@ == once@,
        once.evaluated() ==> twice == once,
        second == (once@.names(), once@.value()),
    ensures
        second == first,
        twice == once,
{
}

} // verus!
