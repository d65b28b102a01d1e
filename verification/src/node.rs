//! The expression tree that programs build and query.

use crate::expr::Expr;
use crate::scalar::Scalar;
use vstd::prelude::*;

verus! {

/// The failure of a derivative query: no leaf of the tree is called `name`.
#[derive(Debug, PartialEq, Eq)]
pub struct UnknownVariable {
    pub name: String,
}

/// The stored form of a tree. An operator owns its operands and, once it has
/// been evaluated, holds the value of each. The derivative of a product
/// needs them; that of a sum does not.
#[derive(Debug)]
enum Tree<S> {
    Leaf { value: S, name: String },
    Sum { left: Box<Tree<S>>, right: Box<Tree<S>>, cached: Option<(S, S)> },
    Product { left: Box<Tree<S>>, right: Box<Tree<S>>, cached: Option<(S, S)> },
}

impl<S: Scalar> Tree<S> {
    spec fn expr(self) -> Expr<S>
        decreases self,
    {
        match self {
            Tree::Leaf { value, name } => Expr::Leaf { value, name: name@ },
            Tree::Sum { left, right, .. } => Expr::Sum {
                left: Box::new(left.expr()),
                right: Box::new(right.expr()),
            },
            Tree::Product { left, right, .. } => Expr::Product {
                left: Box::new(left.expr()),
                right: Box::new(right.expr()),
            },
        }
    }

    /// Every operator holds the values of its two operands.
    spec fn evaluated(self) -> bool
        decreases self,
    {
        match self {
            Tree::Leaf { .. } => true,
            Tree::Sum { left, right, cached } => {
                &&& cached == Some((left.expr().value(), right.expr().value()))
                &&& left.evaluated()
                &&& right.evaluated()
            },
            Tree::Product { left, right, cached } => {
                &&& cached == Some((left.expr().value(), right.expr().value()))
                &&& left.evaluated()
                &&& right.evaluated()
            },
        }
    }

    /// An operator that holds values at all holds the right ones, and so
    /// does every operator below it.
    spec fn sound(self) -> bool
        decreases self,
    {
        match self {
            Tree::Leaf { .. } => true,
            Tree::Sum { left, right, cached } => {
                &&& left.sound()
                &&& right.sound()
                &&& cached is Some ==> self.evaluated()
            },
            Tree::Product { left, right, cached } => {
                &&& left.sound()
                &&& right.sound()
                &&& cached is Some ==> self.evaluated()
            },
        }
    }

    /// What `evaluate` leaves is valid.
    proof fn lemma_evaluated_is_sound(self)
        requires
            self.evaluated(),
        ensures
            self.sound(),
        decreases self,
    {
        match self {
            Tree::Leaf { .. } => {},
            Tree::Sum { left, right, .. } => {
                left.lemma_evaluated_is_sound();
                right.lemma_evaluated_is_sound();
            },
            Tree::Product { left, right, .. } => {
                left.lemma_evaluated_is_sound();
                right.lemma_evaluated_is_sound();
            },
        }
    }

    /// Every product on the way to the leftmost leaf called `name` holds
    /// the values of its two operands.
    spec fn ready(self, name: Seq<char>) -> bool
        decreases self,
    {
        match self {
            Tree::Leaf { .. } => true,
            Tree::Sum { left, right, .. } => if left.expr().contains(name) {
                left.ready(name)
            } else if right.expr().contains(name) {
                right.ready(name)
            } else {
                true
            },
            Tree::Product { left, right, cached } => if left.expr().contains(name) {
                cached == Some((left.expr().value(), right.expr().value())) && left.ready(name)
            } else if right.expr().contains(name) {
                cached == Some((left.expr().value(), right.expr().value())) && right.ready(name)
            } else {
                true
            },
        }
    }

    /// An evaluated tree is ready for every name.
    proof fn lemma_evaluated_is_ready(self, name: Seq<char>)
        requires
            self.evaluated(),
        ensures
            self.ready(name),
        decreases self,
    {
        match self {
            Tree::Leaf { .. } => {},
            Tree::Sum { left, right, .. } => {
                left.lemma_evaluated_is_ready(name);
                right.lemma_evaluated_is_ready(name);
            },
            Tree::Product { left, right, .. } => {
                left.lemma_evaluated_is_ready(name);
                right.lemma_evaluated_is_ready(name);
            },
        }
    }

    /// Every tree is ready for a name that it lacks.
    proof fn lemma_unknown_is_ready(self, name: Seq<char>)
        requires
            !self.expr().contains(name),
        ensures
            self.ready(name),
    {
        match self {
            Tree::Leaf { .. } => {},
            Tree::Sum { left, right, .. } => {
                Expr::lemma_contains_either(left.expr(), right.expr(), name);
            },
            Tree::Product { left, right, .. } => {
                Expr::lemma_contains_either(left.expr(), right.expr(), name);
            },
        }
    }

    /// A valid operator that holds values at all is evaluated.
    fn is_evaluated(&self) -> (r: bool)
        requires
            self.sound(),
        ensures
            r == self.evaluated(),
        decreases self,
    {
        match self {
            Tree::Leaf { .. } => true,
            Tree::Sum { cached, .. } => cached.is_some(),
            Tree::Product { cached, .. } => cached.is_some(),
        }
    }

    /// Follows the way that a derivative by `key` takes, as far as the
    /// first product: a valid product that holds values is evaluated, and
    /// with it all that lies below.
    fn is_ready(&self, key: &String) -> (r: bool)
        requires
            self.sound(),
        ensures
            r == self.ready(key@),
        decreases self,
    {
        match self {
            Tree::Leaf { .. } => true,
            Tree::Sum { left, right, .. } => {
                if left.contains(key) {
                    left.is_ready(key)
                } else if right.contains(key) {
                    right.is_ready(key)
                } else {
                    true
                }
            },
            Tree::Product { left, right, cached } => {
                proof {
                    if cached is Some {
                        self.lemma_evaluated_is_ready(key@);
                    }
                }
                if left.contains(key) || right.contains(key) {
                    cached.is_some()
                } else {
                    true
                }
            },
        }
    }

    /// Evaluates the operands from left to right, joins their names in
    /// that order, and keeps their two values in the operator.
    fn evaluate(&mut self) -> (r: (Vec<String>, S))
        ensures
            final(self).expr() == old(self).expr(),
            final(self).evaluated(),
            old(self).evaluated() ==> *final(self) == *old(self),
            r.0.deep_view() == old(self).expr().names(),
            r.1 == old(self).expr().value(),
        decreases *old(self),
    {
        match self {
            Tree::Leaf { value, name } => {
                let mut names: Vec<String> = Vec::new();
                names.push(name.clone());
                assert(names.deep_view() =~= seq![name@]);
                (names, *value)
            },
            Tree::Sum { left, right, cached } => {
                let (mut names, v1) = (&mut **left).evaluate();
                let (mut more, v2) = (&mut **right).evaluate();
                let ghost before = names.deep_view();
                let ghost after = more.deep_view();
                names.append(&mut more);
                assert(names.deep_view() =~= before + after);
                *cached = Some((v1, v2));
                (names, v1.plus(v2))
            },
            Tree::Product { left, right, cached } => {
                let (mut names, v1) = (&mut **left).evaluate();
                let (mut more, v2) = (&mut **right).evaluate();
                let ghost before = names.deep_view();
                let ghost after = more.deep_view();
                names.append(&mut more);
                assert(names.deep_view() =~= before + after);
                *cached = Some((v1, v2));
                (names, v1.times(v2))
            },
        }
    }

    /// A leaf holds its own name; an operator what either operand holds.
    fn contains(&self, key: &String) -> (r: bool)
        ensures
            r == self.expr().contains(key@),
        decreases self,
    {
        match self {
            Tree::Leaf { name, .. } => {
                assert(seq![name@][0] == name@);
                *name == *key
            },
            Tree::Sum { left, right, .. } => {
                proof {
                    Expr::lemma_contains_either(left.expr(), right.expr(), key@);
                }
                left.contains(key) || right.contains(key)
            },
            Tree::Product { left, right, .. } => {
                proof {
                    Expr::lemma_contains_either(left.expr(), right.expr(), key@);
                }
                left.contains(key) || right.contains(key)
            },
        }
    }

    /// Differentiates the operand that holds `key`, the left one first. A
    /// sum hands its derivative on; a product multiplies it by the value
    /// that it holds of the other operand. The node that finds the name in
    /// neither operand reports it, and the report passes upwards unchanged.
    fn derivative_over(&self, key: &String) -> (r: Result<S, UnknownVariable>)
        requires
            self.ready(key@),
        ensures
            match r {
                Ok(d) => self.expr().derivative(key@) == Some(d),
                Err(e) => self.expr().derivative(key@) is None && e.name@ == key@,
            },
        decreases self,
    {
        match self {
            Tree::Leaf { name, .. } => {
                assert(seq![name@][0] == name@);
                if self.contains(key) {
                    Ok(S::one())
                } else {
                    Err(UnknownVariable { name: key.clone() })
                }
            },
            Tree::Sum { left, right, .. } => {
                proof {
                    right.expr().lemma_derivative_exists(key@);
                }
                if left.contains(key) {
                    left.derivative_over(key)
                } else if right.contains(key) {
                    right.derivative_over(key)
                } else {
                    Err(UnknownVariable { name: key.clone() })
                }
            },
            Tree::Product { left, right, cached } => {
                proof {
                    right.expr().lemma_derivative_exists(key@);
                }
                if left.contains(key) {
                    let (_, v2) = cached.unwrap();
                    match left.derivative_over(key) {
                        Ok(d) => Ok(v2.times(d)),
                        Err(e) => Err(e),
                    }
                } else if right.contains(key) {
                    let (v1, _) = cached.unwrap();
                    match right.derivative_over(key) {
                        Ok(d) => Ok(v1.times(d)),
                        Err(e) => Err(e),
                    }
                } else {
                    Err(UnknownVariable { name: key.clone() })
                }
            },
        }
    }
}

/// A node of an expression tree: a named constant, or the sum or the product
/// of two nodes that it owns. Its view is the expression it stands for.
///
/// A tree is built once, from the leaves up, and its constants never change.
/// `evaluate` computes its value and leaves in each operator the values of
/// the two operands. `derivative_over` reads them in the products that it
/// passes on its way to the leaf, which is why it asks that the tree be
/// `ready` for the name: after `evaluate` it is, for every name. A caller
/// that cannot show so beforehand asks `is_ready`.
#[derive(Debug)]
pub struct Node<S> {
    tree: Tree<S>,
}

impl<S: Scalar> View for Node<S> {
    type V = Expr<S>;

    closed spec fn view(&self) -> Expr<S> {
        self.tree.expr()
    }
}

impl<S: Scalar> Node<S> {
    /// The validity of a node: an operator that holds values of its
    /// operands holds the right ones. Every node that the functions of this
    /// type hand out is valid.
    pub closed spec fn wf(self) -> bool {
        self.tree.sound()
    }

    /// Whether every operator of the tree holds the values of its two
    /// operands, as `evaluate` leaves them.
    pub closed spec fn evaluated(self) -> bool {
        self.tree.evaluated()
    }

    /// Whether the derivative by `name` can be read off the tree: every
    /// product on the way to the leftmost leaf called `name` holds the
    /// values of its two operands. That is so for every name once the tree
    /// is evaluated, and on any tree for a name that no leaf has.
    pub closed spec fn ready(self, name: Seq<char>) -> bool {
        self.tree.ready(name)
    }

    /// An evaluated tree is ready for every name.
    pub proof fn lemma_evaluated_is_ready(self, name: Seq<char>)
        requires
            self.evaluated(),
        ensures
            self.ready(name),
    {
        self.tree.lemma_evaluated_is_ready(name);
    }

    /// Every tree is ready for a name that none of its leaves has.
    pub proof fn lemma_unknown_is_ready(self, name: Seq<char>)
        requires
            !self@.contains(name),
        ensures
            self.ready(name),
    {
        self.tree.lemma_unknown_is_ready(name);
    }

    /// A constant with the value `value`, called `name`.
    pub fn leaf(value: S, name: &str) -> (r: Node<S>)
        ensures
            r.wf(),
            r@ == (Expr::Leaf { value, name: name@ }),
            r.evaluated(),
            forall|n: Seq<char>| r.ready(n),
    {
        Node { tree: Tree::Leaf { value, name: name.to_owned() } }
    }

    /// The sum of two trees, `left + right`. It is not evaluated yet,
    /// whatever its operands are, and ready for the names for which the
    /// operand that is differentiated is ready.
    pub fn sum(left: Node<S>, right: Node<S>) -> (r: Node<S>)
        requires
            left.wf(),
            right.wf(),
        ensures
            r.wf(),
            r@ == (Expr::Sum { left: Box::new(left@), right: Box::new(right@) }),
            !r.evaluated(),
            forall|n: Seq<char>|
                r.ready(n) <==> if left@.contains(n) {
                    left.ready(n)
                } else if right@.contains(n) {
                    right.ready(n)
                } else {
                    true
                },
    {
        Node {
            tree: Tree::Sum { left: Box::new(left.tree), right: Box::new(right.tree), cached: None },
        }
    }

    /// The product of two trees, `left * right`. It is not evaluated yet,
    /// whatever its operands are, and ready only for the names it lacks.
    pub fn product(left: Node<S>, right: Node<S>) -> (r: Node<S>)
        requires
            left.wf(),
            right.wf(),
        ensures
            r.wf(),
            r@ == (Expr::Product { left: Box::new(left@), right: Box::new(right@) }),
            !r.evaluated(),
            forall|n: Seq<char>| r.ready(n) <==> !left@.contains(n) && !right@.contains(n),
    {
        Node {
            tree: Tree::Product {
                left: Box::new(left.tree),
                right: Box::new(right.tree),
                cached: None,
            },
        }
    }

    /// Whether the tree is evaluated.
    pub fn is_evaluated(&self) -> (r: bool)
        requires
            self.wf(),
        ensures
            r == self.evaluated(),
    {
        self.tree.is_evaluated()
    }

    /// Whether the tree is ready for `name`, so that `derivative_over` may
    /// be called with it.
    pub fn is_ready(&self, name: &str) -> (r: bool)
        requires
            self.wf(),
        ensures
            r == self.ready(name@),
    {
        let key = name.to_owned();
        self.tree.is_ready(&key)
    }

    /// Computes the value of the tree and the names of its leaves from left
    /// to right, and leaves in each operator the values of its operands.
    ///
    /// The expression stays what it was. On a tree that was evaluated
    /// already nothing changes at all.
    pub fn evaluate(&mut self) -> (r: (Vec<String>, S))
        ensures
            final(self).wf(),
            final(self).evaluated(),
            forall|n: Seq<char>| final(self).ready(n),
            final(self)@ == old(self)@,
            old(self).evaluated() ==> *final(self) == *old(self),
            r.0.deep_view() == old(self)@.names(),
            r.1 == old(self)@.value(),
    {
        let r = self.tree.evaluate();
        proof {
            self.tree.lemma_evaluated_is_sound();
            assert forall|n: Seq<char>| self.tree.ready(n) by {
                self.tree.lemma_evaluated_is_ready(n);
            }
        }
        r
    }

    /// Whether some leaf of the tree is called `name`.
    pub fn contains(&self, name: &str) -> (r: bool)
        ensures
            r == self@.contains(name@),
    {
        let key = name.to_owned();
        self.tree.contains(&key)
    }

    /// The partial derivative of the tree's value by the leaf called `name`,
    /// on a tree that is ready for the name.
    ///
    /// Fails exactly when no leaf has that name, and then reports the name.
    /// Where several leaves have it, the derivative is taken by the leftmost
    /// of them alone.
    pub fn derivative_over(&self, name: &str) -> (r: Result<S, UnknownVariable>)
        requires
            self.ready(name@),
        ensures
            r is Ok <==> self@.contains(name@),
            match r {
                Ok(d) => self@.derivative(name@) == Some(d),
                Err(e) => e.name@ == name@,
            },
    {
        proof {
            self@.lemma_derivative_exists(name@);
        }
        let key = name.to_owned();
        self.tree.derivative_over(&key)
    }
}

} // verus!
