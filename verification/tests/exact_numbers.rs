use expr_graph::exact::Exact;
use expr_graph::node::{Node, UnknownVariable};
use expr_graph::scalar::Scalar;

fn leaf(value: i64, name: &str) -> Node<Exact> {
    Node::leaf(Exact::Value(value), name)
}

fn names(list: &[&str]) -> Vec<String> {
    list.iter().map(|s| s.to_string()).collect()
}

fn unknown(name: &str) -> UnknownVariable {
    UnknownVariable { name: name.to_string() }
}

/// ((A + B) * C) * D with A = `a`, B = 5, C = 20, D = 25.
fn worked_example(a: i64) -> Node<Exact> {
    let f1 = Node::sum(leaf(a, "A"), leaf(5, "B"));
    let f2 = Node::product(f1, leaf(20, "C"));
    Node::product(f2, leaf(25, "D"))
}

#[test]
fn exact_one_plus_times() {
    assert_eq!(Exact::one(), Exact::Value(1));
    assert_eq!(Exact::Value(2).plus(Exact::Value(3)), Exact::Value(5));
    assert_eq!(Exact::Value(-4).times(Exact::Value(6)), Exact::Value(-24));
}

#[test]
fn exact_overflow_is_reported_and_absorbs() {
    assert_eq!(Exact::Value(i64::MAX).plus(Exact::Value(1)), Exact::Overflow);
    assert_eq!(Exact::Value(i64::MIN).plus(Exact::Value(-1)), Exact::Overflow);
    assert_eq!(Exact::Value(i64::MAX).times(Exact::Value(2)), Exact::Overflow);
    assert_eq!(Exact::Value(i64::MIN).times(Exact::Value(-1)), Exact::Overflow);
    assert_eq!(Exact::Overflow.plus(Exact::Value(0)), Exact::Overflow);
    assert_eq!(Exact::Value(0).times(Exact::Overflow), Exact::Overflow);
    assert_eq!(Exact::Value(i64::MAX).plus(Exact::Value(0)), Exact::Value(i64::MAX));
    assert_eq!(Exact::Value(i64::MIN).times(Exact::Value(1)), Exact::Value(i64::MIN));
}

#[test]
fn leaf_evaluates_to_its_name_and_value() {
    let mut x = leaf(42, "x");
    assert_eq!(x.evaluate(), (names(&["x"]), Exact::Value(42)));
}

#[test]
fn leaf_derivative_by_itself_is_one() {
    let x = leaf(42, "x");
    assert!(x.is_evaluated());
    assert_eq!(x.derivative_over("x"), Ok(Exact::Value(1)));
}

#[test]
fn leaf_derivative_by_another_name_fails() {
    let x = leaf(42, "x");
    assert_eq!(x.derivative_over("y"), Err(unknown("y")));
    assert_eq!(x.derivative_over(""), Err(unknown("")));
    assert_eq!(x.derivative_over("xx"), Err(unknown("xx")));
}

#[test]
fn leaf_contains_only_its_own_name() {
    let x = leaf(42, "x");
    assert!(x.contains("x"));
    assert!(!x.contains("y"));
    assert!(!x.contains("X"));
    assert!(!x.contains(""));
}

#[test]
fn sum_value_and_names() {
    let mut s = Node::sum(leaf(7, "p"), leaf(-9, "q"));
    assert_eq!(s.evaluate(), (names(&["p", "q"]), Exact::Value(-2)));
}

#[test]
fn product_value_and_names() {
    let mut p = Node::product(leaf(7, "p"), leaf(-9, "q"));
    assert_eq!(p.evaluate(), (names(&["p", "q"]), Exact::Value(-63)));
}

#[test]
fn worked_example_value_and_names() {
    let mut f_end = worked_example(10);
    assert_eq!(
        f_end.evaluate(),
        (names(&["A", "B", "C", "D"]), Exact::Value(7500))
    );
}

#[test]
fn worked_example_derivatives() {
    let mut f_end = worked_example(10);
    f_end.evaluate();
    assert_eq!(f_end.derivative_over("A"), Ok(Exact::Value(500)));
    assert_eq!(f_end.derivative_over("B"), Ok(Exact::Value(500)));
    assert_eq!(f_end.derivative_over("C"), Ok(Exact::Value(375)));
    assert_eq!(f_end.derivative_over("D"), Ok(Exact::Value(300)));
}

#[test]
fn worked_example_unknown_names_fail() {
    let mut f_end = worked_example(10);
    f_end.evaluate();
    for z in ["Z", "a", "AB", "A+B", "", " A"] {
        assert_eq!(f_end.derivative_over(z), Err(unknown(z)));
    }
}

#[test]
fn contains_is_true_exactly_for_the_leaf_names() {
    let mut f_end = worked_example(10);
    let (visited, _) = f_end.evaluate();
    for candidate in ["A", "B", "C", "D", "E", "Z", "a", "", "AB", "(A+B)C"] {
        assert_eq!(
            f_end.contains(candidate),
            visited.iter().any(|n| n == candidate),
            "{candidate:?}"
        );
    }
}

#[test]
fn contains_needs_no_evaluation() {
    let f_end = worked_example(10);
    assert!(!f_end.is_evaluated());
    assert!(f_end.contains("A"));
    assert!(f_end.contains("D"));
    assert!(!f_end.contains("Z"));
}

#[test]
fn sum_derivative_is_that_of_the_operand() {
    // a = x * y and b = u * v share no name.
    let mut a = Node::product(leaf(3, "x"), leaf(4, "y"));
    let mut b = Node::product(leaf(5, "u"), leaf(6, "v"));
    a.evaluate();
    b.evaluate();
    let expected = [
        ("x", a.derivative_over("x")),
        ("y", a.derivative_over("y")),
        ("u", b.derivative_over("u")),
        ("v", b.derivative_over("v")),
    ];
    assert_eq!(expected[0].1, Ok(Exact::Value(4)));
    assert_eq!(expected[1].1, Ok(Exact::Value(3)));
    assert_eq!(expected[2].1, Ok(Exact::Value(6)));
    assert_eq!(expected[3].1, Ok(Exact::Value(5)));
    let mut s = Node::sum(a, b);
    assert_eq!(s.evaluate().1, Exact::Value(42));
    for (name, d) in expected {
        assert_eq!(s.derivative_over(name), d);
    }
}

#[test]
fn product_derivative_is_the_other_value_times_the_operands() {
    // a = x + y * z is 2 + 3 * 4 = 14; b = u + v is 5 + 6 = 11.
    let mut a = Node::sum(leaf(2, "x"), Node::product(leaf(3, "y"), leaf(4, "z")));
    let mut b = Node::sum(leaf(5, "u"), leaf(6, "v"));
    assert_eq!(a.evaluate().1, Exact::Value(14));
    assert_eq!(b.evaluate().1, Exact::Value(11));
    assert_eq!(a.derivative_over("x"), Ok(Exact::Value(1)));
    assert_eq!(a.derivative_over("y"), Ok(Exact::Value(4)));
    assert_eq!(a.derivative_over("z"), Ok(Exact::Value(3)));
    assert_eq!(b.derivative_over("u"), Ok(Exact::Value(1)));
    let mut p = Node::product(a, b);
    assert_eq!(p.evaluate().1, Exact::Value(154));
    assert_eq!(p.derivative_over("x"), Ok(Exact::Value(11)));
    assert_eq!(p.derivative_over("y"), Ok(Exact::Value(44)));
    assert_eq!(p.derivative_over("z"), Ok(Exact::Value(33)));
    assert_eq!(p.derivative_over("u"), Ok(Exact::Value(14)));
    assert_eq!(p.derivative_over("v"), Ok(Exact::Value(14)));
}

#[test]
fn evaluate_twice_gives_the_same() {
    let mut f_end = worked_example(10);
    let first = f_end.evaluate();
    let second = f_end.evaluate();
    assert_eq!(first, second);
    assert_eq!(second, (names(&["A", "B", "C", "D"]), Exact::Value(7500)));
    assert_eq!(f_end.derivative_over("A"), Ok(Exact::Value(500)));
}

#[test]
fn an_operator_is_evaluated_only_by_evaluate() {
    let mut s = Node::sum(leaf(1, "p"), leaf(2, "q"));
    assert!(!s.is_evaluated());
    s.evaluate();
    assert!(s.is_evaluated());
    // An operator over evaluated operands starts out unevaluated all the same.
    let mut p = Node::product(s, leaf(3, "r"));
    assert!(!p.is_evaluated());
    p.evaluate();
    assert!(p.is_evaluated());
}

#[test]
fn a_tree_without_products_needs_no_evaluation() {
    let s = Node::sum(leaf(1, "p"), Node::sum(leaf(2, "q"), leaf(3, "r")));
    assert!(!s.is_evaluated());
    for name in ["p", "q", "r", "z"] {
        assert!(s.is_ready(name), "{name:?}");
    }
    assert_eq!(s.derivative_over("p"), Ok(Exact::Value(1)));
    assert_eq!(s.derivative_over("r"), Ok(Exact::Value(1)));
    assert_eq!(s.derivative_over("z"), Err(unknown("z")));
}

#[test]
fn a_sum_is_ready_where_its_operand_is() {
    let mut p = Node::product(leaf(4, "p"), leaf(5, "q"));
    p.evaluate();
    let s = Node::sum(p, leaf(6, "r"));
    assert!(!s.is_evaluated());
    for name in ["p", "q", "r"] {
        assert!(s.is_ready(name), "{name:?}");
    }
    assert_eq!(s.derivative_over("p"), Ok(Exact::Value(5)));
    assert_eq!(s.derivative_over("q"), Ok(Exact::Value(4)));
    assert_eq!(s.derivative_over("r"), Ok(Exact::Value(1)));
    let fresh = Node::sum(Node::product(leaf(4, "p"), leaf(5, "q")), leaf(6, "r"));
    assert!(!fresh.is_ready("p"));
    assert!(fresh.is_ready("r"));
}

#[test]
fn a_fresh_product_is_ready_only_for_unknown_names() {
    let f_end = worked_example(10);
    for name in ["A", "B", "C", "D"] {
        assert!(!f_end.is_ready(name), "{name:?}");
    }
    for name in ["Z", "", "AB"] {
        assert!(f_end.is_ready(name), "{name:?}");
        assert_eq!(f_end.derivative_over(name), Err(unknown(name)));
    }
}

#[test]
fn an_evaluated_tree_is_ready_for_every_name() {
    let mut f_end = worked_example(10);
    f_end.evaluate();
    for name in ["A", "B", "C", "D", "Z", ""] {
        assert!(f_end.is_ready(name), "{name:?}");
    }
}

#[test]
fn products_off_the_way_to_the_leaf_do_not_matter() {
    // c + (a * b), never evaluated: the way to c passes no product.
    let s = Node::sum(leaf(7, "c"), Node::product(leaf(2, "a"), leaf(3, "b")));
    assert!(!s.is_evaluated());
    assert!(s.is_ready("c"));
    assert_eq!(s.derivative_over("c"), Ok(Exact::Value(1)));
    assert!(!s.is_ready("a"));
    assert!(!s.is_ready("b"));
    // (a * b) * c with only the inner product evaluated.
    let mut inner = Node::product(leaf(2, "a"), leaf(3, "b"));
    inner.evaluate();
    assert!(inner.is_ready("a"));
    let outer = Node::product(inner, leaf(5, "c"));
    assert!(!outer.is_ready("a"));
    assert!(!outer.is_ready("c"));
    assert!(outer.is_ready("z"));
}

#[test]
fn a_name_in_both_operands_is_taken_on_the_left() {
    // x * x with the two leaves holding 3 and 5: by the left leaf alone.
    let mut p = Node::product(leaf(3, "x"), leaf(5, "x"));
    assert_eq!(p.evaluate(), (names(&["x", "x"]), Exact::Value(15)));
    assert_eq!(p.derivative_over("x"), Ok(Exact::Value(5)));
    // (u * 7) + (x * 9): the sum hands on the left operand's derivative.
    let mut s = Node::sum(
        Node::product(leaf(2, "x"), leaf(7, "k")),
        Node::product(leaf(4, "x"), leaf(9, "m")),
    );
    assert_eq!(s.evaluate().1, Exact::Value(50));
    assert_eq!(s.derivative_over("x"), Ok(Exact::Value(7)));
    assert_eq!(s.derivative_over("m"), Ok(Exact::Value(4)));
}

#[test]
fn the_right_operand_is_searched_when_the_left_lacks_the_name() {
    let mut p = Node::product(leaf(3, "l"), Node::sum(leaf(5, "r"), leaf(1, "s")));
    assert_eq!(p.evaluate().1, Exact::Value(18));
    assert_eq!(p.derivative_over("r"), Ok(Exact::Value(3)));
    assert_eq!(p.derivative_over("s"), Ok(Exact::Value(3)));
    assert_eq!(p.derivative_over("l"), Ok(Exact::Value(6)));
}

#[test]
fn derivative_is_the_change_of_the_value() {
    let mut at_10 = worked_example(10);
    let mut at_11 = worked_example(11);
    let mut at_17 = worked_example(17);
    let (_, v10) = at_10.evaluate();
    let (_, v11) = at_11.evaluate();
    let (_, v17) = at_17.evaluate();
    assert_eq!(v10, Exact::Value(7500));
    assert_eq!(v11, Exact::Value(8000));
    assert_eq!(v17, Exact::Value(7500 + 7 * 500));
    assert_eq!(at_10.derivative_over("A"), Ok(Exact::Value(500)));
}

#[test]
fn overflowing_value_is_not_a_number() {
    let mut p = Node::product(leaf(i64::MAX, "big"), leaf(2, "two"));
    assert_eq!(p.evaluate(), (names(&["big", "two"]), Exact::Overflow));
    assert_eq!(p.derivative_over("big"), Ok(Exact::Value(2)));
    assert_eq!(p.derivative_over("two"), Ok(Exact::Value(i64::MAX)));
    let mut q = Node::product(p, leaf(0, "zero"));
    assert_eq!(q.evaluate().1, Exact::Overflow);
    assert_eq!(q.derivative_over("zero"), Ok(Exact::Overflow));
    assert_eq!(q.derivative_over("big"), Ok(Exact::Value(0)));
}

#[test]
fn names_may_be_any_text() {
    let mut s = Node::sum(leaf(1, ""), leaf(2, "größe β"));
    assert_eq!(s.evaluate(), (names(&["", "größe β"]), Exact::Value(3)));
    assert!(s.contains(""));
    assert!(s.contains("größe β"));
    assert!(!s.contains("grosse β"));
    assert_eq!(s.derivative_over("größe β"), Ok(Exact::Value(1)));
}
