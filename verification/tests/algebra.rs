use exprdsl::algebra::{
    checked_pow, cons, def, Algebra, Calcurator, Displayer, Operations, Symbols, Variable,
};
use exprdsl::dsl::{AnalysisError, Compose, Expr, Ident, Node, Value};

fn twos() -> Symbols {
    let mut symbols = Symbols::new();
    symbols.insert("a", 2);
    symbols.insert("b", 2);
    symbols.insert("c", 2);
    symbols.insert("x", 2);
    symbols
}

#[test]
fn test_algebra() {
    let expr = def("a")
        .add(def("b").pow(cons(3)))
        .pow(cons(2))
        .add(def("c").pow(def("x")))
        .neg();

    let res = Calcurator::calc(&twos(), &expr);
    assert_eq!(-104, res.unwrap());

    assert_eq!(
        "(-(((a + (b ^ 3)) ^ 2) + (c ^ x)))".to_string(),
        Displayer::to_string(&expr)
    );
}

#[test]
fn folding_without_negation() {
    let expr = def("a")
        .add(def("b").pow(cons(3)))
        .pow(cons(2))
        .add(def("c").pow(def("x")));
    assert_eq!(104, Calcurator::calc(&twos(), &expr).unwrap());
    assert_eq!(
        "(((a + (b ^ 3)) ^ 2) + (c ^ x))",
        Displayer::to_string(&expr)
    );
}

#[test]
fn sum_is_sum_of_parts() {
    let mut symbols = Symbols::new();
    symbols.insert("a", 17);
    symbols.insert("b", -40);
    let a = Calcurator::calc(&symbols, &def("a")).unwrap();
    let b = Calcurator::calc(&symbols, &def("b")).unwrap();
    assert_eq!(a + b, Calcurator::calc(&symbols, &def("a").add(def("b"))).unwrap());
    assert_eq!(
        a + b,
        Calcurator::calc(&symbols, &def("a").combine(def("b"))).unwrap()
    );
    assert_eq!(-23, a + b);
}

#[test]
fn plain_pair_renders_as_sum() {
    assert_eq!("(a + 7)", Displayer::to_string(&def("a").combine(cons(7))));
}

#[test]
fn subtraction_adds_the_negation() {
    let expr = cons(10).sub(cons(4));
    assert_eq!(6, Calcurator::calc(&Symbols::new(), &expr).unwrap());
    assert_eq!("(10 + (-4))", Displayer::to_string(&expr));
}

#[test]
fn unbound_symbol_is_reported() {
    let expr = def("a").add(def("missing"));
    match Calcurator::calc(&twos(), &expr) {
        Err(AnalysisError::UnknownSymbol(name)) => assert_eq!(name, "missing"),
        other => panic!("expected an unknown symbol, got {:?}", other),
    }
}

#[test]
fn left_failure_comes_before_right_failure() {
    let expr = def("first").add(def("second"));
    match Calcurator::calc(&Symbols::new(), &expr) {
        Err(AnalysisError::UnknownSymbol(name)) => assert_eq!(name, "first"),
        other => panic!("expected an unknown symbol, got {:?}", other),
    }
}

#[test]
fn right_failure_comes_before_overflow() {
    let expr = cons(i32::MAX).add(cons(1)).add(def("missing"));
    assert!(matches!(
        Calcurator::calc(&Symbols::new(), &expr),
        Err(AnalysisError::Overflow)
    ));
    let expr = cons(i32::MAX).add(def("missing").add(cons(1)));
    assert!(matches!(
        Calcurator::calc(&Symbols::new(), &expr),
        Err(AnalysisError::UnknownSymbol(_))
    ));
}

#[test]
fn sum_overflow_is_reported() {
    let symbols = Symbols::new();
    assert!(matches!(
        Calcurator::calc(&symbols, &cons(i32::MAX).add(cons(1))),
        Err(AnalysisError::Overflow)
    ));
    assert!(matches!(
        Calcurator::calc(&symbols, &cons(i32::MIN).add(cons(-1))),
        Err(AnalysisError::Overflow)
    ));
    assert!(matches!(
        Calcurator::calc(&symbols, &cons(i32::MAX).combine(cons(1))),
        Err(AnalysisError::Overflow)
    ));
    assert_eq!(
        i32::MAX,
        Calcurator::calc(&symbols, &cons(i32::MAX - 1).add(cons(1))).unwrap()
    );
}

#[test]
fn negation_of_the_least_value_overflows() {
    let symbols = Symbols::new();
    assert!(matches!(
        Calcurator::calc(&symbols, &cons(i32::MIN).neg()),
        Err(AnalysisError::Overflow)
    ));
    assert_eq!(
        -i32::MAX,
        Calcurator::calc(&symbols, &cons(i32::MAX).neg()).unwrap()
    );
}

#[test]
fn powers() {
    assert_eq!(Some(1), checked_pow(0, 0));
    assert_eq!(Some(0), checked_pow(0, 5));
    assert_eq!(Some(1), checked_pow(1, u32::MAX));
    assert_eq!(Some(-1), checked_pow(-1, u32::MAX));
    assert_eq!(Some(1), checked_pow(-1, 4_000_000_000));
    assert_eq!(Some(1024), checked_pow(2, 10));
    assert_eq!(Some(-8), checked_pow(-2, 3));
    assert_eq!(Some(i32::MIN), checked_pow(-2, 31));
    assert_eq!(None, checked_pow(2, 31));
    assert_eq!(None, checked_pow(-2, 32));
    assert_eq!(Some(1_073_741_824), checked_pow(2, 30));
    assert_eq!(Some(46_340 * 46_340), checked_pow(46_340, 2));
    assert_eq!(None, checked_pow(46_341, 2));
    assert_eq!(None, checked_pow(3, u32::MAX));
    for base in [-7i32, -2, -1, 0, 1, 2, 3, 10] {
        for exp in 0u32..12 {
            assert_eq!(base.checked_pow(exp), checked_pow(base, exp));
        }
    }
}

#[test]
fn power_in_a_tree() {
    let symbols = Symbols::new();
    assert_eq!(8, Calcurator::calc(&symbols, &cons(2).pow(cons(3))).unwrap());
    assert!(matches!(
        Calcurator::calc(&symbols, &cons(2).pow(cons(31))),
        Err(AnalysisError::Overflow)
    ));
}

#[test]
fn negative_exponent_counts_from_two_to_the_32() {
    let symbols = Symbols::new();
    assert_eq!(1, Calcurator::calc(&symbols, &cons(1).pow(cons(-1))).unwrap());
    assert_eq!(0, Calcurator::calc(&symbols, &cons(0).pow(cons(-1))).unwrap());
    assert_eq!(-1, Calcurator::calc(&symbols, &cons(-1).pow(cons(-1))).unwrap());
    assert_eq!(1, Calcurator::calc(&symbols, &cons(-1).pow(cons(-2))).unwrap());
    assert!(matches!(
        Calcurator::calc(&symbols, &cons(2).pow(cons(-1))),
        Err(AnalysisError::Overflow)
    ));
}

#[test]
fn placeholder_alone() {
    let hole: Ident<Variable, Operations> = Ident::new();
    assert_eq!(0, Calcurator::calc(&Symbols::new(), &hole).unwrap());
    assert_eq!("", Displayer::to_string(&hole));
}

#[test]
fn negation_reads_its_right_operand() {
    let expr = cons(5).apply(Operations::Neg, def("missing"));
    assert!(matches!(
        Calcurator::calc(&Symbols::new(), &expr),
        Err(AnalysisError::UnknownSymbol(_))
    ));
    let expr = cons(5).apply(Operations::Neg, cons(9));
    assert_eq!(-5, Calcurator::calc(&Symbols::new(), &expr).unwrap());
    assert_eq!("(-5)", Displayer::to_string(&expr));
}

#[test]
fn literals_render_in_decimal() {
    assert_eq!("0", Displayer::to_string(&cons(0)));
    assert_eq!("7", Displayer::to_string(&cons(7)));
    assert_eq!("10", Displayer::to_string(&cons(10)));
    assert_eq!("-1", Displayer::to_string(&cons(-1)));
    assert_eq!("2147483647", Displayer::to_string(&cons(i32::MAX)));
    assert_eq!("-2147483648", Displayer::to_string(&cons(i32::MIN)));
    assert_eq!("1000", Variable::Value(1000).text());
    assert_eq!("speed", Variable::Symbol("speed".to_string()).text());
}

#[test]
fn symbols_bind_and_rebind() {
    let mut symbols = Symbols::new();
    assert_eq!(None, symbols.get("a"));
    symbols.insert("a", 1);
    symbols.insert("b", 2);
    symbols.insert("a", 3);
    assert_eq!(Some(3), symbols.get("a"));
    assert_eq!(Some(2), symbols.get("b"));
    assert_eq!(None, symbols.get("c"));
    assert_eq!(3, Calcurator::calc(&symbols, &def("a")).unwrap());
}

#[test]
fn a_tree_of_nodes_reads_as_the_built_expression() {
    let built = def("a").add(cons(3)).neg();
    let tree: Node<Variable, Operations> = Node::Apply(
        Operations::Neg,
        Box::new(Node::Apply(
            Operations::Add,
            Box::new(Node::Leaf(Variable::Symbol("a".to_string()))),
            Box::new(Node::Leaf(Variable::Value(3))),
        )),
        Box::new(Node::Identity),
    );
    assert_eq!(Displayer::to_string(&built), Displayer::to_string(&tree));
    assert_eq!("(-(a + 3))", Displayer::to_string(&tree));
    assert_eq!(
        Calcurator::calc(&twos(), &built).unwrap(),
        Calcurator::calc(&twos(), &tree).unwrap()
    );
    let pair: Node<Variable, Operations> = Node::Combine(
        Box::new(Node::Leaf(Variable::Value(4))),
        Box::new(Node::Leaf(Variable::Value(5))),
    );
    assert_eq!(9, Calcurator::calc(&twos(), &pair).unwrap());
}

#[test]
fn a_failed_analysis_leaves_the_evaluator_usable() {
    let symbols = twos();
    let mut evaluator = Calcurator::new(&symbols);
    assert!(def("a").add(cons(40)).analyze_with(&mut evaluator).is_ok());
    assert!(def("missing").analyze_with(&mut evaluator).is_err());
    assert!(cons(i32::MAX).add(cons(1)).analyze_with(&mut evaluator).is_err());
    let leaf: Value<Variable, Operations> = Value::new(Variable::Value(1));
    assert!(leaf.analyze_with(&mut evaluator).is_ok());
}
