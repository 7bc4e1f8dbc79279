use exprdsl::algebra::{cons, def, Algebra, Operations, Variable};
use exprdsl::dsl::{AnalysisError, Analyzer, Compose, Expr, Ident, Node};

/// Writes down every call it gets, and fails at a leaf named "stop".
struct Recorder {
    id: String,
    log: Vec<String>,
    unary_negation: bool,
}

impl Recorder {
    fn new(unary_negation: bool) -> Recorder {
        Recorder { id: "root".to_string(), log: Vec::new(), unary_negation }
    }
}

impl Analyzer<Variable, Operations> for Recorder {
    fn value_step(_: Recorder, _: Variable, _: Recorder, _: Result<(), AnalysisError>) -> bool {
        true
    }

    fn ident_step(_: Recorder, _: Recorder, _: Result<(), AnalysisError>) -> bool {
        true
    }

    fn split_step(_: Recorder, _: Recorder) -> bool {
        true
    }

    fn binary(_: Operations) -> bool {
        true
    }

    fn combine_step(
        _: Recorder,
        _: Recorder,
        _: Recorder,
        _: Recorder,
        _: Result<(), AnalysisError>,
    ) -> bool {
        true
    }

    fn apply_step(
        _: Recorder,
        _: Operations,
        _: Recorder,
        _: Recorder,
        _: Recorder,
        _: Result<(), AnalysisError>,
    ) -> bool {
        true
    }

    fn value(&mut self, x: &Variable) -> Result<(), AnalysisError> {
        if x.text() == "stop" {
            return Err(AnalysisError::UnknownSymbol("stop".to_string()));
        }
        self.log.push(format!("value {}", x.text()));
        Ok(())
    }

    fn ident(&mut self) -> Result<(), AnalysisError> {
        self.log.push("ident".to_string());
        Ok(())
    }

    fn split(&self) -> Recorder {
        Recorder { id: format!("{}.c", self.id), log: Vec::new(), unary_negation: self.unary_negation }
    }

    fn is_binary(&self, op: &Operations) -> bool {
        !(self.unary_negation && matches!(op, Operations::Neg))
    }

    fn combine(&mut self, left: Recorder, right: Recorder) -> Result<(), AnalysisError> {
        self.log.extend(left.log);
        self.log.extend(right.log);
        self.log.push("combine".to_string());
        Ok(())
    }

    fn apply(&mut self, op: &Operations, left: Recorder, right: Recorder) -> Result<(), AnalysisError> {
        self.log.extend(left.log);
        self.log.extend(right.log);
        self.log.push(
            match op {
                Operations::Pow => "pow",
                Operations::Add => "add",
                Operations::Neg => "neg",
            }
            .to_string(),
        );
        Ok(())
    }
}

#[test]
fn traversal_is_depth_first_and_left_to_right() {
    let expr = def("a").add(def("b").pow(cons(3))).combine(def("c").neg());
    let mut recorder = Recorder::new(false);
    assert!(expr.analyze_with(&mut recorder).is_ok());
    assert_eq!(
        recorder.log,
        vec!["value a", "value b", "value 3", "pow", "add", "value c", "ident", "neg", "combine"]
    );
}

#[test]
fn a_unary_operator_skips_its_right_operand() {
    let expr = def("c").apply(Operations::Neg, def("stop"));
    let mut recorder = Recorder::new(true);
    assert!(expr.analyze_with(&mut recorder).is_ok());
    assert_eq!(recorder.log, vec!["value c", "neg"]);
    let mut recorder = Recorder::new(false);
    assert!(expr.analyze_with(&mut recorder).is_err());
}

#[test]
fn a_failure_stops_the_traversal_and_leaves_the_parent() {
    let expr = def("a").add(def("stop")).add(def("b"));
    let mut recorder = Recorder::new(false);
    recorder.log.push("before".to_string());
    match expr.analyze_with(&mut recorder) {
        Err(AnalysisError::UnknownSymbol(name)) => assert_eq!(name, "stop"),
        other => panic!("expected a failure, got {:?}", other),
    }
    assert_eq!(recorder.log, vec!["before"]);
    assert_eq!(recorder.id, "root");
}

#[test]
fn siblings_do_not_see_each_other() {
    let left_only = {
        let mut r = Recorder::new(false);
        def("x").pow(cons(2)).analyze_with(&mut r).unwrap();
        r.log
    };
    let right_only = {
        let mut r = Recorder::new(false);
        def("y").neg().analyze_with(&mut r).unwrap();
        r.log
    };
    let mut both = Recorder::new(false);
    def("x").pow(cons(2)).add(def("y").neg()).analyze_with(&mut both).unwrap();
    let mut expected = left_only.clone();
    expected.extend(right_only.clone());
    expected.push("add".to_string());
    assert_eq!(both.log, expected);

    let mut other = Recorder::new(false);
    cons(0).add(def("y").neg()).analyze_with(&mut other).unwrap();
    assert_eq!(&other.log[1..other.log.len() - 1], &right_only[..]);
}

#[test]
fn a_tree_of_nodes_is_traversed_like_the_built_expression() {
    let tree: Node<Variable, Operations> = Node::Combine(
        Box::new(Node::Apply(
            Operations::Add,
            Box::new(Node::Leaf(Variable::Symbol("a".to_string()))),
            Box::new(Node::Identity),
        )),
        Box::new(Node::Leaf(Variable::Value(1))),
    );
    let hole: Ident<Variable, Operations> = Ident::new();
    let built = def("a").add(hole).combine(cons(1));
    let mut one = Recorder::new(false);
    let mut two = Recorder::new(false);
    tree.analyze_with(&mut one).unwrap();
    built.analyze_with(&mut two).unwrap();
    assert_eq!(one.log, two.log);
    assert_eq!(one.log, vec!["value a", "ident", "add", "value 1", "combine"]);
}
