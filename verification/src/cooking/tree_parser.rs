//! The grouped structure of a recipe: ingredients under the steps that work
//! on them, and joins above the parts that they join.

use crate::cooking::{CookingAnalyzer, Ingredient, Operations, Processes};
use crate::dsl::{
    analyzed, left_of, lemma_child_runs, right_of, AnalysisError, Expr, Failure, Node,
};
use std::rc::Rc;
use vstd::prelude::*;

verus! {

/// A grouped structure.
#[derive(Debug, Clone, PartialEq)]
pub enum Tree<T> {
    /// One ingredient.
    Leaf(T),
    /// A step, and the structure it works on.
    Branch(Processes, Rc<Tree<T>>),
    /// Two structures joined.
    Node(Rc<Tree<T>>, Rc<Tree<T>>),
}

/// The structure of a recipe, `None` for the placeholder alone, or the first
/// failure met going depth first and left to right. A step groups its left
/// operand; what stands on its right is not looked at. A step without a
/// behaviour fails, and so does a step or a join with the placeholder where
/// an operand is needed.
pub open spec fn structure<T>(n: Node<Ingredient<T>, Operations>) -> Result<
    Option<Tree<Ingredient<T>>>,
    Failure,
>
    decreases n,
{
    match n {
        Node::Leaf(x) => Ok(Some(Tree::Leaf(x))),
        Node::Identity => Ok(None),
        Node::Apply(Operations::Processes(p), l, _) => match structure(*l) {
            Err(e) => Err(e),
            Ok(a) => if !p@.supported() {
                Err(Failure::UnsupportedOperation(p@.name()))
            } else {
                match a {
                    Some(t) => Ok(Some(Tree::Branch(p, Rc::new(t)))),
                    None => Err(Failure::MissingOperand),
                }
            },
        },
        _ => match structure(left_of(n)) {
            Err(e) => Err(e),
            Ok(a) => match structure(right_of(n)) {
                Err(e) => Err(e),
                Ok(b) => match (a, b) {
                    (Some(t), Some(u)) => Ok(Some(Tree::Node(Rc::new(t), Rc::new(u)))),
                    _ => Err(Failure::MissingOperand),
                },
            },
        },
    }
}

/// Whether `actual` has the shape of `model`, with the same steps and
/// amounts, and each kind a clone of the kind it stands for.
pub open spec fn mirrors<T: Clone>(model: Tree<Ingredient<T>>, actual: Tree<Ingredient<T>>) -> bool
    decreases model,
{
    match (model, actual) {
        (Tree::Leaf(a), Tree::Leaf(b)) => b.amount == a.amount && cloned(a.kind, b.kind),
        (Tree::Branch(p, t), Tree::Branch(q, u)) => q@ == p@ && mirrors(*t, *u),
        (Tree::Node(a, b), Tree::Node(c, d)) => mirrors(*a, *c) && mirrors(*b, *d),
        _ => false,
    }
}

/// The builder of grouped structures: the structure built so far, if any.
struct Parser<T>(Option<Tree<T>>);

impl<T> Parser<T> {
    fn new() -> (p: Parser<T>)
        ensures
            p.0 is None,
    {
        Parser(None)
    }
}

/// Whether `post` and `r` say that a builder that started as `pre` settled on
/// `outcome`.
spec fn built<T: Clone>(
    pre: Parser<Ingredient<T>>,
    outcome: Result<Option<Tree<Ingredient<T>>>, Failure>,
    post: Parser<Ingredient<T>>,
    r: Result<(), AnalysisError>,
) -> bool {
    match outcome {
        Ok(Some(m)) => r is Ok && post.0 is Some && mirrors(m, post.0->Some_0),
        Ok(None) => r is Ok && post.0 is None,
        Err(f) => r is Err && r->Err_0@ == f && post == pre,
    }
}

impl<T> CookingAnalyzer<T> for Parser<Ingredient<T>> where T: Clone {
    closed spec fn prepare_step(
        pre: Self,
        x: Ingredient<T>,
        post: Self,
        r: Result<(), AnalysisError>,
    ) -> bool {
        r is Ok && post.0 is Some && mirrors(Tree::Leaf(x), post.0->Some_0)
    }

    closed spec fn process_step(
        pre: Self,
        p: Processes,
        operand: Self,
        post: Self,
        r: Result<(), AnalysisError>,
    ) -> bool {
        if !p@.supported() {
            r is Err && r->Err_0@ == Failure::UnsupportedOperation(p@.name()) && post == pre
        } else {
            match operand.0 {
                Some(t) => r is Ok && (post.0 matches Some(Tree::Branch(q, u)) && q@ == p@ && *u
                    == t),
                None => r is Err && r->Err_0@ == Failure::MissingOperand && post == pre,
            }
        }
    }

    closed spec fn join_step(
        pre: Self,
        left: Self,
        right: Self,
        post: Self,
        r: Result<(), AnalysisError>,
    ) -> bool {
        match (left.0, right.0) {
            (Some(t), Some(u)) => r is Ok && post.0 == Some(Tree::Node(Rc::new(t), Rc::new(u))),
            _ => r is Err && r->Err_0@ == Failure::MissingOperand && post == pre,
        }
    }

    closed spec fn split_step(pre: Self, child: Self) -> bool {
        child.0 is None
    }

    fn prepare(&mut self, x: &Ingredient<T>) -> (r: Result<(), AnalysisError>) {
        self.0 = Some(Tree::Leaf(x.clone()));
        Ok(())
    }

    fn process(&mut self, p: &Processes, operand: Self) -> (r: Result<(), AnalysisError>) {
        if !p.supported() {
            return Err(p.unsupported());
        }
        match operand.0 {
            Some(t) => {
                self.0 = Some(Tree::Branch(p.clone(), Rc::new(t)));
                Ok(())
            },
            None => Err(AnalysisError::MissingOperand),
        }
    }

    fn join(&mut self, left: Self, right: Self) -> (r: Result<(), AnalysisError>) {
        match (left.0, right.0) {
            (Some(t), Some(u)) => {
                self.0 = Some(Tree::Node(Rc::new(t), Rc::new(u)));
                Ok(())
            },
            _ => Err(AnalysisError::MissingOperand),
        }
    }

    fn split(&self) -> (child: Self) {
        Parser::new()
    }
}

/// Driving a builder that holds nothing over a recipe leaves the recipe's structure.
proof fn lemma_builds<T: Clone>(
    pre: Parser<Ingredient<T>>,
    n: Node<Ingredient<T>, Operations>,
    post: Parser<Ingredient<T>>,
    r: Result<(), AnalysisError>,
)
    requires
        pre.0 is None,
        analyzed(pre, n, post, r),
    ensures
        built(pre, structure(n), post, r),
    decreases n,
{
    match n {
        Node::Leaf(_) => {},
        Node::Identity => {},
        _ => {
            let w = lemma_child_runs(pre, n, post, r);
            lemma_builds(w.left_start, left_of(n), w.left_end, w.left_verdict);
            if w.left_verdict is Ok && !(n matches Node::Apply(Operations::Processes(_), _, _)) {
                lemma_builds(w.right_start, right_of(n), w.right_end, w.right_verdict);
            }
        },
    }
}

/// The grouped structure of the recipe `r`.
pub fn parse<T, E>(r: &E) -> (t: Result<Tree<Ingredient<T>>, AnalysisError>) where
    T: Clone,
    E: Expr<Ingredient<T>, Operations>,

    ensures
        match structure(r.node()) {
            Ok(Some(m)) => t is Ok && mirrors(m, t->Ok_0),
            Ok(None) => t is Err && t->Err_0@ == Failure::MissingOperand,
            Err(f) => t is Err && t->Err_0@ == f,
        },
{
    let mut a = Parser::new();
    let ghost pre = a;
    let res = r.analyze_with(&mut a);
    proof {
        lemma_builds(pre, r.node(), a, res);
    }
    match res {
        Err(e) => Err(e),
        Ok(_) => match a.0 {
            Some(t) => Ok(t),
            None => Err(AnalysisError::MissingOperand),
        },
    }
}

} // verus!
