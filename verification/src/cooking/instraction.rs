//! The instructions of a recipe: a chain of textual steps that branches
//! where the recipe joins two parts.

use crate::cooking::{CookingAnalyzer, Ingredient, Operations, Processes, Step};
use crate::dsl::{
    analyzed, left_of, lemma_child_runs, right_of, AnalysisError, Expr, Failure, Node,
};
use crate::text::{push_quantity, quantity};
use std::rc::Rc;
use vstd::prelude::*;
use vstd::string::StringExecFns;

verus! {

/// A chain of steps, read from the last step back to the first.
#[derive(Debug, Clone)]
pub enum Nodes {
    /// The first step of a chain.
    Start(String),
    /// A step, and the chain that comes before it.
    Next(String, Rc<Nodes>),
    /// The point where two chains meet.
    Join(Rc<Nodes>, Rc<Nodes>),
}

/// A chain of steps with its texts as sequences of characters.
pub enum Chain {
    Start(Seq<char>),
    Next(Seq<char>, Box<Chain>),
    Join(Box<Chain>, Box<Chain>),
}

impl View for Nodes {
    type V = Chain;

    open spec fn view(&self) -> Chain
        decreases self,
    {
        match self {
            Nodes::Start(text) => Chain::Start(text@),
            Nodes::Next(text, before) => Chain::Next(text@, Box::new((**before)@)),
            Nodes::Join(left, right) => Chain::Join(Box::new((**left)@), Box::new((**right)@)),
        }
    }
}

/// The text of a step: its verb, and the shape or the duration it is done to.
/// A step without a behaviour has no text.
pub open spec fn step_text(p: Step) -> Seq<char> {
    match p {
        Step::Cuts { shape } => "cut "@ + shape,
        Step::Stakes { until } => "stake "@ + quantity(until as nat),
        Step::Stew { until } => "stew "@ + quantity(until as nat),
        _ => Seq::empty(),
    }
}

/// The instructions of a recipe, `None` for the placeholder alone, or the
/// first failure met going depth first and left to right. An ingredient
/// starts a chain; a step comes behind the chain of its left operand; a
/// join, and a plain pair, is the point where the chains of both operands
/// meet. A step without a behaviour fails, and so does a step or a join with
/// the placeholder where an operand is needed.
pub open spec fn instructions(n: Node<Ingredient<String>, Operations>) -> Result<
    Option<Chain>,
    Failure,
>
    decreases n,
{
    match n {
        Node::Leaf(x) => Ok(Some(Chain::Start("prepare "@ + x.kind@))),
        Node::Identity => Ok(None),
        Node::Apply(Operations::Processes(p), l, _) => match instructions(*l) {
            Err(e) => Err(e),
            Ok(a) => if !p@.supported() {
                Err(Failure::UnsupportedOperation(p@.name()))
            } else {
                match a {
                    Some(c) => Ok(Some(Chain::Next(step_text(p@), Box::new(c)))),
                    None => Err(Failure::MissingOperand),
                }
            },
        },
        _ => match instructions(left_of(n)) {
            Err(e) => Err(e),
            Ok(a) => match instructions(right_of(n)) {
                Err(e) => Err(e),
                Ok(b) => match (a, b) {
                    (Some(c), Some(d)) => Ok(Some(Chain::Join(Box::new(c), Box::new(d)))),
                    _ => Err(Failure::MissingOperand),
                },
            },
        },
    }
}

/// The writer of instructions: the chain written so far, if any. A writer
/// that has not been driven over anything holds none.
#[derive(Debug, Clone)]
pub struct Instraction(Option<Nodes>);

/// Whether `post` and `r` say that a writer that started as `pre` settled on
/// `outcome`: the chain it holds or that it holds none, or the failure
/// reported with the writer left as it was.
pub open spec fn written(
    pre: Instraction,
    outcome: Result<Option<Chain>, Failure>,
    post: Instraction,
    r: Result<(), AnalysisError>,
) -> bool {
    match outcome {
        Ok(c) => r is Ok && post.chain() == c,
        Err(f) => r is Err && r->Err_0@ == f && post == pre,
    }
}

impl Instraction {
    /// The chain written so far, if any.
    pub closed spec fn chain(self) -> Option<Chain> {
        match self.0 {
            Some(n) => Some(n@),
            None => None,
        }
    }

    /// A writer that holds no chain.
    pub fn new() -> (i: Instraction)
        ensures
            i.chain() is None,
    {
        Instraction(None)
    }

    /// The chain written, if any.
    pub fn into_groups(self) -> (n: Option<Nodes>)
        ensures
            match self.chain() {
                Some(c) => n is Some && n->Some_0@ == c,
                None => n is None,
            },
    {
        self.0
    }

    /// The instructions of `expr`.
    pub fn describe<E>(expr: &E) -> (r: Result<Nodes, AnalysisError>) where
        E: Expr<Ingredient<String>, Operations>,

        ensures
            match instructions(expr.node()) {
                Ok(Some(c)) => r is Ok && r->Ok_0@ == c,
                Ok(None) => r is Err && r->Err_0@ == Failure::MissingOperand,
                Err(f) => r is Err && r->Err_0@ == f,
            },
    {
        let mut this = Instraction::new();
        let ghost pre = this;
        let r = expr.analyze_with(&mut this);
        proof {
            lemma_writes(pre, expr.node(), this, r);
        }
        match r {
            Err(e) => Err(e),
            Ok(_) => match this.0 {
                Some(n) => Ok(n),
                None => Err(AnalysisError::MissingOperand),
            },
        }
    }
}

/// The text of the step `p`.
fn step_line(p: &Processes) -> (t: String)
    ensures
        t@ == step_text(p@),
{
    match p {
        Processes::Cuts { shape } => {
            let mut t = String::from_str("cut ");
            t.append(shape.as_str());
            t
        },
        Processes::Stakes { until } => {
            let mut t = String::from_str("stake ");
            push_quantity(&mut t, *until);
            t
        },
        Processes::Stew { until } => {
            let mut t = String::from_str("stew ");
            push_quantity(&mut t, *until);
            t
        },
        _ => String::new(),
    }
}

impl CookingAnalyzer<String> for Instraction {
    open spec fn prepare_step(
        pre: Self,
        x: Ingredient<String>,
        post: Self,
        r: Result<(), AnalysisError>,
    ) -> bool {
        r is Ok && post.chain() == Some(Chain::Start("prepare "@ + x.kind@))
    }

    open spec fn process_step(
        pre: Self,
        p: Processes,
        operand: Self,
        post: Self,
        r: Result<(), AnalysisError>,
    ) -> bool {
        if !p@.supported() {
            r is Err && r->Err_0@ == Failure::UnsupportedOperation(p@.name()) && post == pre
        } else {
            match operand.chain() {
                Some(c) => r is Ok && post.chain() == Some(
                    Chain::Next(step_text(p@), Box::new(c)),
                ),
                None => r is Err && r->Err_0@ == Failure::MissingOperand && post == pre,
            }
        }
    }

    open spec fn join_step(
        pre: Self,
        left: Self,
        right: Self,
        post: Self,
        r: Result<(), AnalysisError>,
    ) -> bool {
        match (left.chain(), right.chain()) {
            (Some(c), Some(d)) => r is Ok && post.chain() == Some(
                Chain::Join(Box::new(c), Box::new(d)),
            ),
            _ => r is Err && r->Err_0@ == Failure::MissingOperand && post == pre,
        }
    }

    open spec fn split_step(pre: Self, child: Self) -> bool {
        child.chain() is None
    }

    fn prepare(&mut self, x: &Ingredient<String>) -> (r: Result<(), AnalysisError>) {
        let mut t = String::from_str("prepare ");
        t.append(x.kind.as_str());
        self.0 = Some(Nodes::Start(t));
        Ok(())
    }

    fn process(&mut self, p: &Processes, operand: Self) -> (r: Result<(), AnalysisError>) {
        if !p.supported() {
            return Err(p.unsupported());
        }
        match operand.0 {
            Some(before) => {
                self.0 = Some(Nodes::Next(step_line(p), Rc::new(before)));
                Ok(())
            },
            None => Err(AnalysisError::MissingOperand),
        }
    }

    fn join(&mut self, left: Self, right: Self) -> (r: Result<(), AnalysisError>) {
        match (left.0, right.0) {
            (Some(a), Some(b)) => {
                self.0 = Some(Nodes::Join(Rc::new(a), Rc::new(b)));
                Ok(())
            },
            _ => Err(AnalysisError::MissingOperand),
        }
    }

    fn split(&self) -> (child: Self) {
        Instraction::new()
    }
}

/// Driving a writer that holds no chain over a recipe leaves the recipe's
/// instructions.
pub proof fn lemma_writes(
    pre: Instraction,
    n: Node<Ingredient<String>, Operations>,
    post: Instraction,
    r: Result<(), AnalysisError>,
)
    requires
        pre.chain() is None,
        analyzed(pre, n, post, r),
    ensures
        written(pre, instructions(n), post, r),
    decreases n,
{
    match n {
        Node::Leaf(_) => {},
        Node::Identity => {},
        _ => {
            let w = lemma_child_runs(pre, n, post, r);
            lemma_writes(w.left_start, left_of(n), w.left_end, w.left_verdict);
            if w.left_verdict is Ok && !(n matches Node::Apply(Operations::Processes(_), _, _)) {
                lemma_writes(w.right_start, right_of(n), w.right_end, w.right_verdict);
            }
        },
    }
}

} // verus!
