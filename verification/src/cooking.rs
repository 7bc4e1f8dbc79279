//! Recipes: ingredients, the steps that work on them, and the contract of an
//! interpreter of recipes.

pub mod instraction;
pub mod required;
pub mod tree_parser;

use crate::cooking::instraction::{instructions, Chain};
use crate::cooking::required::{copies, requirement, Required};
use crate::cooking::tree_parser::{mirrors, structure, Tree};
use crate::dsl::{AnalysisError, Analyzer, Apply, Compose, Expr, Failure, Ident, Node, Value};
use vstd::prelude::*;
use vstd::string::StringExecFns;

verus! {

/// A recipe: the expression that makes something, and what it makes.
#[derive(Debug, Clone, PartialEq)]
pub struct Recipe<E, T> {
    inner: E,
    to_make: T,
}

impl<E, T> Recipe<E, T> where E: Expr<Ingredient<T>, Operations>, T: Clone {
    /// The expression of the recipe.
    pub closed spec fn expr(self) -> E {
        self.inner
    }

    /// What the recipe makes.
    pub closed spec fn product(self) -> T {
        self.to_make
    }

    /// The recipe of `to_make` whose expression `expr` writes down.
    pub fn new<G: Fn() -> E>(expr: G, to_make: T) -> (r: Self)
        requires
            expr.requires(()),
        ensures
            expr.ensures((), r.expr()),
            r.product() == to_make,
    {
        Recipe { inner: expr(), to_make }
    }

    /// The grouped structure of the recipe.
    pub fn parse(&self) -> (t: Result<Tree<Ingredient<T>>, AnalysisError>)
        ensures
            match structure(self.expr().node()) {
                Ok(Some(m)) => t is Ok && mirrors(m, t->Ok_0),
                Ok(None) => t is Err && t->Err_0@ == Failure::MissingOperand,
                Err(f) => t is Err && t->Err_0@ == f,
            },
    {
        crate::cooking::tree_parser::parse(&self.inner)
    }

    /// What the recipe needs, in the order in which it is written.
    pub fn needed(&self) -> (r: Result<Vec<Ingredient<T>>, AnalysisError>)
        ensures
            match requirement(self.expr().node(), 1) {
                Ok(s) => r is Ok && copies(s, r->Ok_0@),
                Err(f) => r is Err && r->Err_0@ == f,
            },
    {
        Required::collect(&self.inner, 1)
    }

    /// The expression of the recipe.
    pub fn into_expr(self) -> (e: E)
        ensures
            e == self.expr(),
    {
        self.inner
    }
}

/// How much of an ingredient, counted in thousandths of the unit.
#[derive(Debug, Clone, Copy, PartialEq, Eq)]
pub enum Amount {
    Pcs(u64),
    Tsp(u64),
    Gram(u64),
    MilliLitter(u64),
    Pinch,
}

/// An ingredient: what it is and how much of it.
#[derive(Debug, PartialEq)]
pub struct Ingredient<T> {
    pub kind: T,
    pub amount: Amount,
}

/// The operators of a recipe: a step on one operand, or two operands joined.
#[derive(Debug, PartialEq)]
pub enum Operations {
    Processes(Processes),
    Join,
}

/// The steps. Durations are counted in thousandths of a minute.
#[derive(Debug, PartialEq)]
pub enum Processes {
    Cuts { shape: String },
    Stakes { until: u64 },
    Fries { until: u64 },
    Boils { until: u64 },
    Stew { until: u64 },
    Waits { until: u64 },
}

/// A step as interpreters see it: its text as a sequence of characters.
pub enum Step {
    Cuts { shape: Seq<char> },
    Stakes { until: u64 },
    Fries { until: u64 },
    Boils { until: u64 },
    Stew { until: u64 },
    Waits { until: u64 },
}

impl View for Processes {
    type V = Step;

    open spec fn view(&self) -> Step {
        match self {
            Processes::Cuts { shape } => Step::Cuts { shape: shape@ },
            Processes::Stakes { until } => Step::Stakes { until: *until },
            Processes::Fries { until } => Step::Fries { until: *until },
            Processes::Boils { until } => Step::Boils { until: *until },
            Processes::Stew { until } => Step::Stew { until: *until },
            Processes::Waits { until } => Step::Waits { until: *until },
        }
    }
}

impl Clone for Processes {
    fn clone(&self) -> (p: Processes)
        ensures
            p@ == self@,
    {
        match self {
            Processes::Cuts { shape } => Processes::Cuts { shape: shape.clone() },
            Processes::Stakes { until } => Processes::Stakes { until: *until },
            Processes::Fries { until } => Processes::Fries { until: *until },
            Processes::Boils { until } => Processes::Boils { until: *until },
            Processes::Stew { until } => Processes::Stew { until: *until },
            Processes::Waits { until } => Processes::Waits { until: *until },
        }
    }
}

impl Clone for Operations {
    fn clone(&self) -> (op: Operations)
        ensures
            match (*self, op) {
                (Operations::Join, Operations::Join) => true,
                (Operations::Processes(p), Operations::Processes(q)) => q@ == p@,
                _ => false,
            },
    {
        match self {
            Operations::Join => Operations::Join,
            Operations::Processes(p) => Operations::Processes(p.clone()),
        }
    }
}

impl<T: Clone> Clone for Ingredient<T> {
    fn clone(&self) -> (i: Ingredient<T>)
        ensures
            i.amount == self.amount,
            cloned(self.kind, i.kind),
    {
        Ingredient { kind: self.kind.clone(), amount: self.amount }
    }
}

impl Step {
    /// Whether interpreters have a behaviour for this step.
    pub open spec fn supported(self) -> bool {
        self is Cuts || self is Stakes || self is Stew
    }

    /// The name of the step.
    pub open spec fn name(self) -> Seq<char> {
        match self {
            Step::Cuts { .. } => "Cuts"@,
            Step::Stakes { .. } => "Stakes"@,
            Step::Fries { .. } => "Fries"@,
            Step::Boils { .. } => "Boils"@,
            Step::Stew { .. } => "Stew"@,
            Step::Waits { .. } => "Waits"@,
        }
    }
}

impl Processes {
    /// Whether interpreters have a behaviour for this step.
    pub fn supported(&self) -> (b: bool)
        ensures
            b == self@.supported(),
    {
        match self {
            Processes::Cuts { .. } => true,
            Processes::Stakes { .. } => true,
            Processes::Stew { .. } => true,
            _ => false,
        }
    }

    /// The failure that says that this step has no behaviour.
    pub fn unsupported(&self) -> (e: AnalysisError)
        ensures
            e@ == Failure::UnsupportedOperation(self@.name()),
    {
        let name = match self {
            Processes::Cuts { .. } => "Cuts",
            Processes::Stakes { .. } => "Stakes",
            Processes::Fries { .. } => "Fries",
            Processes::Boils { .. } => "Boils",
            Processes::Stew { .. } => "Stew",
            Processes::Waits { .. } => "Waits",
        };
        AnalysisError::UnsupportedOperation(String::from_str(name))
    }
}

impl Amount {
    /// The amount taken `factor` times, where that can be counted in a `u64`.
    pub open spec fn times(self, factor: u64) -> Option<Amount> {
        match self {
            Amount::Pcs(n) => if n * factor <= u64::MAX {
                Some(Amount::Pcs((n * factor) as u64))
            } else {
                None
            },
            Amount::Tsp(n) => if n * factor <= u64::MAX {
                Some(Amount::Tsp((n * factor) as u64))
            } else {
                None
            },
            Amount::Gram(n) => if n * factor <= u64::MAX {
                Some(Amount::Gram((n * factor) as u64))
            } else {
                None
            },
            Amount::MilliLitter(n) => if n * factor <= u64::MAX {
                Some(Amount::MilliLitter((n * factor) as u64))
            } else {
                None
            },
            Amount::Pinch => Some(Amount::Pinch),
        }
    }

    /// The number of thousandths counted; a pinch counts none.
    pub open spec fn count(self) -> nat {
        match self {
            Amount::Pcs(n) => n as nat,
            Amount::Tsp(n) => n as nat,
            Amount::Gram(n) => n as nat,
            Amount::MilliLitter(n) => n as nat,
            Amount::Pinch => 0,
        }
    }

    /// Whether `self` and `other` are counted in the same unit.
    pub open spec fn same_unit(self, other: Amount) -> bool {
        match (self, other) {
            (Amount::Pcs(_), Amount::Pcs(_)) => true,
            (Amount::Tsp(_), Amount::Tsp(_)) => true,
            (Amount::Gram(_), Amount::Gram(_)) => true,
            (Amount::MilliLitter(_), Amount::MilliLitter(_)) => true,
            (Amount::Pinch, Amount::Pinch) => true,
            _ => false,
        }
    }

    /// The amount taken `factor` times, or `None` where that overflows.
    pub fn scaled(self, factor: u64) -> (a: Option<Amount>)
        ensures
            a == self.times(factor),
    {
        match self {
            Amount::Pcs(n) => match n.checked_mul(factor) {
                Some(m) => Some(Amount::Pcs(m)),
                None => None,
            },
            Amount::Tsp(n) => match n.checked_mul(factor) {
                Some(m) => Some(Amount::Tsp(m)),
                None => None,
            },
            Amount::Gram(n) => match n.checked_mul(factor) {
                Some(m) => Some(Amount::Gram(m)),
                None => None,
            },
            Amount::MilliLitter(n) => match n.checked_mul(factor) {
                Some(m) => Some(Amount::MilliLitter(m)),
                None => None,
            },
            Amount::Pinch => Some(Amount::Pinch),
        }
    }

    /// This much of `x`, as a leaf of a recipe.
    pub fn of<T>(self, x: T) -> (e: Value<Ingredient<T>, Operations>)
        ensures
            e.node() == Node::<Ingredient<T>, Operations>::Leaf(Ingredient { kind: x, amount: self }),
    {
        prepare(x, self)
    }
}

/// `amount` of `what`, as a leaf of a recipe.
pub fn prepare<T>(what: T, amount: Amount) -> (e: Value<Ingredient<T>, Operations>)
    ensures
        e.node() == Node::<Ingredient<T>, Operations>::Leaf(Ingredient { kind: what, amount }),
{
    Value::new(Ingredient { kind: what, amount })
}

/// The expression of a step `p` on `operand`.
pub open spec fn processed<T>(p: Processes, operand: Node<Ingredient<T>, Operations>) -> Node<
    Ingredient<T>,
    Operations,
> {
    Node::Apply(Operations::Processes(p), Box::new(operand), Box::new(Node::Identity))
}

/// The expression of `left` joined with `right`.
pub open spec fn joined<T>(
    left: Node<Ingredient<T>, Operations>,
    right: Node<Ingredient<T>, Operations>,
) -> Node<Ingredient<T>, Operations> {
    Node::Apply(Operations::Join, Box::new(left), Box::new(right))
}

/// The two ways to grow a recipe.
pub trait Cooking<T>: Expr<Ingredient<T>, Operations> {
    /// The step `p` on `self`.
    fn apply_process(self, p: Processes) -> (e: Apply<
        Operations,
        Self,
        Ident<Ingredient<T>, Operations>,
    >)
        ensures
            e.node() == processed(p, self.node()),
    ;

    /// `self` joined with `other`.
    fn joins<X: Expr<Ingredient<T>, Operations>>(self, other: X) -> (e: Apply<Operations, Self, X>)
        ensures
            e.node() == joined(self.node(), other.node()),
    ;
}

impl<F, T> Cooking<T> for F where F: Expr<Ingredient<T>, Operations> {
    fn apply_process(self, p: Processes) -> (e: Apply<
        Operations,
        Self,
        Ident<Ingredient<T>, Operations>,
    >) {
        self.apply(Operations::Processes(p), Ident::new())
    }

    fn joins<X: Expr<Ingredient<T>, Operations>>(self, other: X) -> (e: Apply<Operations, Self, X>) {
        self.apply(Operations::Join, other)
    }
}

/// The steps by name.
pub trait CookingExpr<T>: Cooking<T> {
    fn cuts(self, shape: &str) -> (e: Apply<Operations, Self, Ident<Ingredient<T>, Operations>>)
        ensures
            e.node() matches Node::Apply(Operations::Processes(p), l, r) && p@ == (Step::Cuts {
                shape: shape@,
            }) && *l == self.node() && *r == Node::<Ingredient<T>, Operations>::Identity,
    ;

    fn stakes(self, until: u64) -> (e: Apply<Operations, Self, Ident<Ingredient<T>, Operations>>)
        ensures
            e.node() == processed(Processes::Stakes { until }, self.node()),
    ;

    fn stakes_with<X: Expr<Ingredient<T>, Operations>>(self, other: X, until: u64) -> (e: Apply<
        Operations,
        Apply<Operations, Self, X>,
        Ident<Ingredient<T>, Operations>,
    >)
        ensures
            e.node() == processed(
                Processes::Stakes { until },
                joined(self.node(), other.node()),
            ),
    ;

    fn boils(self, until: u64) -> (e: Apply<Operations, Self, Ident<Ingredient<T>, Operations>>)
        ensures
            e.node() == processed(Processes::Boils { until }, self.node()),
    ;

    fn stew(self, until: u64) -> (e: Apply<Operations, Self, Ident<Ingredient<T>, Operations>>)
        ensures
            e.node() == processed(Processes::Stew { until }, self.node()),
    ;

    fn stew_with<X: Expr<Ingredient<T>, Operations>>(self, other: X, until: u64) -> (e: Apply<
        Operations,
        Apply<Operations, Self, X>,
        Ident<Ingredient<T>, Operations>,
    >)
        ensures
            e.node() == processed(Processes::Stew { until }, joined(self.node(), other.node())),
    ;
}

impl<F, T> CookingExpr<T> for F where F: Cooking<T> {
    fn cuts(self, shape: &str) -> (e: Apply<Operations, Self, Ident<Ingredient<T>, Operations>>) {
        self.apply_process(Processes::Cuts { shape: String::from_str(shape) })
    }

    fn stakes(self, until: u64) -> (e: Apply<Operations, Self, Ident<Ingredient<T>, Operations>>) {
        self.apply_process(Processes::Stakes { until })
    }

    fn stakes_with<X: Expr<Ingredient<T>, Operations>>(self, other: X, until: u64) -> (e: Apply<
        Operations,
        Apply<Operations, Self, X>,
        Ident<Ingredient<T>, Operations>,
    >) {
        self.joins(other).apply_process(Processes::Stakes { until })
    }

    fn boils(self, until: u64) -> (e: Apply<Operations, Self, Ident<Ingredient<T>, Operations>>) {
        self.apply_process(Processes::Boils { until })
    }

    fn stew(self, until: u64) -> (e: Apply<Operations, Self, Ident<Ingredient<T>, Operations>>) {
        self.apply_process(Processes::Stew { until })
    }

    fn stew_with<X: Expr<Ingredient<T>, Operations>>(self, other: X, until: u64) -> (e: Apply<
        Operations,
        Apply<Operations, Self, X>,
        Ident<Ingredient<T>, Operations>,
    >) {
        self.joins(other).apply_process(Processes::Stew { until })
    }
}

/// An interpreter of recipes. `prepare` handles an ingredient; `process`
/// folds a step on the finished analysis of its operand into `self`; `join`
/// folds the finished analyses of two operands into `self`; `split` hands out
/// the instance that an operand is analyzed in.
///
/// As for every analyzer, each step is described by a relation, and a step
/// that fails leaves `self` as it was.
pub trait CookingAnalyzer<T>: Sized {
    spec fn prepare_step(
        pre: Self,
        x: Ingredient<T>,
        post: Self,
        r: Result<(), AnalysisError>,
    ) -> bool;

    spec fn process_step(
        pre: Self,
        p: Processes,
        operand: Self,
        post: Self,
        r: Result<(), AnalysisError>,
    ) -> bool;

    spec fn join_step(
        pre: Self,
        left: Self,
        right: Self,
        post: Self,
        r: Result<(), AnalysisError>,
    ) -> bool;

    spec fn split_step(pre: Self, child: Self) -> bool;

    fn prepare(&mut self, x: &Ingredient<T>) -> (r: Result<(), AnalysisError>)
        ensures
            Self::prepare_step(*old(self), *x, *final(self), r),
            r is Err ==> *final(self) == *old(self),
    ;

    fn process(&mut self, p: &Processes, operand: Self) -> (r: Result<(), AnalysisError>)
        ensures
            Self::process_step(*old(self), *p, operand, *final(self), r),
            r is Err ==> *final(self) == *old(self),
    ;

    fn join(&mut self, left: Self, right: Self) -> (r: Result<(), AnalysisError>)
        ensures
            Self::join_step(*old(self), left, right, *final(self), r),
            r is Err ==> *final(self) == *old(self),
    ;

    fn split(&self) -> (child: Self)
        ensures
            Self::split_step(*self, child),
    ;
}

/// Every interpreter of recipes is an analyzer: an ingredient is prepared,
/// the placeholder changes nothing, a plain pair and the operator `Join` are
/// joined, and a step is unary: it is processed on its left operand, and
/// what stands on its right is not looked at.
impl<A, V> Analyzer<Ingredient<V>, Operations> for A where A: CookingAnalyzer<V> {
    open spec fn value_step(
        pre: Self,
        x: Ingredient<V>,
        post: Self,
        r: Result<(), AnalysisError>,
    ) -> bool {
        A::prepare_step(pre, x, post, r)
    }

    open spec fn ident_step(pre: Self, post: Self, r: Result<(), AnalysisError>) -> bool {
        r is Ok && post == pre
    }

    open spec fn split_step(pre: Self, child: Self) -> bool {
        <A as CookingAnalyzer<V>>::split_step(pre, child)
    }

    open spec fn binary(op: Operations) -> bool {
        op is Join
    }

    open spec fn combine_step(
        pre: Self,
        left: Self,
        right: Self,
        post: Self,
        r: Result<(), AnalysisError>,
    ) -> bool {
        A::join_step(pre, left, right, post, r)
    }

    open spec fn apply_step(
        pre: Self,
        op: Operations,
        left: Self,
        right: Self,
        post: Self,
        r: Result<(), AnalysisError>,
    ) -> bool {
        match op {
            Operations::Join => A::join_step(pre, left, right, post, r),
            Operations::Processes(p) => A::process_step(pre, p, left, post, r),
        }
    }

    fn value(&mut self, x: &Ingredient<V>) -> (r: Result<(), AnalysisError>) {
        self.prepare(x)
    }

    fn ident(&mut self) -> (r: Result<(), AnalysisError>) {
        Ok(())
    }

    fn split(&self) -> (child: Self) {
        CookingAnalyzer::split(self)
    }

    fn is_binary(&self, op: &Operations) -> (b: bool) {
        match op {
            Operations::Join => true,
            Operations::Processes(_) => false,
        }
    }

    fn combine(&mut self, left: Self, right: Self) -> (r: Result<(), AnalysisError>) {
        self.join(left, right)
    }

    fn apply(&mut self, op: &Operations, left: Self, right: Self) -> (r: Result<
        (),
        AnalysisError,
    >) {
        match op {
            Operations::Join => self.join(left, right),
            Operations::Processes(p) => self.process(p, left),
        }
    }
}

/// A step without a behaviour on an operand that raises no failure is a
/// failure that names the step, under each interpretation of recipes.
pub proof fn law_step_without_behaviour_fails(
    p: Processes,
    operand: Node<Ingredient<String>, Operations>,
    factor: u64,
)
    requires
        !p@.supported(),
        requirement(operand, factor) is Ok,
        structure(operand) is Ok,
        instructions(operand) is Ok,
    ensures
        requirement(processed(p, operand), factor) == Err::<Seq<Ingredient<String>>, Failure>(
            Failure::UnsupportedOperation(p@.name()),
        ),
        structure(processed(p, operand)) == Err::<Option<Tree<Ingredient<String>>>, Failure>(
            Failure::UnsupportedOperation(p@.name()),
        ),
        instructions(processed(p, operand)) == Err::<Option<Chain>, Failure>(
            Failure::UnsupportedOperation(p@.name()),
        ),
{
}

/// Taking an amount `factor` times multiplies its count and keeps its
/// unit; it is refused exactly where the product cannot be counted in a
/// `u64`; and taking an amount once gives the amount itself.
pub proof fn law_times_multiplies(amount: Amount, factor: u64)
    ensures
        amount.times(factor) is Some <==> amount.count() * factor <= u64::MAX,
        amount.times(factor) matches Some(taken) ==> taken.same_unit(amount) && taken.count()
            == amount.count() * factor,
        amount.times(1) == Some(amount),
{
}

/// The placeholder is no operand: a join with it on either side, and a step
/// on it, is a failure for the builder of structures and for the writer of
/// instructions, where the other operand raises no failure of its own.
pub proof fn law_placeholder_is_no_operand(
    p: Processes,
    other: Node<Ingredient<String>, Operations>,
)
    requires
        p@.supported(),
        structure(other) is Ok,
        instructions(other) is Ok,
    ensures
        structure(joined(Node::Identity, other)) == Err::<Option<Tree<Ingredient<String>>>, Failure>(
            Failure::MissingOperand,
        ),
        structure(joined(other, Node::Identity)) == Err::<Option<Tree<Ingredient<String>>>, Failure>(
            Failure::MissingOperand,
        ),
        structure(processed::<String>(p, Node::Identity)) == Err::<Option<Tree<Ingredient<String>>>, Failure>(
            Failure::MissingOperand,
        ),
        instructions(joined(Node::Identity, other)) == Err::<Option<Chain>, Failure>(
            Failure::MissingOperand,
        ),
        instructions(joined(other, Node::Identity)) == Err::<Option<Chain>, Failure>(
            Failure::MissingOperand,
        ),
        instructions(processed::<String>(p, Node::Identity)) == Err::<Option<Chain>, Failure>(
            Failure::MissingOperand,
        ),
{
    reveal_with_fuel(structure, 2);
    reveal_with_fuel(instructions, 2);
}

} // verus!
