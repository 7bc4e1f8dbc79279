//! The node set, the analyzer contract and the traversal that binds a tree to
//! an analyzer.
//!
//! A tree is grown by wrapping expressions in a new parent and never changed
//! afterwards. An analyzer is one meaning of trees: the traversal walks a
//! tree depth first and left to right and calls the analyzer once per node,
//! with the finished analyses of the node's children. Every child is
//! analyzed in an instance of its own, so nothing that one subtree does to
//! its analyzer reaches a sibling before the parent merges the two.

use std::marker::PhantomData;
use vstd::prelude::*;

verus! {

/// The shape of an expression: the closed set of node kinds over a leaf type
/// `V` and an operator type `F`. Every meaning of an expression is stated
/// over this shape.
pub enum Node<V, F> {
    /// A terminal carrying one value.
    Leaf(V),
    /// The placeholder that stands where a unary operator has no right operand.
    Identity,
    /// Two subtrees side by side, with no operator attached.
    Combine(Box<Node<V, F>>, Box<Node<V, F>>),
    /// An operator over two subtrees; a unary operator has `Identity` on the right.
    Apply(F, Box<Node<V, F>>, Box<Node<V, F>>),
}

/// Why an analysis stopped.
#[derive(Debug)]
pub enum AnalysisError {
    /// A leaf named a symbol that the symbol table does not hold.
    UnknownSymbol(String),
    /// The analyzer has no behaviour for this operator tag.
    UnsupportedOperation(String),
    /// A result does not fit the machine type that carries it.
    Overflow,
    /// An operator found no result where one of its operands should have left one.
    MissingOperand,
}

/// What an `AnalysisError` says, with its texts as sequences of characters.
pub enum Failure {
    UnknownSymbol(Seq<char>),
    UnsupportedOperation(Seq<char>),
    Overflow,
    MissingOperand,
}

impl View for AnalysisError {
    type V = Failure;

    open spec fn view(&self) -> Failure {
        match self {
            AnalysisError::UnknownSymbol(name) => Failure::UnknownSymbol(name@),
            AnalysisError::UnsupportedOperation(tag) => Failure::UnsupportedOperation(tag@),
            AnalysisError::Overflow => Failure::Overflow,
            AnalysisError::MissingOperand => Failure::MissingOperand,
        }
    }
}

/// One interpretation of expressions. The traversal calls `value` and `ident`
/// at the leaves; for a node with two children it analyzes each child in an
/// instance of its own, obtained by `split`, and hands both to `combine` or
/// `apply`, which folds them into `self`. Where the analyzer takes an
/// operator as unary, the instance for the right operand is handed over as
/// `split` made it.
///
/// Each step is described by a relation between the state before, the inputs,
/// the state after and the verdict. A step that fails leaves `self` as it was.
pub trait Analyzer<V, F>: Sized {
    /// What `value` may do at a leaf holding `x`.
    spec fn value_step(pre: Self, x: V, post: Self, r: Result<(), AnalysisError>) -> bool;

    /// What `ident` may do at the placeholder.
    spec fn ident_step(pre: Self, post: Self, r: Result<(), AnalysisError>) -> bool;

    /// Which instances `split` may hand out for a child of `pre`.
    spec fn split_step(pre: Self, child: Self) -> bool;

    /// Whether this analyzer reads the right operand of `op`. Of an operator
    /// that it takes as unary, only the left operand is analyzed: what stands
    /// on the right, by convention the placeholder, is not looked at.
    spec fn binary(op: F) -> bool;

    /// What `combine` may do with the finished analyses of both children.
    spec fn combine_step(
        pre: Self,
        left: Self,
        right: Self,
        post: Self,
        r: Result<(), AnalysisError>,
    ) -> bool;

    /// What `apply` may do for operator `op` with the finished analyses of both children.
    spec fn apply_step(
        pre: Self,
        op: F,
        left: Self,
        right: Self,
        post: Self,
        r: Result<(), AnalysisError>,
    ) -> bool;

    fn value(&mut self, x: &V) -> (r: Result<(), AnalysisError>)
        ensures
            Self::value_step(*old(self), *x, *final(self), r),
            r is Err ==> *final(self) == *old(self),
    ;

    fn ident(&mut self) -> (r: Result<(), AnalysisError>)
        ensures
            Self::ident_step(*old(self), *final(self), r),
            r is Err ==> *final(self) == *old(self),
    ;

    fn split(&self) -> (child: Self)
        ensures
            Self::split_step(*self, child),
    ;

    fn is_binary(&self, op: &F) -> (b: bool)
        ensures
            b == Self::binary(*op),
    ;

    fn combine(&mut self, left: Self, right: Self) -> (r: Result<(), AnalysisError>)
        ensures
            Self::combine_step(*old(self), left, right, *final(self), r),
            r is Err ==> *final(self) == *old(self),
    ;

    fn apply(&mut self, op: &F, left: Self, right: Self) -> (r: Result<(), AnalysisError>)
        ensures
            Self::apply_step(*old(self), *op, left, right, *final(self), r),
            r is Err ==> *final(self) == *old(self),
    ;
}

/// The left child of a node with two children.
pub open spec fn left_of<V, F>(n: Node<V, F>) -> Node<V, F> {
    match n {
        Node::Combine(l, _) => *l,
        Node::Apply(_, l, _) => *l,
        _ => n,
    }
}

/// The right child of a node with two children.
pub open spec fn right_of<V, F>(n: Node<V, F>) -> Node<V, F> {
    match n {
        Node::Combine(_, r) => *r,
        Node::Apply(_, _, r) => *r,
        _ => n,
    }
}

/// Whether the traversal analyzes the right child of `n` for the analyzer
/// `A`: always under a plain pair, and under an operator unless `A` takes it
/// as unary.
pub open spec fn visits_right<V, F, A: Analyzer<V, F>>(n: Node<V, F>) -> bool {
    match n {
        Node::Apply(op, _, _) => A::binary(op),
        _ => true,
    }
}

/// The merge that closes a node with two children: `combine` for a plain
/// pair, `apply` for an operator.
pub open spec fn merge_step<V, F, A: Analyzer<V, F>>(
    pre: A,
    n: Node<V, F>,
    left: A,
    right: A,
    post: A,
    r: Result<(), AnalysisError>,
) -> bool {
    match n {
        Node::Combine(_, _) => A::combine_step(pre, left, right, post, r),
        Node::Apply(op, _, _) => A::apply_step(pre, op, left, right, post, r),
        _ => false,
    }
}

/// Names one run of a child analysis: the instance it started in, the
/// instance it ended in and its verdict. It holds of every triple.
pub open spec fn run<A>(start: A, end: A, r: Result<(), AnalysisError>) -> bool {
    true
}

/// Whether the run `rc`, `ro`, `rr` of the right child closes the outcome
/// `post`, `r` of the node `n` from `pre`, the left child having ended in
/// `lo`: the run starts in a split of `pre`; it is a run of the right child,
/// or no run at all where the right child is not analyzed; its failure is the
/// verdict, and its success is followed by the merge.
pub open spec fn right_closes<V, F, A: Analyzer<V, F>>(
    pre: A,
    n: Node<V, F>,
    lo: A,
    post: A,
    r: Result<(), AnalysisError>,
    rc: A,
    ro: A,
    rr: Result<(), AnalysisError>,
) -> bool
    decreases n, 0nat,
{
    &&& n is Combine || n is Apply
    &&& A::split_step(pre, rc)
    &&& if visits_right::<V, F, A>(n) {
        analyzed(rc, right_of(n), ro, rr)
    } else {
        ro == rc && rr is Ok
    }
    &&& match rr {
        Err(_) => r == rr && post == pre,
        Ok(_) => merge_step(pre, n, lo, ro, post, r),
    }
}

/// Whether the run `lc`, `lo`, `lr` of the left child leads to the outcome
/// `post`, `r` of the node `n` from `pre`: the run starts in a split of
/// `pre`; its failure is the verdict, and its success is followed by a run of
/// the right child that closes the outcome.
pub open spec fn left_leads<V, F, A: Analyzer<V, F>>(
    pre: A,
    n: Node<V, F>,
    post: A,
    r: Result<(), AnalysisError>,
    lc: A,
    lo: A,
    lr: Result<(), AnalysisError>,
) -> bool
    decreases n, 1nat,
{
    &&& n is Combine || n is Apply
    &&& A::split_step(pre, lc)
    &&& analyzed(lc, left_of(n), lo, lr)
    &&& match lr {
        Err(_) => r == lr && post == pre,
        Ok(_) => exists|rc: A, ro: A, rr: Result<(), AnalysisError>|
            #[trigger] run(rc, ro, rr) && right_closes(pre, n, lo, post, r, rc, ro, rr),
    }
}

/// The traversal rule, as a relation: `post` and `r` are an outcome of
/// analyzing `n` with an analyzer in state `pre`.
///
/// A leaf and the placeholder are one step of the analyzer. A node with two
/// children analyzes the left child in a split of `pre`, then the right child
/// in another split of `pre`, then merges; under an operator that the
/// analyzer takes as unary the right child is not analyzed, and the merge
/// gets the second split as it is. The first failure, left before right
/// before merge, is the verdict, and then `post` is `pre`.
pub open spec fn analyzed<V, F, A: Analyzer<V, F>>(
    pre: A,
    n: Node<V, F>,
    post: A,
    r: Result<(), AnalysisError>,
) -> bool
    decreases n, 2nat,
{
    match n {
        Node::Leaf(x) => A::value_step(pre, x, post, r),
        Node::Identity => A::ident_step(pre, post, r),
        _ => exists|lc: A, lo: A, lr: Result<(), AnalysisError>|
            #[trigger] run(lc, lo, lr) && left_leads(pre, n, post, r, lc, lo, lr),
    }
}

/// The left child failed: the node fails with the same verdict.
pub proof fn lemma_left_failure<V, F, A: Analyzer<V, F>>(
    pre: A,
    n: Node<V, F>,
    lc: A,
    lo: A,
    lr: Result<(), AnalysisError>,
)
    requires
        n is Combine || n is Apply,
        A::split_step(pre, lc),
        analyzed(lc, left_of(n), lo, lr),
        lr is Err,
    ensures
        analyzed(pre, n, pre, lr),
{
    assert(run(lc, lo, lr) && left_leads(pre, n, pre, lr, lc, lo, lr));
}

/// The left child succeeded and the right child, analyzed, failed: the node
/// fails with the right child's verdict.
pub proof fn lemma_right_failure<V, F, A: Analyzer<V, F>>(
    pre: A,
    n: Node<V, F>,
    lc: A,
    lo: A,
    lr: Result<(), AnalysisError>,
    rc: A,
    ro: A,
    rr: Result<(), AnalysisError>,
)
    requires
        n is Combine || n is Apply,
        A::split_step(pre, lc),
        analyzed(lc, left_of(n), lo, lr),
        lr is Ok,
        A::split_step(pre, rc),
        visits_right::<V, F, A>(n),
        analyzed(rc, right_of(n), ro, rr),
        rr is Err,
    ensures
        analyzed(pre, n, pre, rr),
{
    assert(run(rc, ro, rr) && right_closes(pre, n, lo, pre, rr, rc, ro, rr));
    assert(run(lc, lo, lr) && left_leads(pre, n, pre, rr, lc, lo, lr));
}

/// The left child succeeded, and the right child did or was not analyzed: the
/// node's outcome is that of the merge.
pub proof fn lemma_merged<V, F, A: Analyzer<V, F>>(
    pre: A,
    n: Node<V, F>,
    lc: A,
    lo: A,
    lr: Result<(), AnalysisError>,
    rc: A,
    ro: A,
    rr: Result<(), AnalysisError>,
    post: A,
    r: Result<(), AnalysisError>,
)
    requires
        n is Combine || n is Apply,
        A::split_step(pre, lc),
        analyzed(lc, left_of(n), lo, lr),
        lr is Ok,
        A::split_step(pre, rc),
        if visits_right::<V, F, A>(n) {
            analyzed(rc, right_of(n), ro, rr)
        } else {
            ro == rc
        },
        rr is Ok,
        merge_step(pre, n, lo, ro, post, r),
    ensures
        analyzed(pre, n, post, r),
{
    assert(run(rc, ro, rr) && right_closes(pre, n, lo, post, r, rc, ro, rr));
    assert(run(lc, lo, lr) && left_leads(pre, n, post, r, lc, lo, lr));
}

/// The runs of the children behind an outcome of a node with two children:
/// where each child started, where it ended and its verdict. The right
/// child's run means something only where the left child succeeded; where
/// the right child was not analyzed it ends where it started.
pub struct ChildRuns<A> {
    pub left_start: A,
    pub left_end: A,
    pub left_verdict: Result<(), AnalysisError>,
    pub right_start: A,
    pub right_end: A,
    pub right_verdict: Result<(), AnalysisError>,
}

/// Whether `w` explains the outcome `post`, `r` of the node `n` from `pre`.
pub open spec fn explains<V, F, A: Analyzer<V, F>>(
    w: ChildRuns<A>,
    pre: A,
    n: Node<V, F>,
    post: A,
    r: Result<(), AnalysisError>,
) -> bool {
    &&& A::split_step(pre, w.left_start)
    &&& analyzed(w.left_start, left_of(n), w.left_end, w.left_verdict)
    &&& w.left_verdict is Err ==> r == w.left_verdict && post == pre
    &&& w.left_verdict is Ok ==> right_closes(
        pre,
        n,
        w.left_end,
        post,
        r,
        w.right_start,
        w.right_end,
        w.right_verdict,
    )
}

/// Every outcome of a node with two children comes from runs of its children.
pub proof fn lemma_child_runs<V, F, A: Analyzer<V, F>>(
    pre: A,
    n: Node<V, F>,
    post: A,
    r: Result<(), AnalysisError>,
) -> (w: ChildRuns<A>)
    requires
        n is Combine || n is Apply,
        analyzed(pre, n, post, r),
    ensures
        explains(w, pre, n, post, r),
{
    let (lc, lo, lr) = choose|lc: A, lo: A, lr: Result<(), AnalysisError>|
        #[trigger] run(lc, lo, lr) && left_leads(pre, n, post, r, lc, lo, lr);
    if lr is Err {
        ChildRuns {
            left_start: lc,
            left_end: lo,
            left_verdict: lr,
            right_start: lc,
            right_end: lo,
            right_verdict: lr,
        }
    } else {
        let (rc, ro, rr) = choose|rc: A, ro: A, rr: Result<(), AnalysisError>|
            #[trigger] run(rc, ro, rr) && right_closes(pre, n, lo, post, r, rc, ro, rr);
        ChildRuns {
            left_start: lc,
            left_end: lo,
            left_verdict: lr,
            right_start: rc,
            right_end: ro,
            right_verdict: rr,
        }
    }
}

/// Siblings are analyzed apart: a run of the right child under one left
/// sibling is a run of it under any other. Where `w` explains an outcome of
/// `n` in which the right child was analyzed, and `other` has the right child
/// of `n` and a left child of its own with a successful run, the right
/// child's run from `w` closes an outcome of `other` too: its failure, or the
/// merge of both ends.
pub proof fn law_split_isolation<V, F, A: Analyzer<V, F>>(
    pre: A,
    n: Node<V, F>,
    post: A,
    r: Result<(), AnalysisError>,
    w: ChildRuns<A>,
    other: Node<V, F>,
    left_start: A,
    left_end: A,
    left_verdict: Result<(), AnalysisError>,
    other_post: A,
    other_r: Result<(), AnalysisError>,
)
    requires
        n is Combine || n is Apply,
        other is Combine || other is Apply,
        explains(w, pre, n, post, r),
        w.left_verdict is Ok,
        visits_right::<V, F, A>(n),
        visits_right::<V, F, A>(other),
        right_of(other) == right_of(n),
        A::split_step(pre, left_start),
        analyzed(left_start, left_of(other), left_end, left_verdict),
        left_verdict is Ok,
        match w.right_verdict {
            Err(_) => other_r == w.right_verdict && other_post == pre,
            Ok(_) => merge_step(pre, other, left_end, w.right_end, other_post, other_r),
        },
    ensures
        analyzed(pre, other, other_post, other_r),
{
    if w.right_verdict is Err {
        lemma_right_failure(
            pre,
            other,
            left_start,
            left_end,
            left_verdict,
            w.right_start,
            w.right_end,
            w.right_verdict,
        );
    } else {
        lemma_merged(
            pre,
            other,
            left_start,
            left_end,
            left_verdict,
            w.right_start,
            w.right_end,
            w.right_verdict,
            other_post,
            other_r,
        );
    }
}

/// Something that denotes an expression and can drive an analyzer over it.
pub trait Expr<V, F>: Sized {
    /// The expression that `self` denotes.
    spec fn node(&self) -> Node<V, F>;

    /// Drives `analyzer` over the expression, depth first and left to right.
    fn analyze_with<A: Analyzer<V, F>>(&self, analyzer: &mut A) -> (r: Result<(), AnalysisError>)
        ensures
            analyzed(*old(analyzer), self.node(), *final(analyzer), r),
            r is Err ==> *final(analyzer) == *old(analyzer),
    ;
}

/// The node with the children `left` and `right`: under the operator `op`,
/// or a plain pair where there is none.
pub open spec fn pair_of<V, F>(op: Option<F>, left: Node<V, F>, right: Node<V, F>) -> Node<V, F> {
    match op {
        Some(f) => Node::Apply(f, Box::new(left), Box::new(right)),
        None => Node::Combine(Box::new(left), Box::new(right)),
    }
}

/// The operator behind a borrowed one.
pub open spec fn owned<F>(op: Option<&F>) -> Option<F> {
    match op {
        Some(f) => Some(*f),
        None => None,
    }
}

/// Whether `analyzer` has the right operand of `op` analyzed; of a plain
/// pair it always has.
fn reads_right<V, F, A: Analyzer<V, F>>(analyzer: &A, op: Option<&F>) -> (b: bool)
    ensures
        b == match op {
            Some(f) => A::binary(*f),
            None => true,
        },
{
    match op {
        Some(f) => analyzer.is_binary(f),
        None => true,
    }
}

/// Folds the finished analyses of two children into `analyzer`: with `apply`
/// under an operator, with `combine` for a plain pair.
fn merge<V, F, A: Analyzer<V, F>>(analyzer: &mut A, op: Option<&F>, left: A, right: A) -> (r:
    Result<(), AnalysisError>)
    ensures
        match op {
            Some(f) => A::apply_step(*old(analyzer), *f, left, right, *final(analyzer), r),
            None => A::combine_step(*old(analyzer), left, right, *final(analyzer), r),
        },
        r is Err ==> *final(analyzer) == *old(analyzer),
{
    match op {
        Some(f) => analyzer.apply(f, left, right),
        None => analyzer.combine(left, right),
    }
}

/// Drives `analyzer` over the node with the children `left` and `right`,
/// under `op` or as a plain pair.
fn analyze_pair<V, F, A, TLeft, TRight>(
    analyzer: &mut A,
    op: Option<&F>,
    left: &TLeft,
    right: &TRight,
) -> (r: Result<(), AnalysisError>) where
    A: Analyzer<V, F>,
    TLeft: Expr<V, F>,
    TRight: Expr<V, F>,

    ensures
        analyzed(
            *old(analyzer),
            pair_of(owned(op), left.node(), right.node()),
            *final(analyzer),
            r,
        ),
        r is Err ==> *final(analyzer) == *old(analyzer),
{
    let ghost pre = *analyzer;
    let ghost n = pair_of(owned(op), left.node(), right.node());
    let mut first = analyzer.split();
    let ghost lc = first;
    let lr = left.analyze_with(&mut first);
    if lr.is_err() {
        proof {
            lemma_left_failure(pre, n, lc, first, lr);
        }
        return lr;
    }
    let mut second = analyzer.split();
    let ghost rc = second;
    let rr = if reads_right(&*analyzer, op) {
        right.analyze_with(&mut second)
    } else {
        Ok(())
    };
    if rr.is_err() {
        proof {
            lemma_right_failure(pre, n, lc, first, lr, rc, second, rr);
        }
        return rr;
    }
    let ghost lo = first;
    let ghost ro = second;
    let r = merge(analyzer, op, first, second);
    proof {
        lemma_merged(pre, n, lc, lo, lr, rc, ro, rr, *analyzer, r);
    }
    r
}

/// The placeholder operand.
pub struct Ident<T, F>(PhantomData<T>, PhantomData<F>);

impl<T, F> Ident<T, F> {
    /// The placeholder.
    pub fn new() -> (e: Ident<T, F>)
        ensures
            e.node() == Node::<T, F>::Identity,
    {
        Ident(PhantomData, PhantomData)
    }
}

impl<T, F> Expr<T, F> for Ident<T, F> {
    open spec fn node(&self) -> Node<T, F> {
        Node::Identity
    }

    fn analyze_with<A: Analyzer<T, F>>(&self, analyzer: &mut A) -> (r: Result<(), AnalysisError>) {
        analyzer.ident()
    }
}

/// A leaf.
pub struct Value<T, F>(T, PhantomData<F>);

impl<T, F> Value<T, F> {
    /// The leaf that holds `value`.
    pub fn new(value: T) -> (e: Value<T, F>)
        ensures
            e.node() == Node::<T, F>::Leaf(value),
    {
        Value(value, PhantomData)
    }
}

impl<T, F> Expr<T, F> for Value<T, F> {
    closed spec fn node(&self) -> Node<T, F> {
        Node::Leaf(self.0)
    }

    fn analyze_with<A: Analyzer<T, F>>(&self, analyzer: &mut A) -> (r: Result<(), AnalysisError>) {
        analyzer.value(&self.0)
    }
}

/// Two expressions side by side.
pub struct Combine<TLeft, TRight>(TLeft, TRight);

impl<V, F, TLeft, TRight> Expr<V, F> for Combine<TLeft, TRight> where
    TLeft: Expr<V, F>,
    TRight: Expr<V, F>,
 {
    closed spec fn node(&self) -> Node<V, F> {
        Node::Combine(Box::new(self.0.node()), Box::new(self.1.node()))
    }

    fn analyze_with<A: Analyzer<V, F>>(&self, analyzer: &mut A) -> (r: Result<(), AnalysisError>) {
        analyze_pair(analyzer, None, &self.0, &self.1)
    }
}

/// An operator over two expressions.
pub struct Apply<TFunctor, TLeft, TRight>(TFunctor, TLeft, TRight);

impl<V, F, TLeft, TRight> Expr<V, F> for Apply<F, TLeft, TRight> where
    TLeft: Expr<V, F>,
    TRight: Expr<V, F>,
 {
    closed spec fn node(&self) -> Node<V, F> {
        Node::Apply(self.0, Box::new(self.1.node()), Box::new(self.2.node()))
    }

    fn analyze_with<A: Analyzer<V, F>>(&self, analyzer: &mut A) -> (r: Result<(), AnalysisError>) {
        analyze_pair(analyzer, Some(&self.0), &self.1, &self.2)
    }
}

impl<V, F> Node<V, F> {
    /// Drives `analyzer` over the node of this kind with the children `left`
    /// and `right`, under `op` or as a plain pair. A tree that is a value
    /// goes down into itself, so it cannot borrow the traversal of the
    /// expressions that are types.
    fn analyze_children<A: Analyzer<V, F>>(
        analyzer: &mut A,
        op: Option<&F>,
        left: &Node<V, F>,
        right: &Node<V, F>,
    ) -> (r: Result<(), AnalysisError>)
        ensures
            analyzed(*old(analyzer), pair_of(owned(op), *left, *right), *final(analyzer), r),
            r is Err ==> *final(analyzer) == *old(analyzer),
        decreases pair_of(owned(op), *left, *right), 0nat,
    {
        let ghost pre = *analyzer;
        let ghost n = pair_of(owned(op), *left, *right);
        let mut first = analyzer.split();
        let ghost lc = first;
        let lr = left.analyze_with(&mut first);
        if lr.is_err() {
            proof {
                lemma_left_failure(pre, n, lc, first, lr);
            }
            return lr;
        }
        let mut second = analyzer.split();
        let ghost rc = second;
        // The right child is a part of `n`, so the descent into it ends.
        assert(right_of(n) == *right);
        let rr = if reads_right(&*analyzer, op) {
            right.analyze_with(&mut second)
        } else {
            Ok(())
        };
        if rr.is_err() {
            proof {
                lemma_right_failure(pre, n, lc, first, lr, rc, second, rr);
            }
            return rr;
        }
        let ghost lo = first;
        let ghost ro = second;
        let r = merge(analyzer, op, first, second);
        proof {
            lemma_merged(pre, n, lc, lo, lr, rc, ro, rr, *analyzer, r);
        }
        r
    }
}

impl<V, F> Expr<V, F> for Node<V, F> {
    open spec fn node(&self) -> Node<V, F> {
        *self
    }

    fn analyze_with<A: Analyzer<V, F>>(&self, analyzer: &mut A) -> (r: Result<(), AnalysisError>)
        decreases *self, 1nat,
    {
        match self {
            Node::Leaf(x) => analyzer.value(x),
            Node::Identity => analyzer.ident(),
            Node::Combine(l, rt) => Node::analyze_children(analyzer, None, l, rt),
            Node::Apply(op, l, rt) => Node::analyze_children(analyzer, Some(op), l, rt),
        }
    }
}

/// The combinators that grow a tree: the only way to put two expressions
/// under a new parent.
pub trait Compose<V, F>: Expr<V, F> {
    /// `self` and `other` under the operator `functor`.
    fn apply<TExpr: Expr<V, F>>(self, functor: F, other: TExpr) -> (e: Apply<F, Self, TExpr>)
        ensures
            e.node() == Node::Apply(functor, Box::new(self.node()), Box::new(other.node())),
    ;

    /// `self` and `other` side by side.
    fn combine<TExpr: Expr<V, F>>(self, other: TExpr) -> (e: Combine<Self, TExpr>)
        ensures
            e.node() == Node::<V, F>::Combine(Box::new(self.node()), Box::new(other.node())),
    ;
}

impl<V, F, T: Expr<V, F>> Compose<V, F> for T {
    fn apply<TExpr: Expr<V, F>>(self, functor: F, other: TExpr) -> (e: Apply<F, Self, TExpr>) {
        Apply(functor, self, other)
    }

    fn combine<TExpr: Expr<V, F>>(self, other: TExpr) -> (e: Combine<Self, TExpr>) {
        Combine(self, other)
    }
}

} // verus!
