//! What a recipe needs: its ingredients in the order in which they are
//! written, each amount taken a given number of times.

use crate::cooking::{joined, CookingAnalyzer, Ingredient, Operations, Processes};
use crate::dsl::{
    analyzed, left_of, lemma_child_runs, right_of, AnalysisError, Expr, Failure, Node,
};
use vstd::prelude::*;

verus! {

/// The ingredients of a recipe from left to right. A step keeps the
/// ingredients of its left operand and has none of its own.
pub open spec fn leaves<T>(n: Node<Ingredient<T>, Operations>) -> Seq<Ingredient<T>>
    decreases n,
{
    match n {
        Node::Leaf(x) => seq![x],
        Node::Identity => Seq::empty(),
        Node::Combine(l, r) => leaves(*l) + leaves(*r),
        Node::Apply(Operations::Join, l, r) => leaves(*l) + leaves(*r),
        Node::Apply(Operations::Processes(_), l, _) => leaves(*l),
    }
}

/// What a recipe needs when every amount is taken `factor` times, or the
/// first failure met going depth first and left to right: an amount that
/// overflows, or a step without a behaviour, which is found once its operand
/// has been gone through.
pub open spec fn requirement<T>(n: Node<Ingredient<T>, Operations>, factor: u64) -> Result<
    Seq<Ingredient<T>>,
    Failure,
>
    decreases n,
{
    match n {
        Node::Leaf(x) => match x.amount.times(factor) {
            Some(a) => Ok(seq![Ingredient { kind: x.kind, amount: a }]),
            None => Err(Failure::Overflow),
        },
        Node::Identity => Ok(Seq::empty()),
        Node::Apply(Operations::Processes(p), l, _) => match requirement(*l, factor) {
            Err(e) => Err(e),
            Ok(a) => if p@.supported() {
                Ok(a)
            } else {
                Err(Failure::UnsupportedOperation(p@.name()))
            },
        },
        _ => match requirement(left_of(n), factor) {
            Err(e) => Err(e),
            Ok(a) => match requirement(right_of(n), factor) {
                Err(e) => Err(e),
                Ok(b) => Ok(a + b),
            },
        },
    }
}

/// Whether `items` holds the ingredients `of`, one for one and in order: the
/// same amounts, and each kind a clone of the kind it stands for.
pub open spec fn copies<T: Clone>(of: Seq<Ingredient<T>>, items: Seq<Ingredient<T>>) -> bool {
    &&& items.len() == of.len()
    &&& forall|i: int|
        0 <= i < of.len() ==> #[trigger] items[i].amount == of[i].amount && cloned(
            of[i].kind,
            items[i].kind,
        )
}

/// The collector: the ingredients gathered so far, and the factor that each
/// amount is taken by.
pub struct Required<T> {
    items: Vec<Ingredient<T>>,
    factor: u64,
}

/// Whether `post` and `r` say that a collector that started as `pre` settled
/// on `outcome`: the ingredients added behind those it held, or the failure
/// reported with the collector left as it was.
pub open spec fn gathered<T: Clone>(
    pre: Required<T>,
    outcome: Result<Seq<Ingredient<T>>, Failure>,
    post: Required<T>,
    r: Result<(), AnalysisError>,
) -> bool {
    match outcome {
        Ok(s) => {
            &&& r is Ok
            &&& post.factor() == pre.factor()
            &&& post.items().len() == pre.items().len() + s.len()
            &&& post.items().subrange(0, pre.items().len() as int) == pre.items()
            &&& copies(s, post.items().subrange(pre.items().len() as int, post.items().len() as int))
        },
        Err(f) => r is Err && r->Err_0@ == f && post == pre,
    }
}

impl<T> Required<T> {
    /// The ingredients gathered so far.
    pub closed spec fn items(self) -> Seq<Ingredient<T>> {
        self.items@
    }

    /// The factor that each amount is taken by.
    pub closed spec fn factor(self) -> u64 {
        self.factor
    }

    /// A collector that holds nothing and takes every amount as it is.
    pub fn new() -> (c: Required<T>)
        ensures
            c.items() == Seq::<Ingredient<T>>::empty(),
            c.factor() == 1,
    {
        Required { items: Vec::new(), factor: 1 }
    }

    /// A collector that holds nothing and takes every amount `factor` times.
    pub fn scaled_by(factor: u64) -> (c: Required<T>)
        ensures
            c.items() == Seq::<Ingredient<T>>::empty(),
            c.factor() == factor,
    {
        Required { items: Vec::new(), factor }
    }

    /// The ingredients gathered, in order.
    pub fn into_vec(self) -> (v: Vec<Ingredient<T>>)
        ensures
            v@ == self.items(),
    {
        self.items
    }
}

impl<T: Clone> Required<T> {
    /// What `expr` needs when every amount is taken `factor` times.
    pub fn collect<E>(expr: &E, factor: u64) -> (r: Result<Vec<Ingredient<T>>, AnalysisError>) where
        E: Expr<Ingredient<T>, Operations>,

        ensures
            match requirement(expr.node(), factor) {
                Ok(s) => r is Ok && copies(s, r->Ok_0@),
                Err(f) => r is Err && r->Err_0@ == f,
            },
    {
        let mut this = Required::scaled_by(factor);
        let ghost pre = this;
        let r = expr.analyze_with(&mut this);
        proof {
            lemma_collects(pre, expr.node(), this, r);
        }
        match r {
            Ok(_) => {
                assert(this.items@.subrange(0, this.items@.len() as int) =~= this.items@);
                Ok(this.items)
            },
            Err(e) => Err(e),
        }
    }
}

impl<T: Clone> CookingAnalyzer<T> for Required<T> {
    open spec fn prepare_step(
        pre: Self,
        x: Ingredient<T>,
        post: Self,
        r: Result<(), AnalysisError>,
    ) -> bool {
        gathered(pre, requirement(Node::Leaf(x), pre.factor()), post, r)
    }

    open spec fn process_step(
        pre: Self,
        p: Processes,
        operand: Self,
        post: Self,
        r: Result<(), AnalysisError>,
    ) -> bool {
        if p@.supported() {
            &&& r is Ok
            &&& post.factor() == pre.factor()
            &&& post.items() == pre.items() + operand.items()
        } else {
            r is Err && r->Err_0@ == Failure::UnsupportedOperation(p@.name()) && post == pre
        }
    }

    open spec fn join_step(
        pre: Self,
        left: Self,
        right: Self,
        post: Self,
        r: Result<(), AnalysisError>,
    ) -> bool {
        &&& r is Ok
        &&& post.factor() == pre.factor()
        &&& post.items() == pre.items() + left.items() + right.items()
    }

    open spec fn split_step(pre: Self, child: Self) -> bool {
        child.items() == Seq::<Ingredient<T>>::empty() && child.factor() == pre.factor()
    }

    fn prepare(&mut self, x: &Ingredient<T>) -> (r: Result<(), AnalysisError>) {
        match x.amount.scaled(self.factor) {
            None => Err(AnalysisError::Overflow),
            Some(amount) => {
                let kind = x.kind.clone();
                self.items.push(Ingredient { kind, amount });
                proof {
                    let n = old(self).items@.len() as int;
                    assert(self.items@.subrange(0, n) =~= old(self).items@);
                    assert(self.items@.subrange(n, n + 1)[0] == self.items@[n]);
                }
                Ok(())
            },
        }
    }

    fn process(&mut self, p: &Processes, operand: Self) -> (r: Result<(), AnalysisError>) {
        if !p.supported() {
            return Err(p.unsupported());
        }
        let mut operand = operand;
        self.items.append(&mut operand.items);
        Ok(())
    }

    fn join(&mut self, left: Self, right: Self) -> (r: Result<(), AnalysisError>) {
        let mut left = left;
        let mut right = right;
        self.items.append(&mut left.items);
        self.items.append(&mut right.items);
        Ok(())
    }

    fn split(&self) -> (child: Self) {
        Required::scaled_by(self.factor)
    }
}

/// Driving a collector over a recipe adds what the recipe needs behind what
/// the collector held.
pub proof fn lemma_collects<T: Clone>(
    pre: Required<T>,
    n: Node<Ingredient<T>, Operations>,
    post: Required<T>,
    r: Result<(), AnalysisError>,
)
    requires
        analyzed(pre, n, post, r),
    ensures
        gathered(pre, requirement(n, pre.factor()), post, r),
    decreases n,
{
    match n {
        Node::Leaf(_) => {},
        Node::Identity => {
            assert(post.items().subrange(0, pre.items().len() as int) =~= pre.items());
        },
        _ => {
            let w = lemma_child_runs(pre, n, post, r);
            lemma_collects(w.left_start, left_of(n), w.left_end, w.left_verdict);
            if w.left_verdict is Ok {
                if !(n matches Node::Apply(Operations::Processes(_), _, _)) {
                    lemma_collects(w.right_start, right_of(n), w.right_end, w.right_verdict);
                }
                if w.right_verdict is Ok {
                    let a = requirement(left_of(n), pre.factor())->Ok_0;
                    let b = requirement(right_of(n), pre.factor())->Ok_0;
                    let k = pre.items().len() as int;
                    let le = w.left_end.items();
                    let re = w.right_end.items();
                    assert(le.subrange(0, le.len() as int) =~= le);
                    assert(re.subrange(0, re.len() as int) =~= re);
                    if r is Ok {
                        assert(post.items().subrange(0, k) =~= pre.items());
                        let tail = post.items().subrange(k, post.items().len() as int);
                        if n matches Node::Apply(Operations::Processes(p), _, _) {
                            assert(tail =~= le);
                        } else {
                            assert(tail =~= le + re);
                            assert forall|i: int| 0 <= i < (a + b).len() implies #[trigger] tail[i].amount
                                == (a + b)[i].amount && cloned((a + b)[i].kind, tail[i].kind) by {
                                if i < a.len() {
                                    assert(tail[i] == le[i]);
                                } else {
                                    assert(tail[i] == re[i - a.len()]);
                                }
                            }
                        }
                    }
                }
            }
        },
    }
}

/// What a join needs is what its left part needs followed by what its right
/// part needs, each taken by the same factor.
pub proof fn law_join_concatenates<T>(
    left: Node<Ingredient<T>, Operations>,
    right: Node<Ingredient<T>, Operations>,
    factor: u64,
)
    requires
        requirement(left, factor) is Ok,
        requirement(right, factor) is Ok,
    ensures
        requirement(joined(left, right), factor) == Ok::<Seq<Ingredient<T>>, Failure>(
            requirement(left, factor)->Ok_0 + requirement(right, factor)->Ok_0,
        ),
        requirement(Node::Combine(Box::new(left), Box::new(right)), factor) == Ok::<
            Seq<Ingredient<T>>,
            Failure,
        >(requirement(left, factor)->Ok_0 + requirement(right, factor)->Ok_0),
{
}

/// What a recipe needs is its ingredients in the order in which they are
/// written: as many, of the same kinds, each amount taken by the factor.
pub proof fn law_requirement_scales_leaves<T>(n: Node<Ingredient<T>, Operations>, factor: u64)
    requires
        requirement(n, factor) is Ok,
    ensures
        requirement(n, factor)->Ok_0.len() == leaves(n).len(),
        forall|i: int|
            0 <= i < leaves(n).len() ==> (#[trigger] requirement(n, factor)->Ok_0[i]).kind
                == leaves(n)[i].kind && leaves(n)[i].amount.times(factor) == Some(
                requirement(n, factor)->Ok_0[i].amount,
            ),
    decreases n,
{
    match n {
        Node::Leaf(_) => {},
        Node::Identity => {},
        Node::Apply(Operations::Processes(_), l, _) => {
            law_requirement_scales_leaves(*l, factor);
        },
        _ => {
            law_requirement_scales_leaves(left_of(n), factor);
            law_requirement_scales_leaves(right_of(n), factor);
        },
    }
}

/// Taking every amount once changes nothing: what a recipe then needs is
/// its ingredients as they are written.
pub proof fn law_unit_factor<T>(n: Node<Ingredient<T>, Operations>)
    requires
        requirement(n, 1) is Ok,
    ensures
        requirement(n, 1) == Ok::<Seq<Ingredient<T>>, Failure>(leaves(n)),
    decreases n,
{
    match n {
        Node::Leaf(_) => {},
        Node::Identity => {},
        Node::Apply(Operations::Processes(_), l, _) => {
            law_unit_factor(*l);
        },
        _ => {
            law_unit_factor(left_of(n));
            law_unit_factor(right_of(n));
        },
    }
}

} // verus!
