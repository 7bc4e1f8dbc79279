//! Integer algebra over symbols: the operators, an evaluator and a renderer.

use crate::dsl::{
    analyzed, lemma_child_runs, AnalysisError, Analyzer, Apply, Compose, Expr, Failure,
    Ident, Node, Value,
};
use crate::text::{decimal, decimal_text};
use vstd::hash_map::StringHashMap;
use vstd::prelude::*;
use vstd::string::StringExecFns;

verus! {

/// A leaf of an algebraic expression: a literal, or a symbol to look up.
pub enum Variable {
    Value(i32),
    Symbol(String),
}

/// The operators of the algebra. `Neg` negates its left operand; its right
/// operand, by convention the placeholder, is analyzed and then not used.
pub enum Operations {
    Pow,
    Add,
    Neg,
}

/// The values that symbols stand for.
pub struct Symbols {
    table: StringHashMap<i32>,
}

impl View for Symbols {
    type V = Map<Seq<char>, i32>;

    closed spec fn view(&self) -> Map<Seq<char>, i32> {
        self.table@
    }
}

impl Symbols {
    /// A table that binds no symbol.
    pub fn new() -> (t: Symbols)
        ensures
            t@ == Map::<Seq<char>, i32>::empty(),
    {
        Symbols { table: StringHashMap::new() }
    }

    /// Binds `name` to `value`; an earlier binding of `name` is replaced.
    pub fn insert(&mut self, name: &str, value: i32)
        ensures
            final(self)@ == old(self)@.insert(name@, value),
    {
        self.table.insert(String::from_str(name), value);
    }

    /// The value bound to `name`, if any.
    pub fn get(&self, name: &str) -> (v: Option<i32>)
        ensures
            v == (if self@.contains_key(name@) {
                Some(self@[name@])
            } else {
                None
            }),
    {
        match self.table.get(name) {
            Some(v) => Some(*v),
            None => None,
        }
    }
}

/// `b` to the power `e`.
pub open spec fn power(b: int, e: nat) -> int
    decreases e,
{
    if e == 0 {
        1
    } else {
        b * power(b, (e - 1) as nat)
    }
}

/// Whether `x` can be held in an `i32`.
pub open spec fn fits(x: int) -> bool {
    i32::MIN <= x <= i32::MAX
}

/// The exponent that an evaluated right operand stands for: the operand
/// itself where it is not negative, else the operand plus 2^32.
pub open spec fn exponent(x: int) -> nat {
    if x >= 0 {
        x as nat
    } else {
        (x + 0x1_0000_0000) as nat
    }
}

/// The absolute value of `x`.
pub open spec fn magnitude(x: int) -> int {
    if x < 0 {
        -x
    } else {
        x
    }
}

proof fn lemma_power_of_zero(e: nat)
    requires
        e > 0,
    ensures
        power(0, e) == 0,
{
}

proof fn lemma_power_of_one(e: nat)
    ensures
        power(1, e) == 1,
    decreases e,
{
    if e > 0 {
        lemma_power_of_one((e - 1) as nat);
    }
}

proof fn lemma_power_of_minus_one(e: nat)
    ensures
        power(-1, e) == (if e % 2 == 0 {
            1int
        } else {
            -1int
        }),
    decreases e,
{
    if e > 0 {
        lemma_power_of_minus_one((e - 1) as nat);
    }
}

/// With a base of magnitude two or more, each further factor at least
/// doubles the magnitude of the power.
proof fn lemma_power_grows(b: int, i: nat, j: nat)
    requires
        magnitude(b) >= 2,
        i <= j,
    ensures
        magnitude(power(b, j)) >= magnitude(power(b, i)),
        magnitude(power(b, i)) >= 1,
        i < j ==> magnitude(power(b, j)) >= 2 * magnitude(power(b, i)),
    decreases j,
{
    if i == 0 {
        assert(power(b, 0) == 1);
    } else {
        lemma_power_grows(b, (i - 1) as nat, (i - 1) as nat);
        let p = power(b, (i - 1) as nat);
        assert(magnitude(b * p) >= 1) by (nonlinear_arith)
            requires
                magnitude(b) >= 2,
                magnitude(p) >= 1,
        ;
    }
    if i < j {
        lemma_power_grows(b, i, (j - 1) as nat);
        let p = power(b, (j - 1) as nat);
        assert(magnitude(b * p) >= 2 * magnitude(p)) by (nonlinear_arith)
            requires
                magnitude(b) >= 2,
        ;
    }
}

/// `base` to the power `exp`, or `None` where that does not fit an `i32`.
pub fn checked_pow(base: i32, exp: u32) -> (r: Option<i32>)
    ensures
        r == (if fits(power(base as int, exp as nat)) {
            Some(power(base as int, exp as nat) as i32)
        } else {
            None
        }),
{
    if exp == 0 {
        return Some(1);
    }
    if base == 0 {
        proof {
            lemma_power_of_zero(exp as nat);
        }
        return Some(0);
    }
    if base == 1 {
        proof {
            lemma_power_of_one(exp as nat);
        }
        return Some(1);
    }
    if base == -1 {
        proof {
            lemma_power_of_minus_one(exp as nat);
        }
        return Some(if exp % 2 == 0 { 1 } else { -1 });
    }
    let mut acc: i32 = 1;
    let mut i: u32 = 0;
    while i < exp
        invariant
            i <= exp,
            magnitude(base as int) >= 2,
            acc == power(base as int, i as nat),
        decreases exp - i,
    {
        assert(-0x4000_0000_0000_0000 <= (acc as int) * (base as int) <= 0x4000_0000_0000_0000)
            by (nonlinear_arith)
            requires
                -0x8000_0000 <= acc <= 0x7fff_ffff,
                -0x8000_0000 <= base <= 0x7fff_ffff,
        ;
        let wide: i64 = (acc as i64) * (base as i64);
        assert(wide == power(base as int, (i + 1) as nat)) by {
            assert(power(base as int, (i + 1) as nat) == (base as int) * power(
                base as int,
                i as nat,
            ));
            assert((acc as int) * (base as int) == (base as int) * (acc as int))
                by (nonlinear_arith);
        }
        if wide > i32::MAX as i64 || wide < i32::MIN as i64 {
            proof {
                lemma_power_grows(base as int, (i + 1) as nat, exp as nat);
            }
            return None;
        }
        acc = wide as i32;
        i = i + 1;
    }
    Some(acc)
}

/// A result that fits an `i32`, or the overflow it stands for.
pub open spec fn settle(x: int) -> Result<int, Failure> {
    if fits(x) {
        Ok(x)
    } else {
        Err(Failure::Overflow)
    }
}

/// What an operator makes of the values of its operands.
pub open spec fn fold(op: Operations, a: int, b: int) -> int {
    match op {
        Operations::Pow => power(a, exponent(b)),
        Operations::Add => a + b,
        Operations::Neg => -a,
    }
}

/// The value of an expression under `symbols`, or the first failure met
/// going depth first and left to right. The placeholder counts as 0 and a
/// plain pair as the sum of its parts.
pub open spec fn eval(symbols: Map<Seq<char>, i32>, n: Node<Variable, Operations>) -> Result<
    int,
    Failure,
>
    decreases n,
{
    match n {
        Node::Leaf(Variable::Value(v)) => Ok(v as int),
        Node::Leaf(Variable::Symbol(s)) => if symbols.contains_key(s@) {
            Ok(symbols[s@] as int)
        } else {
            Err(Failure::UnknownSymbol(s@))
        },
        Node::Identity => Ok(0),
        Node::Combine(l, r) => match eval(symbols, *l) {
            Err(e) => Err(e),
            Ok(a) => match eval(symbols, *r) {
                Err(e) => Err(e),
                Ok(b) => settle(a + b),
            },
        },
        Node::Apply(op, l, r) => match eval(symbols, *l) {
            Err(e) => Err(e),
            Ok(a) => match eval(symbols, *r) {
                Err(e) => Err(e),
                Ok(b) => settle(fold(op, a, b)),
            },
        },
    }
}

/// The evaluator: one computed value, and the symbol table it reads.
pub struct Calcurator<'a> {
    res: i32,
    symbols: &'a Symbols,
}

/// Whether `post` and `r` say that an evaluator that started as `pre`
/// settled on `outcome`: the value stored, or the failure reported with the
/// evaluator left as it was.
pub open spec fn settled(
    pre: Calcurator,
    outcome: Result<int, Failure>,
    post: Calcurator,
    r: Result<(), AnalysisError>,
) -> bool {
    match outcome {
        Ok(v) => r is Ok && post.result() == v && post.bindings() == pre.bindings(),
        Err(f) => r is Err && r->Err_0@ == f && post == pre,
    }
}

impl<'a> Calcurator<'a> {
    /// The value computed so far.
    pub closed spec fn result(self) -> i32 {
        self.res
    }

    /// The symbol table that leaves are resolved in.
    pub closed spec fn bindings(self) -> Map<Seq<char>, i32> {
        self.symbols@
    }

    /// An evaluator over `symbols` that has computed nothing yet.
    pub fn new(symbols: &'a Symbols) -> (c: Calcurator<'a>)
        ensures
            c.result() == 0,
            c.bindings() == symbols@,
    {
        Calcurator { res: 0, symbols }
    }

    /// The value of `expr` under `symbols`.
    pub fn calc<T>(symbols: &Symbols, expr: &T) -> (r: Result<i32, AnalysisError>) where
        T: Expr<Variable, Operations>,

        ensures
            match eval(symbols@, expr.node()) {
                Ok(v) => r is Ok && r->Ok_0 == v,
                Err(f) => r is Err && r->Err_0@ == f,
            },
    {
        let mut this = Calcurator::new(symbols);
        let ghost pre = this;
        let r = expr.analyze_with(&mut this);
        proof {
            lemma_evaluates(pre, expr.node(), this, r);
        }
        match r {
            Ok(_) => Ok(this.res),
            Err(e) => Err(e),
        }
    }

    /// Stores `wide` where it fits, and reports an overflow where it does not.
    fn store(&mut self, wide: i64) -> (r: Result<(), AnalysisError>)
        ensures
            settled(*old(self), settle(wide as int), *final(self), r),
    {
        if wide > i32::MAX as i64 || wide < i32::MIN as i64 {
            Err(AnalysisError::Overflow)
        } else {
            self.res = wide as i32;
            Ok(())
        }
    }
}

impl<'a> Analyzer<Variable, Operations> for Calcurator<'a> {
    open spec fn value_step(
        pre: Self,
        x: Variable,
        post: Self,
        r: Result<(), AnalysisError>,
    ) -> bool {
        settled(pre, eval(pre.bindings(), Node::Leaf(x)), post, r)
    }

    open spec fn ident_step(pre: Self, post: Self, r: Result<(), AnalysisError>) -> bool {
        r is Ok && post == pre
    }

    open spec fn split_step(pre: Self, child: Self) -> bool {
        child.result() == 0 && child.bindings() == pre.bindings()
    }

    open spec fn binary(op: Operations) -> bool {
        true
    }

    open spec fn combine_step(
        pre: Self,
        left: Self,
        right: Self,
        post: Self,
        r: Result<(), AnalysisError>,
    ) -> bool {
        settled(pre, settle(left.result() + right.result()), post, r)
    }

    open spec fn apply_step(
        pre: Self,
        op: Operations,
        left: Self,
        right: Self,
        post: Self,
        r: Result<(), AnalysisError>,
    ) -> bool {
        settled(pre, settle(fold(op, left.result() as int, right.result() as int)), post, r)
    }

    fn value(&mut self, x: &Variable) -> (r: Result<(), AnalysisError>) {
        match x {
            Variable::Value(v) => {
                self.res = *v;
                Ok(())
            },
            Variable::Symbol(s) => match self.symbols.get(s.as_str()) {
                Some(v) => {
                    self.res = v;
                    Ok(())
                },
                None => Err(AnalysisError::UnknownSymbol(s.clone())),
            },
        }
    }

    fn ident(&mut self) -> (r: Result<(), AnalysisError>) {
        Ok(())
    }

    fn split(&self) -> (child: Self) {
        Calcurator::new(self.symbols)
    }

    fn is_binary(&self, op: &Operations) -> (b: bool) {
        true
    }

    fn combine(&mut self, left: Self, right: Self) -> (r: Result<(), AnalysisError>) {
        self.store(left.res as i64 + right.res as i64)
    }

    fn apply(&mut self, op: &Operations, left: Self, right: Self) -> (r: Result<
        (),
        AnalysisError,
    >) {
        match op {
            Operations::Pow => {
                let e: u32 = if right.res >= 0 {
                    right.res as u32
                } else {
                    (right.res as i64 + 0x1_0000_0000) as u32
                };
                match checked_pow(left.res, e) {
                    Some(v) => {
                        self.res = v;
                        Ok(())
                    },
                    None => Err(AnalysisError::Overflow),
                }
            },
            Operations::Add => self.store(left.res as i64 + right.res as i64),
            Operations::Neg => self.store(-(left.res as i64)),
        }
    }
}

/// Driving a fresh evaluator over an expression settles on the expression's value.
pub proof fn lemma_evaluates(
    pre: Calcurator,
    n: Node<Variable, Operations>,
    post: Calcurator,
    r: Result<(), AnalysisError>,
)
    requires
        pre.result() == 0,
        analyzed(pre, n, post, r),
    ensures
        settled(pre, eval(pre.bindings(), n), post, r),
    decreases n,
{
    match n {
        Node::Leaf(_) => {},
        Node::Identity => {},
        _ => {
            let w = lemma_child_runs(pre, n, post, r);
            lemma_evaluates(w.left_start, crate::dsl::left_of(n), w.left_end, w.left_verdict);
            if w.left_verdict is Ok {
                lemma_evaluates(
                    w.right_start,
                    crate::dsl::right_of(n),
                    w.right_end,
                    w.right_verdict,
                );
            }
        },
    }
}

/// Two operands around an operator's symbol, in parentheses.
pub open spec fn infix(left: Seq<char>, symbol: char, right: Seq<char>) -> Seq<char> {
    seq!['('] + left + seq![' ', symbol, ' '] + right + seq![')']
}

/// One operand behind an operator's symbol, in parentheses.
pub open spec fn prefix(symbol: char, operand: Seq<char>) -> Seq<char> {
    seq!['(', symbol] + operand + seq![')']
}

/// The text that an operator makes of the texts of its operands.
pub open spec fn fold_text(op: Operations, left: Seq<char>, right: Seq<char>) -> Seq<char> {
    match op {
        Operations::Pow => infix(left, '^', right),
        Operations::Add => infix(left, '+', right),
        Operations::Neg => prefix('-', left),
    }
}

/// The text of an expression: every operator node in parentheses of its own,
/// a binary one with both operands, a unary one with its left operand only.
/// The placeholder has no text and a plain pair reads as a sum.
pub open spec fn render(n: Node<Variable, Operations>) -> Seq<char>
    decreases n,
{
    match n {
        Node::Leaf(Variable::Value(v)) => decimal(v as int),
        Node::Leaf(Variable::Symbol(s)) => s@,
        Node::Identity => Seq::empty(),
        Node::Combine(l, r) => infix(render(*l), '+', render(*r)),
        Node::Apply(op, l, r) => fold_text(op, render(*l), render(*r)),
    }
}

impl Variable {
    /// The text of the leaf: the decimal text of a literal, the name of a symbol.
    pub fn text(&self) -> (t: String)
        ensures
            t@ == render(Node::Leaf(*self)),
    {
        match self {
            Variable::Value(v) => decimal_text(*v as i64),
            Variable::Symbol(s) => s.clone(),
        }
    }
}

/// The renderer: a growing text.
pub struct Displayer(String);

impl Displayer {
    /// The text built so far.
    pub closed spec fn text(self) -> Seq<char> {
        self.0@
    }

    /// The text of `expr`.
    pub fn to_string<T>(expr: &T) -> (t: String) where T: Expr<Variable, Operations>
        ensures
            t@ == render(expr.node()),
    {
        let mut this = Displayer(String::new());
        let ghost pre = this;
        let r = expr.analyze_with(&mut this);
        proof {
            lemma_renders(pre, expr.node(), this, r);
        }
        this.0
    }

    /// `(left symbol right)`, where `symbol` is the text of one character.
    fn infix_text(left: String, symbol: &str, right: String) -> (t: String)
        requires
            symbol@.len() == 1,
        ensures
            t@ == infix(left@, symbol@[0], right@),
    {
        proof {
            reveal_strlit("(");
            reveal_strlit(" ");
            reveal_strlit(")");
        }
        let mut t = String::from_str("(");
        t.append(left.as_str());
        t.append(" ");
        t.append(symbol);
        t.append(" ");
        t.append(right.as_str());
        t.append(")");
        assert(t@ =~= infix(left@, symbol@[0], right@));
        t
    }
}

impl Analyzer<Variable, Operations> for Displayer {
    open spec fn value_step(
        pre: Self,
        x: Variable,
        post: Self,
        r: Result<(), AnalysisError>,
    ) -> bool {
        r is Ok && post.text() == render(Node::Leaf(x))
    }

    open spec fn ident_step(pre: Self, post: Self, r: Result<(), AnalysisError>) -> bool {
        r is Ok && post == pre
    }

    open spec fn split_step(pre: Self, child: Self) -> bool {
        child.text() == Seq::<char>::empty()
    }

    open spec fn binary(op: Operations) -> bool {
        true
    }

    open spec fn combine_step(
        pre: Self,
        left: Self,
        right: Self,
        post: Self,
        r: Result<(), AnalysisError>,
    ) -> bool {
        r is Ok && post.text() == infix(left.text(), '+', right.text())
    }

    open spec fn apply_step(
        pre: Self,
        op: Operations,
        left: Self,
        right: Self,
        post: Self,
        r: Result<(), AnalysisError>,
    ) -> bool {
        r is Ok && post.text() == fold_text(op, left.text(), right.text())
    }

    fn value(&mut self, x: &Variable) -> (r: Result<(), AnalysisError>) {
        self.0 = x.text();
        Ok(())
    }

    fn ident(&mut self) -> (r: Result<(), AnalysisError>) {
        Ok(())
    }

    fn split(&self) -> (child: Self) {
        Displayer(String::new())
    }

    fn is_binary(&self, op: &Operations) -> (b: bool) {
        true
    }

    fn combine(&mut self, left: Self, right: Self) -> (r: Result<(), AnalysisError>) {
        proof {
            reveal_strlit("+");
        }
        self.0 = Displayer::infix_text(left.0, "+", right.0);
        Ok(())
    }

    fn apply(&mut self, op: &Operations, left: Self, right: Self) -> (r: Result<
        (),
        AnalysisError,
    >) {
        match op {
            Operations::Pow => {
                proof {
                    reveal_strlit("^");
                }
                self.0 = Displayer::infix_text(left.0, "^", right.0);
            },
            Operations::Add => {
                proof {
                    reveal_strlit("+");
                }
                self.0 = Displayer::infix_text(left.0, "+", right.0);
            },
            Operations::Neg => {
                proof {
                    reveal_strlit("(-");
                    reveal_strlit(")");
                }
                let mut t = String::from_str("(-");
                t.append(left.0.as_str());
                t.append(")");
                assert(t@ =~= prefix('-', left.0@));
                self.0 = t;
            },
        }
        Ok(())
    }
}

/// Driving a renderer that holds no text over an expression never fails and
/// leaves the expression's text.
pub proof fn lemma_renders(
    pre: Displayer,
    n: Node<Variable, Operations>,
    post: Displayer,
    r: Result<(), AnalysisError>,
)
    requires
        pre.text() == Seq::<char>::empty(),
        analyzed(pre, n, post, r),
    ensures
        r is Ok,
        post.text() == render(n),
    decreases n,
{
    match n {
        Node::Leaf(_) => {},
        Node::Identity => {},
        _ => {
            let w = lemma_child_runs(pre, n, post, r);
            lemma_renders(w.left_start, crate::dsl::left_of(n), w.left_end, w.left_verdict);
            lemma_renders(w.right_start, crate::dsl::right_of(n), w.right_end, w.right_verdict);
        },
    }
}

/// A leaf that names a symbol.
pub fn def(symbol: &str) -> (e: Value<Variable, Operations>)
    ensures
        e.node() matches Node::Leaf(Variable::Symbol(s)) && s@ == symbol@,
{
    Value::new(Variable::Symbol(String::from_str(symbol)))
}

/// A leaf that holds a literal.
pub fn cons(x: i32) -> (e: Value<Variable, Operations>)
    ensures
        e.node() == Node::<Variable, Operations>::Leaf(Variable::Value(x)),
{
    Value::new(Variable::Value(x))
}

/// The operators of the algebra as methods of every algebraic expression.
pub trait Algebra: Expr<Variable, Operations> {
    /// `self` to the power `x`.
    fn pow<X: Expr<Variable, Operations>>(self, x: X) -> (e: Apply<Operations, Self, X>)
        ensures
            e.node() == Node::Apply(Operations::Pow, Box::new(self.node()), Box::new(x.node())),
    ;

    /// `self` plus `x`.
    fn add<X: Expr<Variable, Operations>>(self, x: X) -> (e: Apply<Operations, Self, X>)
        ensures
            e.node() == Node::Apply(Operations::Add, Box::new(self.node()), Box::new(x.node())),
    ;

    /// Minus `self`.
    fn neg(self) -> (e: Apply<Operations, Self, Ident<Variable, Operations>>)
        ensures
            e.node() == Node::Apply(
                Operations::Neg,
                Box::new(self.node()),
                Box::new(Node::Identity),
            ),
    ;

    /// `self` minus `x`, as `self` plus the negation of `x`.
    fn sub<X: Expr<Variable, Operations>>(self, x: X) -> (e: Apply<
        Operations,
        Self,
        Apply<Operations, X, Ident<Variable, Operations>>,
    >)
        ensures
            e.node() == Node::Apply(
                Operations::Add,
                Box::new(self.node()),
                Box::new(
                    Node::Apply(Operations::Neg, Box::new(x.node()), Box::new(Node::Identity)),
                ),
            ),
    ;
}

impl<T> Algebra for T where T: Expr<Variable, Operations> {
    fn pow<X: Expr<Variable, Operations>>(self, x: X) -> (e: Apply<Operations, Self, X>) {
        self.apply(Operations::Pow, x)
    }

    fn add<X: Expr<Variable, Operations>>(self, x: X) -> (e: Apply<Operations, Self, X>) {
        self.apply(Operations::Add, x)
    }

    fn neg(self) -> (e: Apply<Operations, Self, Ident<Variable, Operations>>) {
        self.apply(Operations::Neg, Ident::new())
    }

    fn sub<X: Expr<Variable, Operations>>(self, x: X) -> (e: Apply<
        Operations,
        Self,
        Apply<Operations, X, Ident<Variable, Operations>>,
    >) {
        self.apply(Operations::Add, x.apply(Operations::Neg, Ident::new()))
    }
}

/// A sum evaluates to the sum of the values of its parts, whether it is
/// written as a plain pair or with the operator `Add`, wherever both parts
/// have a value and the sum fits an `i32`.
pub proof fn law_sum_of_parts(
    symbols: Map<Seq<char>, i32>,
    a: Node<Variable, Operations>,
    b: Node<Variable, Operations>,
)
    requires
        eval(symbols, a) is Ok,
        eval(symbols, b) is Ok,
        fits(eval(symbols, a)->Ok_0 + eval(symbols, b)->Ok_0),
    ensures
        eval(symbols, Node::Combine(Box::new(a), Box::new(b))) == Ok::<int, Failure>(
            eval(symbols, a)->Ok_0 + eval(symbols, b)->Ok_0,
        ),
        eval(symbols, Node::Apply(Operations::Add, Box::new(a), Box::new(b))) == Ok::<
            int,
            Failure,
        >(eval(symbols, a)->Ok_0 + eval(symbols, b)->Ok_0),
{
}

/// A symbol that the table does not bind is a failure that names the
/// symbol, never a value.
pub proof fn law_unbound_symbol_fails(symbols: Map<Seq<char>, i32>, name: String)
    requires
        !symbols.contains_key(name@),
    ensures
        eval(symbols, Node::Leaf(Variable::Symbol(name))) == Err::<int, Failure>(
            Failure::UnknownSymbol(name@),
        ),
{
}

/// The failure of an operand is the failure of every node above it: of the
/// left operand whatever the right one is, of the right operand where the
/// left one has a value.
pub proof fn law_failure_propagates(
    symbols: Map<Seq<char>, i32>,
    op: Operations,
    a: Node<Variable, Operations>,
    b: Node<Variable, Operations>,
)
    requires
        eval(symbols, a) is Err || eval(symbols, b) is Err,
    ensures
        eval(symbols, Node::Apply(op, Box::new(a), Box::new(b))) == (if eval(symbols, a) is Err {
            eval(symbols, a)
        } else {
            eval(symbols, b)
        }),
        eval(symbols, Node::Combine(Box::new(a), Box::new(b))) == (if eval(symbols, a) is Err {
            eval(symbols, a)
        } else {
            eval(symbols, b)
        }),
{
}

/// Whether the expression has a leaf that names the symbol `name`.
pub open spec fn mentions(n: Node<Variable, Operations>, name: Seq<char>) -> bool
    decreases n,
{
    match n {
        Node::Leaf(Variable::Symbol(s)) => s@ == name,
        Node::Leaf(Variable::Value(_)) => false,
        Node::Identity => false,
        Node::Combine(l, r) => mentions(*l, name) || mentions(*r, name),
        Node::Apply(_, l, r) => mentions(*l, name) || mentions(*r, name),
    }
}

/// The symbol that an evaluation reports as unknown is named by a leaf of
/// the expression and not bound by the table.
pub proof fn law_unknown_symbol_is_an_unbound_leaf(
    symbols: Map<Seq<char>, i32>,
    n: Node<Variable, Operations>,
    name: Seq<char>,
)
    requires
        eval(symbols, n) == Err::<int, Failure>(Failure::UnknownSymbol(name)),
    ensures
        mentions(n, name),
        !symbols.contains_key(name),
    decreases n,
{
    match n {
        Node::Combine(l, r) => {
            if eval(symbols, *l) is Err {
                law_unknown_symbol_is_an_unbound_leaf(symbols, *l, name);
            } else {
                law_unknown_symbol_is_an_unbound_leaf(symbols, *r, name);
            }
        },
        Node::Apply(_, l, r) => {
            if eval(symbols, *l) is Err {
                law_unknown_symbol_is_an_unbound_leaf(symbols, *l, name);
            } else {
                law_unknown_symbol_is_an_unbound_leaf(symbols, *r, name);
            }
        },
        _ => {},
    }
}

/// Where the table binds every symbol that the expression names, the
/// evaluation reports no unknown symbol.
pub proof fn law_bound_symbols_are_found(
    symbols: Map<Seq<char>, i32>,
    n: Node<Variable, Operations>,
)
    requires
        forall|name: Seq<char>| mentions(n, name) ==> symbols.contains_key(name),
    ensures
        !(eval(symbols, n) matches Err(Failure::UnknownSymbol(_))),
{
    match eval(symbols, n) {
        Err(Failure::UnknownSymbol(name)) => {
            law_unknown_symbol_is_an_unbound_leaf(symbols, n, name);
        },
        _ => {},
    }
}

} // verus!
