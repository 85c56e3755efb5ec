//! The abstract syntax tree that a successful parse produces, the parse
//! error taxonomy, and the mathematical model of both.

use vstd::prelude::*;

verus! {

/// An identifier: ASCII letters, digits and underscores, beginning with a
/// letter or an underscore. The parser never produces a reserved word here.
#[derive(Debug)]
pub struct Variable {
    pub ident: Vec<u8>,
}

/// One `let` binding, `name = value`, owned by the enclosing `Let` node.
#[derive(Debug)]
pub struct Definition {
    pub name: Variable,
    pub value: Expression,
}

/// An expression tree. Every child is owned by exactly one parent and the
/// tree is immutable after construction.
#[derive(Debug)]
pub enum Expression {
    True,
    False,
    Num(i64),
    Var(Variable),
    Nil,
    Let(Box<Definition>, Box<Expression>),
    Not(Box<Expression>),
    If(Box<Expression>, Box<Expression>, Box<Expression>),
    Succ(Box<Expression>),
    Pred(Box<Expression>),
    Fst(Box<Expression>),
    Snd(Box<Expression>),
    Hd(Box<Expression>),
    Tl(Box<Expression>),
    Pair(Box<Expression>, Box<Expression>),
    Fn(Variable, Box<Expression>),
    Eq(Box<Expression>, Box<Expression>),
    Cons(Box<Expression>, Box<Expression>),
    And(Box<Expression>, Box<Expression>),
    Add(Box<Expression>, Box<Expression>),
    Apply(Box<Expression>, Box<Expression>),
}

/// What kind of failure ended a parse.
#[derive(Debug, Clone, Copy, PartialEq, Eq, Structural)]
pub enum ErrorKind {
    /// The input at the reported position matches no alternative.
    UnexpectedToken,
    /// A required closing token (`)`, `in`, `then`, `else`, `.`, `,`, `=`)
    /// is missing after its opening construct matched.
    UnterminatedConstruct,
    /// Nesting exceeded the configured depth bound.
    DepthExceeded,
}

/// A structured parse failure: the kind of failure and the byte position
/// of the input at which it was detected.
#[derive(Debug, Clone, Copy, PartialEq, Eq, Structural)]
pub struct ParseError {
    pub kind: ErrorKind,
    pub pos: usize,
}

/// Mathematical model of an expression tree: identifiers are byte
/// sequences, numbers are unbounded integers.
pub enum SpecExpr {
    True,
    False,
    Num(int),
    Var(Seq<u8>),
    Nil,
    Let(Seq<u8>, Box<SpecExpr>, Box<SpecExpr>),
    Not(Box<SpecExpr>),
    If(Box<SpecExpr>, Box<SpecExpr>, Box<SpecExpr>),
    Succ(Box<SpecExpr>),
    Pred(Box<SpecExpr>),
    Fst(Box<SpecExpr>),
    Snd(Box<SpecExpr>),
    Hd(Box<SpecExpr>),
    Tl(Box<SpecExpr>),
    Pair(Box<SpecExpr>, Box<SpecExpr>),
    Fn(Seq<u8>, Box<SpecExpr>),
    Eq(Box<SpecExpr>, Box<SpecExpr>),
    Cons(Box<SpecExpr>, Box<SpecExpr>),
    And(Box<SpecExpr>, Box<SpecExpr>),
    Add(Box<SpecExpr>, Box<SpecExpr>),
    Apply(Box<SpecExpr>, Box<SpecExpr>),
}

/// The abstract value of an expression tree.
pub open spec fn view_expr(e: Expression) -> SpecExpr
    decreases e,
{
    match e {
        Expression::True => SpecExpr::True,
        Expression::False => SpecExpr::False,
        Expression::Num(n) => SpecExpr::Num(n as int),
        Expression::Var(v) => SpecExpr::Var(v.ident@),
        Expression::Nil => SpecExpr::Nil,
        Expression::Let(d, b) => SpecExpr::Let(
            (*d).name.ident@,
            Box::new(view_expr((*d).value)),
            Box::new(view_expr(*b)),
        ),
        Expression::Not(a) => SpecExpr::Not(Box::new(view_expr(*a))),
        Expression::If(c, t, f) => SpecExpr::If(
            Box::new(view_expr(*c)),
            Box::new(view_expr(*t)),
            Box::new(view_expr(*f)),
        ),
        Expression::Succ(a) => SpecExpr::Succ(Box::new(view_expr(*a))),
        Expression::Pred(a) => SpecExpr::Pred(Box::new(view_expr(*a))),
        Expression::Fst(a) => SpecExpr::Fst(Box::new(view_expr(*a))),
        Expression::Snd(a) => SpecExpr::Snd(Box::new(view_expr(*a))),
        Expression::Hd(a) => SpecExpr::Hd(Box::new(view_expr(*a))),
        Expression::Tl(a) => SpecExpr::Tl(Box::new(view_expr(*a))),
        Expression::Pair(a, b) => SpecExpr::Pair(
            Box::new(view_expr(*a)),
            Box::new(view_expr(*b)),
        ),
        Expression::Fn(v, b) => SpecExpr::Fn(v.ident@, Box::new(view_expr(*b))),
        Expression::Eq(a, b) => SpecExpr::Eq(Box::new(view_expr(*a)), Box::new(view_expr(*b))),
        Expression::Cons(a, b) => SpecExpr::Cons(Box::new(view_expr(*a)), Box::new(view_expr(*b))),
        Expression::And(a, b) => SpecExpr::And(Box::new(view_expr(*a)), Box::new(view_expr(*b))),
        Expression::Add(a, b) => SpecExpr::Add(Box::new(view_expr(*a)), Box::new(view_expr(*b))),
        Expression::Apply(a, b) => SpecExpr::Apply(
            Box::new(view_expr(*a)),
            Box::new(view_expr(*b)),
        ),
    }
}

/// Byte-for-byte equality of two identifier texts.
pub fn bytes_eq(a: &Vec<u8>, b: &Vec<u8>) -> (r: bool)
    ensures
        r == (a@ == b@),
{
    if a.len() != b.len() {
        return false;
    }
    let mut i: usize = 0;
    while i < a.len()
        invariant
            a@.len() == b@.len(),
            i <= a@.len(),
            forall|j: int| 0 <= j < i ==> a@[j] == b@[j],
        decreases a@.len() - i,
    {
        if a[i] != b[i] {
            return false;
        }
        i = i + 1;
    }
    proof {
        assert(a@ =~= b@);
    }
    true
}

/// Structural equality of two expression trees: true exactly when the two
/// trees have the same abstract value.
pub fn expr_eq(a: &Expression, b: &Expression) -> (r: bool)
    ensures
        r == (view_expr(*a) == view_expr(*b)),
    decreases *a,
{
    match (a, b) {
        (Expression::True, Expression::True) => true,
        (Expression::False, Expression::False) => true,
        (Expression::Num(n1), Expression::Num(n2)) => n1 == n2,
        (Expression::Var(v1), Expression::Var(v2)) => bytes_eq(&v1.ident, &v2.ident),
        (Expression::Nil, Expression::Nil) => true,
        (Expression::Let(d1, b1), Expression::Let(d2, b2)) => bytes_eq(
            &d1.name.ident,
            &d2.name.ident,
        ) && expr_eq(&d1.value, &d2.value) && expr_eq(b1, b2),
        (Expression::Not(a1), Expression::Not(a2)) => expr_eq(a1, a2),
        (Expression::If(c1, t1, f1), Expression::If(c2, t2, f2)) => expr_eq(c1, c2) && expr_eq(
            t1,
            t2,
        ) && expr_eq(f1, f2),
        (Expression::Succ(a1), Expression::Succ(a2)) => expr_eq(a1, a2),
        (Expression::Pred(a1), Expression::Pred(a2)) => expr_eq(a1, a2),
        (Expression::Fst(a1), Expression::Fst(a2)) => expr_eq(a1, a2),
        (Expression::Snd(a1), Expression::Snd(a2)) => expr_eq(a1, a2),
        (Expression::Hd(a1), Expression::Hd(a2)) => expr_eq(a1, a2),
        (Expression::Tl(a1), Expression::Tl(a2)) => expr_eq(a1, a2),
        (Expression::Pair(a1, b1), Expression::Pair(a2, b2)) => expr_eq(a1, a2) && expr_eq(b1, b2),
        (Expression::Fn(v1, b1), Expression::Fn(v2, b2)) => bytes_eq(&v1.ident, &v2.ident)
            && expr_eq(b1, b2),
        (Expression::Eq(a1, b1), Expression::Eq(a2, b2)) => expr_eq(a1, a2) && expr_eq(b1, b2),
        (Expression::Cons(a1, b1), Expression::Cons(a2, b2)) => expr_eq(a1, a2) && expr_eq(b1, b2),
        (Expression::And(a1, b1), Expression::And(a2, b2)) => expr_eq(a1, a2) && expr_eq(b1, b2),
        (Expression::Add(a1, b1), Expression::Add(a2, b2)) => expr_eq(a1, a2) && expr_eq(b1, b2),
        (Expression::Apply(a1, b1), Expression::Apply(a2, b2)) => expr_eq(a1, a2) && expr_eq(
            b1,
            b2,
        ),
        _ => false,
    }
}

} // verus!
