//! The executable recursive-descent parser. Every function returns
//! exactly what the corresponding spec function of `grammar` denotes,
//! for every input, position and depth bound.

use vstd::prelude::*;

use crate::ast::ErrorKind;
use crate::ast::Expression;
use crate::ast::ParseError;
use crate::ast::Variable;
use crate::ast::Definition;
use crate::ast::view_expr;
use crate::grammar::DOut;
use crate::grammar::POut;
use crate::grammar::digits_end_s;
use crate::grammar::digits_val;
use crate::grammar::ident_end_s;
use crate::grammar::is_digit;
use crate::grammar::is_ident_char;
use crate::grammar::is_ident_start;
use crate::grammar::is_reserved_at;
use crate::grammar::is_ws;
use crate::grammar::kw2_at;
use crate::grammar::kw3_at;
use crate::grammar::kw4_at;
use crate::grammar::kw5_at;
use crate::grammar::skip_ws_s;
use crate::grammar::spec_e_fifth;
use crate::grammar::spec_e_first;
use crate::grammar::spec_e_fourth;
use crate::grammar::spec_e_null;
use crate::grammar::spec_e_second;
use crate::grammar::spec_e_third;
use crate::grammar::spec_e_top;
use crate::grammar::spec_e_variable;
use crate::grammar::spec_e_zeroth;
use crate::grammar::spec_paren_arg;
use crate::grammar::spec_parse_add;
use crate::grammar::spec_parse_and;
use crate::grammar::spec_parse_apply;
use crate::grammar::spec_parse_bool;
use crate::grammar::spec_parse_cons;
use crate::grammar::spec_parse_def;
use crate::grammar::spec_parse_eq;
use crate::grammar::spec_parse_fn;
use crate::grammar::spec_parse_fst;
use crate::grammar::spec_parse_hd;
use crate::grammar::spec_parse_if;
use crate::grammar::spec_parse_let;
use crate::grammar::spec_parse_nil;
use crate::grammar::spec_parse_not;
use crate::grammar::spec_parse_num;
use crate::grammar::spec_parse_pair;
use crate::grammar::spec_parse_pred;
use crate::grammar::spec_parse_snd;
use crate::grammar::spec_parse_succ;
use crate::grammar::spec_parse_tl;
use crate::grammar::sym1_at;
use crate::grammar::sym2_at;
use crate::grammar::var_end;
use crate::grammar::var_name;
use crate::grammar::var_ok;
use crate::grammar::word_boundary;

verus! {

/// The depth bound the one-argument entry point uses. Each layer of the
/// ladder and each nested construct costs a handful of units, so this
/// admits nesting around a hundred levels deep.
pub const DEFAULT_MAX_DEPTH: u64 = 1024;

/// What the default entry point's result must denote.
pub open spec fn parse_spec(s: Seq<u8>) -> POut {
    spec_e_top(s, 0, DEFAULT_MAX_DEPTH as nat)
}

/// The abstract value of a parse result: the expression's model and the
/// remainder position, or the failure.
pub open spec fn res_view(r: Result<(Expression, usize), ParseError>) -> POut {
    match r {
        Result::Ok(t) => POut::Done(view_expr(t.0), t.1 as int),
        Result::Err(pe) => POut::Fail(pe.kind, pe.pos as int),
    }
}

// ---------------------------------------------------------------------
// Character classes and tokens, executably.
// ---------------------------------------------------------------------

/// `p + k`, a position still within `s`: the addition cannot wrap, since
/// a slice is never longer than the address space.
fn step(s: &[u8], p: usize, k: usize) -> (r: usize)
    requires
        p + k <= s@.len(),
    ensures
        r == p + k,
{
    let _n: usize = s.len();
    p + k
}

fn is_ws_e(b: u8) -> (r: bool)
    ensures
        r == is_ws(b),
{
    b == 32 || b == 9 || b == 10 || b == 13
}

fn is_digit_e(b: u8) -> (r: bool)
    ensures
        r == is_digit(b),
{
    48 <= b && b <= 57
}

fn is_ident_start_e(b: u8) -> (r: bool)
    ensures
        r == is_ident_start(b),
{
    (97 <= b && b <= 122) || (65 <= b && b <= 90) || b == 95
}

fn is_ident_char_e(b: u8) -> (r: bool)
    ensures
        r == is_ident_char(b),
{
    is_ident_start_e(b) || is_digit_e(b)
}

fn skip_ws(s: &[u8], pos: usize) -> (r: usize)
    requires
        pos as int <= s@.len(),
    ensures
        r as int == skip_ws_s(s@, pos as int),
        pos <= r && r as int <= s@.len(),
{
    let mut p = pos;
    while p < s.len() && is_ws_e(s[p])
        invariant
            pos <= p && p as int <= s@.len(),
            skip_ws_s(s@, pos as int) == skip_ws_s(s@, p as int),
        decreases s@.len() - p,
    {
        p = p + 1;
    }
    p
}

fn scan_ident(s: &[u8], pos: usize) -> (r: usize)
    requires
        pos as int <= s@.len(),
    ensures
        r as int == ident_end_s(s@, pos as int),
        pos <= r && r as int <= s@.len(),
{
    let mut p = pos;
    while p < s.len() && is_ident_char_e(s[p])
        invariant
            pos <= p && p as int <= s@.len(),
            ident_end_s(s@, pos as int) == ident_end_s(s@, p as int),
        decreases s@.len() - p,
    {
        p = p + 1;
    }
    p
}

/// A copy of the bytes of `s` in `[i, j)`.
fn take_bytes(s: &[u8], i: usize, j: usize) -> (r: Vec<u8>)
    requires
        i <= j && j as int <= s@.len(),
    ensures
        r@ == s@.subrange(i as int, j as int),
{
    let mut v: Vec<u8> = Vec::new();
    let mut k = i;
    proof {
        assert(v@ =~= s@.subrange(i as int, i as int));
    }
    while k < j
        invariant
            i <= k && k <= j && j as int <= s@.len(),
            v@ == s@.subrange(i as int, k as int),
        decreases j - k,
    {
        v.push(s[k]);
        proof {
            assert(v@ =~= s@.subrange(i as int, k as int + 1));
        }
        k = k + 1;
    }
    v
}

fn m_sym1(s: &[u8], pos: usize, c: u8) -> (r: bool)
    requires
        pos as int <= s@.len(),
    ensures
        r == sym1_at(s@, pos as int, c),
{
    pos < s.len() && s[pos] == c
}

fn m_sym2(s: &[u8], pos: usize, c0: u8, c1: u8) -> (r: bool)
    requires
        pos as int <= s@.len(),
    ensures
        r == sym2_at(s@, pos as int, c0, c1),
{
    s.len() - pos >= 2 && s[pos] == c0 && s[pos + 1] == c1
}

fn at_boundary(s: &[u8], q: usize) -> (r: bool)
    requires
        q as int <= s@.len(),
    ensures
        r == word_boundary(s@, q as int),
{
    q == s.len() || !is_ident_char_e(s[q])
}

fn m_kw2(s: &[u8], pos: usize, c0: u8, c1: u8) -> (r: bool)
    requires
        pos as int <= s@.len(),
    ensures
        r == kw2_at(s@, pos as int, c0, c1),
{
    s.len() - pos >= 2 && s[pos] == c0 && s[pos + 1] == c1 && at_boundary(s, pos + 2)
}

fn m_kw3(s: &[u8], pos: usize, c0: u8, c1: u8, c2: u8) -> (r: bool)
    requires
        pos as int <= s@.len(),
    ensures
        r == kw3_at(s@, pos as int, c0, c1, c2),
{
    s.len() - pos >= 3 && s[pos] == c0 && s[pos + 1] == c1 && s[pos + 2] == c2 && at_boundary(
        s,
        pos + 3,
    )
}

fn m_kw4(s: &[u8], pos: usize, c0: u8, c1: u8, c2: u8, c3: u8) -> (r: bool)
    requires
        pos as int <= s@.len(),
    ensures
        r == kw4_at(s@, pos as int, c0, c1, c2, c3),
{
    s.len() - pos >= 4 && s[pos] == c0 && s[pos + 1] == c1 && s[pos + 2] == c2 && s[pos + 3] == c3
        && at_boundary(s, pos + 4)
}

fn m_kw5(s: &[u8], pos: usize, c0: u8, c1: u8, c2: u8, c3: u8, c4: u8) -> (r: bool)
    requires
        pos as int <= s@.len(),
    ensures
        r == kw5_at(s@, pos as int, c0, c1, c2, c3, c4),
{
    s.len() - pos >= 5 && s[pos] == c0 && s[pos + 1] == c1 && s[pos + 2] == c2 && s[pos + 3] == c3
        && s[pos + 4] == c4 && at_boundary(s, pos + 5)
}

fn is_reserved(s: &[u8], pos: usize) -> (r: bool)
    requires
        pos as int <= s@.len(),
    ensures
        r == is_reserved_at(s@, pos as int),
{
    m_kw4(s, pos, 116, 114, 117, 101)  // true
        || m_kw5(s, pos, 102, 97, 108, 115, 101)  // false
        || m_kw3(s, pos, 110, 105, 108)  // nil
        || m_kw3(s, pos, 108, 101, 116)  // let
        || m_kw2(s, pos, 105, 110)  // in
        || m_kw3(s, pos, 110, 111, 116)  // not
        || m_kw2(s, pos, 105, 102)  // if
        || m_kw4(s, pos, 116, 104, 101, 110)  // then
        || m_kw4(s, pos, 101, 108, 115, 101)  // else
        || m_kw4(s, pos, 115, 117, 99, 99)  // succ
        || m_kw4(s, pos, 112, 114, 101, 100)  // pred
        || m_kw3(s, pos, 102, 115, 116)  // fst
        || m_kw3(s, pos, 115, 110, 100)  // snd
        || m_kw2(s, pos, 104, 100)  // hd
        || m_kw2(s, pos, 116, 108)  // tl
        || m_kw2(s, pos, 102, 110)  // fn
        || m_kw3(s, pos, 97, 110, 100)  // and
}

// ---------------------------------------------------------------------
// Numerals.
// ---------------------------------------------------------------------

proof fn lemma_digits_end_props(s: Seq<u8>, pos: int)
    requires
        0 <= pos && pos <= s.len(),
    ensures
        pos <= digits_end_s(s, pos) && digits_end_s(s, pos) <= s.len(),
        forall|i: int| pos <= i < digits_end_s(s, pos) ==> is_digit(s[i]),
    decreases s.len() - pos,
{
    if pos < s.len() && is_digit(s[pos]) {
        lemma_digits_end_props(s, pos + 1);
    }
}

proof fn lemma_digits_val_nonneg(s: Seq<u8>, pos: int, end: int)
    requires
        forall|i: int| pos <= i < end ==> is_digit(s[i]),
    ensures
        digits_val(s, pos, end) >= 0,
    decreases end - pos,
{
    if pos < end {
        lemma_digits_val_nonneg(s, pos, end - 1);
    }
}

proof fn lemma_digits_val_mono(s: Seq<u8>, pos: int, e1: int, e2: int)
    requires
        pos <= e1 && e1 <= e2,
        forall|i: int| pos <= i < e2 ==> is_digit(s[i]),
    ensures
        digits_val(s, pos, e1) <= digits_val(s, pos, e2),
    decreases e2 - e1,
{
    if e1 < e2 {
        lemma_digits_val_mono(s, pos, e1, e2 - 1);
        lemma_digits_val_nonneg(s, pos, e2 - 1);
    }
}

/// A numeral: the maximal digit run at `pos`, converted to a signed
/// value. Rejects a literal whose value does not fit.
pub fn parse_num(s: &[u8], pos: usize) -> (r: Result<(Expression, usize), ParseError>)
    requires
        pos as int <= s@.len(),
    ensures
        res_view(r) == spec_parse_num(s@, pos as int),
        r matches Ok(t) ==> pos <= t.1 && t.1 as int <= s@.len(),
{
    if !(pos < s.len() && is_digit_e(s[pos])) {
        return Err(ParseError { kind: ErrorKind::UnexpectedToken, pos });
    }
    proof {
        lemma_digits_end_props(s@, pos as int);
    }
    let mut p = pos;
    let mut acc: i64 = 0;
    while p < s.len() && is_digit_e(s[p])
        invariant
            pos <= p && p as int <= s@.len(),
            digits_end_s(s@, pos as int) == digits_end_s(s@, p as int),
            forall|i: int| pos <= i < p ==> is_digit(s@[i]),
            acc as int == digits_val(s@, pos as int, p as int),
            0 <= acc,
        decreases s@.len() - p,
    {
        let d = s[p] - 48;
        // `acc * 10 + d` stays within range exactly when `acc` is below
        // `i64::MAX / 10`, or equals it and `d` does not pass the last digit
        // of `i64::MAX`.
        let safe = acc < 922337203685477580i64 || (acc == 922337203685477580i64 && d <= 7);
        if !safe {
            proof {
                let end = digits_end_s(s@, pos as int);
                assert(digits_val(s@, pos as int, p as int + 1) == acc as int * 10 + d as int);
                assert(acc as int * 10 + d as int > i64::MAX);
                lemma_digits_end_props(s@, p as int + 1);
                assert(p as int + 1 <= end);
                lemma_digits_val_mono(s@, pos as int, p as int + 1, end);
                assert(digits_val(s@, pos as int, end) > i64::MAX);
            }
            return Err(ParseError { kind: ErrorKind::UnexpectedToken, pos });
        }
        acc = acc * 10 + (d as i64);
        p = p + 1;
    }
    Ok((Expression::Num(acc), p))
}

// ---------------------------------------------------------------------
// Variables and word literals.
// ---------------------------------------------------------------------

/// An identifier that is not a reserved word, with any leading
/// whitespace skipped.
pub fn parse_variable(s: &[u8], pos: usize) -> (r: Result<(Variable, usize), ParseError>)
    requires
        pos as int <= s@.len(),
    ensures
        var_ok(s@, pos as int) ==> (r matches Ok(t) && t.0.ident@ == var_name(s@, pos as int)
            && t.1 as int == var_end(s@, pos as int) && pos <= t.1 && t.1 as int <= s@.len()),
        !var_ok(s@, pos as int) ==> (r matches Err(pe) && pe.kind == ErrorKind::UnexpectedToken
            && pe.pos as int == skip_ws_s(s@, pos as int)),
{
    let p = skip_ws(s, pos);
    if p < s.len() && is_ident_start_e(s[p]) && !is_reserved(s, p) {
        let end = scan_ident(s, p);
        let ident = take_bytes(s, p, end);
        Ok((Variable { ident }, end))
    } else {
        Err(ParseError { kind: ErrorKind::UnexpectedToken, pos: p })
    }
}

/// A variable used as an expression.
pub fn parse_e_variable(s: &[u8], pos: usize) -> (r: Result<(Expression, usize), ParseError>)
    requires
        pos as int <= s@.len(),
    ensures
        res_view(r) == spec_e_variable(s@, pos as int),
        r matches Ok(t) ==> pos <= t.1 && t.1 as int <= s@.len(),
{
    match parse_variable(s, pos) {
        Ok(t) => Ok((Expression::Var(t.0), t.1)),
        Err(e) => Err(e),
    }
}

/// The literals `true` and `false`.
pub fn parse_bool(s: &[u8], pos: usize) -> (r: Result<(Expression, usize), ParseError>)
    requires
        pos as int <= s@.len(),
    ensures
        res_view(r) == spec_parse_bool(s@, pos as int),
        r matches Ok(t) ==> pos <= t.1 && t.1 as int <= s@.len(),
{
    if m_kw4(s, pos, 116, 114, 117, 101) {
        Ok((Expression::True, step(s, pos, 4)))
    } else if m_kw5(s, pos, 102, 97, 108, 115, 101) {
        Ok((Expression::False, step(s, pos, 5)))
    } else {
        Err(ParseError { kind: ErrorKind::UnexpectedToken, pos })
    }
}

/// The literal `nil`.
pub fn parse_nil(s: &[u8], pos: usize) -> (r: Result<(Expression, usize), ParseError>)
    requires
        pos as int <= s@.len(),
    ensures
        res_view(r) == spec_parse_nil(s@, pos as int),
        r matches Ok(t) ==> pos <= t.1 && t.1 as int <= s@.len(),
{
    if m_kw3(s, pos, 110, 105, 108) {
        Ok((Expression::Nil, step(s, pos, 3)))
    } else {
        Err(ParseError { kind: ErrorKind::UnexpectedToken, pos })
    }
}

// ---------------------------------------------------------------------
// The precedence ladder.
// ---------------------------------------------------------------------

/// A full expression: the loosest layer, and the recursion point every
/// nested construct uses.
pub fn parse_e_top(s: &[u8], pos: usize, depth: u64) -> (r: Result<(Expression, usize), ParseError>)
    requires
        pos as int <= s@.len(),
    ensures
        res_view(r) == spec_e_top(s@, pos as int, depth as nat),
        r matches Ok(t) ==> pos <= t.1 && t.1 as int <= s@.len(),
    decreases depth,
{
    if depth == 0 {
        Err(ParseError { kind: ErrorKind::DepthExceeded, pos })
    } else {
        parse_e_fifth(s, pos, depth - 1)
    }
}

/// Binder layer: `fn x. e`, or fall through.
pub fn parse_e_fifth(s: &[u8], pos: usize, depth: u64) -> (r: Result<
    (Expression, usize),
    ParseError,
>)
    requires
        pos as int <= s@.len(),
    ensures
        res_view(r) == spec_e_fifth(s@, pos as int, depth as nat),
        r matches Ok(t) ==> pos <= t.1 && t.1 as int <= s@.len(),
    decreases depth,
{
    if depth == 0 {
        return Err(ParseError { kind: ErrorKind::DepthExceeded, pos });
    }
    let p = skip_ws(s, pos);
    if m_kw2(s, p, 102, 110) {
        parse_fn(s, p, depth - 1)
    } else {
        parse_e_fourth(s, pos, depth - 1)
    }
}

/// `fn <ident> . <expr>`.
pub fn parse_fn(s: &[u8], pos: usize, depth: u64) -> (r: Result<(Expression, usize), ParseError>)
    requires
        pos as int <= s@.len(),
    ensures
        res_view(r) == spec_parse_fn(s@, pos as int, depth as nat),
        r matches Ok(t) ==> pos <= t.1 && t.1 as int <= s@.len(),
    decreases depth,
{
    if depth == 0 {
        return Err(ParseError { kind: ErrorKind::DepthExceeded, pos });
    }
    if !m_kw2(s, pos, 102, 110) {
        return Err(ParseError { kind: ErrorKind::UnexpectedToken, pos });
    }
    let (v, p2) = match parse_variable(s, step(s, pos, 2)) {
        Ok(t) => t,
        Err(e) => { return Err(e); },
    };
    let p3 = skip_ws(s, p2);
    if !m_sym1(s, p3, 46) {
        return Err(ParseError { kind: ErrorKind::UnterminatedConstruct, pos: p3 });
    }
    match parse_e_top(s, step(s, p3, 1), depth - 1) {
        Ok(t) => Ok((Expression::Fn(v, Box::new(t.0)), t.1)),
        Err(e) => Err(e),
    }
}

/// Equality layer.
pub fn parse_e_fourth(s: &[u8], pos: usize, depth: u64) -> (r: Result<
    (Expression, usize),
    ParseError,
>)
    requires
        pos as int <= s@.len(),
    ensures
        res_view(r) == spec_e_fourth(s@, pos as int, depth as nat),
        r matches Ok(t) ==> pos <= t.1 && t.1 as int <= s@.len(),
    decreases depth,
{
    if depth == 0 {
        return Err(ParseError { kind: ErrorKind::DepthExceeded, pos });
    }
    match parse_e_third(s, pos, depth - 1) {
        Ok(t) => parse_eq(s, t.1, t.0, depth - 1),
        Err(e) => Err(e),
    }
}

/// Zero or more `== <operand>` continuations of `acc`.
#[verifier::rlimit(50)]
pub fn parse_eq(s: &[u8], pos: usize, acc: Expression, depth: u64) -> (r: Result<
    (Expression, usize),
    ParseError,
>)
    requires
        pos as int <= s@.len(),
    ensures
        res_view(r) == spec_parse_eq(s@, pos as int, view_expr(acc), depth as nat),
        r matches Ok(t) ==> pos <= t.1 && t.1 as int <= s@.len(),
    decreases depth,
{
    if depth == 0 {
        return Err(ParseError { kind: ErrorKind::DepthExceeded, pos });
    }
    let p = skip_ws(s, pos);
    if m_sym2(s, p, 61, 61) {
        match parse_e_third(s, step(s, p, 2), depth - 1) {
            Ok(t) => parse_eq(
                s,
                t.1,
                Expression::Eq(Box::new(acc), Box::new(t.0)),
                depth - 1,
            ),
            Err(e) => Err(e),
        }
    } else {
        Ok((acc, pos))
    }
}

/// List layer.
pub fn parse_e_third(s: &[u8], pos: usize, depth: u64) -> (r: Result<
    (Expression, usize),
    ParseError,
>)
    requires
        pos as int <= s@.len(),
    ensures
        res_view(r) == spec_e_third(s@, pos as int, depth as nat),
        r matches Ok(t) ==> pos <= t.1 && t.1 as int <= s@.len(),
    decreases depth,
{
    if depth == 0 {
        return Err(ParseError { kind: ErrorKind::DepthExceeded, pos });
    }
    match parse_e_second(s, pos, depth - 1) {
        Ok(t) => parse_cons(s, t.1, t.0, depth - 1),
        Err(e) => Err(e),
    }
}

/// Zero or more `:: <operand>` continuations of `acc`.
pub fn parse_cons(s: &[u8], pos: usize, acc: Expression, depth: u64) -> (r: Result<
    (Expression, usize),
    ParseError,
>)
    requires
        pos as int <= s@.len(),
    ensures
        res_view(r) == spec_parse_cons(s@, pos as int, view_expr(acc), depth as nat),
        r matches Ok(t) ==> pos <= t.1 && t.1 as int <= s@.len(),
    decreases depth,
{
    if depth == 0 {
        return Err(ParseError { kind: ErrorKind::DepthExceeded, pos });
    }
    let p = skip_ws(s, pos);
    if m_sym2(s, p, 58, 58) {
        match parse_e_second(s, step(s, p, 2), depth - 1) {
            Ok(t) => parse_cons(
                s,
                t.1,
                Expression::Cons(Box::new(acc), Box::new(t.0)),
                depth - 1,
            ),
            Err(e) => Err(e),
        }
    } else {
        Ok((acc, pos))
    }
}

/// Boolean layer.
pub fn parse_e_second(s: &[u8], pos: usize, depth: u64) -> (r: Result<
    (Expression, usize),
    ParseError,
>)
    requires
        pos as int <= s@.len(),
    ensures
        res_view(r) == spec_e_second(s@, pos as int, depth as nat),
        r matches Ok(t) ==> pos <= t.1 && t.1 as int <= s@.len(),
    decreases depth,
{
    if depth == 0 {
        return Err(ParseError { kind: ErrorKind::DepthExceeded, pos });
    }
    match parse_e_first(s, pos, depth - 1) {
        Ok(t) => parse_and(s, t.1, t.0, depth - 1),
        Err(e) => Err(e),
    }
}

/// Zero or more `and <operand>` continuations of `acc`.
pub fn parse_and(s: &[u8], pos: usize, acc: Expression, depth: u64) -> (r: Result<
    (Expression, usize),
    ParseError,
>)
    requires
        pos as int <= s@.len(),
    ensures
        res_view(r) == spec_parse_and(s@, pos as int, view_expr(acc), depth as nat),
        r matches Ok(t) ==> pos <= t.1 && t.1 as int <= s@.len(),
    decreases depth,
{
    if depth == 0 {
        return Err(ParseError { kind: ErrorKind::DepthExceeded, pos });
    }
    let p = skip_ws(s, pos);
    if m_kw3(s, p, 97, 110, 100) {
        match parse_e_first(s, step(s, p, 3), depth - 1) {
            Ok(t) => parse_and(
                s,
                t.1,
                Expression::And(Box::new(acc), Box::new(t.0)),
                depth - 1,
            ),
            Err(e) => Err(e),
        }
    } else {
        Ok((acc, pos))
    }
}

/// Arithmetic layer.
pub fn parse_e_first(s: &[u8], pos: usize, depth: u64) -> (r: Result<
    (Expression, usize),
    ParseError,
>)
    requires
        pos as int <= s@.len(),
    ensures
        res_view(r) == spec_e_first(s@, pos as int, depth as nat),
        r matches Ok(t) ==> pos <= t.1 && t.1 as int <= s@.len(),
    decreases depth,
{
    if depth == 0 {
        return Err(ParseError { kind: ErrorKind::DepthExceeded, pos });
    }
    match parse_e_zeroth(s, pos, depth - 1) {
        Ok(t) => parse_add(s, t.1, t.0, depth - 1),
        Err(e) => Err(e),
    }
}

/// Zero or more `+ <operand>` continuations of `acc`.
pub fn parse_add(s: &[u8], pos: usize, acc: Expression, depth: u64) -> (r: Result<
    (Expression, usize),
    ParseError,
>)
    requires
        pos as int <= s@.len(),
    ensures
        res_view(r) == spec_parse_add(s@, pos as int, view_expr(acc), depth as nat),
        r matches Ok(t) ==> pos <= t.1 && t.1 as int <= s@.len(),
    decreases depth,
{
    if depth == 0 {
        return Err(ParseError { kind: ErrorKind::DepthExceeded, pos });
    }
    let p = skip_ws(s, pos);
    if m_sym1(s, p, 43) {
        match parse_e_zeroth(s, step(s, p, 1), depth - 1) {
            Ok(t) => parse_add(
                s,
                t.1,
                Expression::Add(Box::new(acc), Box::new(t.0)),
                depth - 1,
            ),
            Err(e) => Err(e),
        }
    } else {
        Ok((acc, pos))
    }
}

/// Application layer.
pub fn parse_e_zeroth(s: &[u8], pos: usize, depth: u64) -> (r: Result<
    (Expression, usize),
    ParseError,
>)
    requires
        pos as int <= s@.len(),
    ensures
        res_view(r) == spec_e_zeroth(s@, pos as int, depth as nat),
        r matches Ok(t) ==> pos <= t.1 && t.1 as int <= s@.len(),
    decreases depth,
{
    if depth == 0 {
        return Err(ParseError { kind: ErrorKind::DepthExceeded, pos });
    }
    match parse_e_null(s, pos, depth - 1) {
        Ok(t) => parse_apply(s, t.1, t.0, depth - 1),
        Err(e) => Err(e),
    }
}

/// Zero or more juxtaposed atoms applied to `acc`. An atom that fails
/// ends the argument list without consuming input; a depth failure is
/// surfaced, never masked.
pub fn parse_apply(s: &[u8], pos: usize, acc: Expression, depth: u64) -> (r: Result<
    (Expression, usize),
    ParseError,
>)
    requires
        pos as int <= s@.len(),
    ensures
        res_view(r) == spec_parse_apply(s@, pos as int, view_expr(acc), depth as nat),
        r matches Ok(t) ==> pos <= t.1 && t.1 as int <= s@.len(),
    decreases depth,
{
    if depth == 0 {
        return Err(ParseError { kind: ErrorKind::DepthExceeded, pos });
    }
    match parse_e_null(s, pos, depth - 1) {
        Ok(t) => parse_apply(
            s,
            t.1,
            Expression::Apply(Box::new(acc), Box::new(t.0)),
            depth - 1,
        ),
        Err(e) => {
            if e.kind == ErrorKind::DepthExceeded {
                Err(e)
            } else {
                Ok((acc, pos))
            }
        },
    }
}

// ---------------------------------------------------------------------
// Atoms.
// ---------------------------------------------------------------------

/// Atom layer: dispatch on the next token. Once a leading token has
/// matched, the chosen production is committed: its failure is the
/// parse's failure.
pub fn parse_e_null(s: &[u8], pos: usize, depth: u64) -> (r: Result<
    (Expression, usize),
    ParseError,
>)
    requires
        pos as int <= s@.len(),
    ensures
        res_view(r) == spec_e_null(s@, pos as int, depth as nat),
        r matches Ok(t) ==> pos <= t.1 && t.1 as int <= s@.len(),
    decreases depth,
{
    if depth == 0 {
        return Err(ParseError { kind: ErrorKind::DepthExceeded, pos });
    }
    let p = skip_ws(s, pos);
    if p >= s.len() {
        return Err(ParseError { kind: ErrorKind::UnexpectedToken, pos: p });
    }
    if m_sym1(s, p, 40) {
        parse_e_top_bracket(s, p, depth - 1)
    } else if m_sym1(s, p, 60) {
        parse_pair(s, p, depth - 1)
    } else if is_digit_e(s[p]) {
        parse_num(s, p)
    } else if m_kw4(s, p, 116, 114, 117, 101) || m_kw5(s, p, 102, 97, 108, 115, 101) {
        parse_bool(s, p)
    } else if m_kw3(s, p, 110, 105, 108) {
        parse_nil(s, p)
    } else if m_kw3(s, p, 108, 101, 116) {
        parse_let(s, p, depth - 1)
    } else if m_kw3(s, p, 110, 111, 116) {
        parse_not(s, p, depth - 1)
    } else if m_kw2(s, p, 105, 102) {
        parse_if(s, p, depth - 1)
    } else if m_kw4(s, p, 115, 117, 99, 99) {
        parse_succ(s, p, depth - 1)
    } else if m_kw4(s, p, 112, 114, 101, 100) {
        parse_pred(s, p, depth - 1)
    } else if m_kw3(s, p, 102, 115, 116) {
        parse_fst(s, p, depth - 1)
    } else if m_kw3(s, p, 115, 110, 100) {
        parse_snd(s, p, depth - 1)
    } else if m_kw2(s, p, 104, 100) {
        parse_hd(s, p, depth - 1)
    } else if m_kw2(s, p, 116, 108) {
        parse_tl(s, p, depth - 1)
    } else {
        parse_e_variable(s, p)
    }
}

/// A parenthesized full expression `( <expr> )`; the brackets are
/// transparent. Also parses the bracketed argument of the prefix
/// keyword forms.
pub fn parse_e_top_bracket(s: &[u8], pos: usize, depth: u64) -> (r: Result<
    (Expression, usize),
    ParseError,
>)
    requires
        pos as int <= s@.len(),
    ensures
        res_view(r) == spec_paren_arg(s@, pos as int, depth as nat),
        r matches Ok(t) ==> pos <= t.1 && t.1 as int <= s@.len(),
    decreases depth,
{
    if depth == 0 {
        return Err(ParseError { kind: ErrorKind::DepthExceeded, pos });
    }
    let p = skip_ws(s, pos);
    if !m_sym1(s, p, 40) {
        return Err(ParseError { kind: ErrorKind::UnterminatedConstruct, pos: p });
    }
    match parse_e_top(s, step(s, p, 1), depth - 1) {
        Ok(t) => {
            let p3 = skip_ws(s, t.1);
            if m_sym1(s, p3, 41) {
                Ok((t.0, step(s, p3, 1)))
            } else {
                Err(ParseError { kind: ErrorKind::UnterminatedConstruct, pos: p3 })
            }
        },
        Err(e) => Err(e),
    }
}

/// `let <ident> = <expr> in <expr>`.
pub fn parse_let(s: &[u8], pos: usize, depth: u64) -> (r: Result<(Expression, usize), ParseError>)
    requires
        pos as int <= s@.len(),
    ensures
        res_view(r) == spec_parse_let(s@, pos as int, depth as nat),
        r matches Ok(t) ==> pos <= t.1 && t.1 as int <= s@.len(),
    decreases depth,
{
    if depth == 0 {
        return Err(ParseError { kind: ErrorKind::DepthExceeded, pos });
    }
    if !m_kw3(s, pos, 108, 101, 116) {
        return Err(ParseError { kind: ErrorKind::UnexpectedToken, pos });
    }
    let (def, p1) = match parse_def(s, step(s, pos, 3), depth - 1) {
        Ok(t) => t,
        Err(e) => { return Err(e); },
    };
    let p2 = skip_ws(s, p1);
    if !m_kw2(s, p2, 105, 110) {
        return Err(ParseError { kind: ErrorKind::UnterminatedConstruct, pos: p2 });
    }
    match parse_e_top(s, step(s, p2, 2), depth - 1) {
        Ok(t) => Ok((Expression::Let(Box::new(def), Box::new(t.0)), t.1)),
        Err(e) => Err(e),
    }
}

/// The binding `<ident> = <expr>` inside a `let`.
pub fn parse_def(s: &[u8], pos: usize, depth: u64) -> (r: Result<(Definition, usize), ParseError>)
    requires
        pos as int <= s@.len(),
    ensures
        (match r {
            Result::Ok(t) => spec_parse_def(s@, pos as int, depth as nat) == DOut::Done(
                t.0.name.ident@,
                view_expr(t.0.value),
                t.1 as int,
            ) && pos <= t.1 && t.1 as int <= s@.len(),
            Result::Err(pe) => spec_parse_def(s@, pos as int, depth as nat) == DOut::Fail(
                pe.kind,
                pe.pos as int,
            ),
        }),
    decreases depth,
{
    if depth == 0 {
        return Err(ParseError { kind: ErrorKind::DepthExceeded, pos });
    }
    let (name, p1) = match parse_variable(s, pos) {
        Ok(t) => t,
        Err(e) => { return Err(e); },
    };
    let p2 = skip_ws(s, p1);
    if !m_sym1(s, p2, 61) {
        return Err(ParseError { kind: ErrorKind::UnterminatedConstruct, pos: p2 });
    }
    match parse_e_top(s, step(s, p2, 1), depth - 1) {
        Ok(t) => Ok((Definition { name, value: t.0 }, t.1)),
        Err(e) => Err(e),
    }
}

/// `not ( <expr> )`.
pub fn parse_not(s: &[u8], pos: usize, depth: u64) -> (r: Result<(Expression, usize), ParseError>)
    requires
        pos as int <= s@.len(),
    ensures
        res_view(r) == spec_parse_not(s@, pos as int, depth as nat),
        r matches Ok(t) ==> pos <= t.1 && t.1 as int <= s@.len(),
    decreases depth,
{
    if depth == 0 {
        return Err(ParseError { kind: ErrorKind::DepthExceeded, pos });
    }
    if !m_kw3(s, pos, 110, 111, 116) {
        return Err(ParseError { kind: ErrorKind::UnexpectedToken, pos });
    }
    match parse_e_top_bracket(s, step(s, pos, 3), depth - 1) {
        Ok(t) => Ok((Expression::Not(Box::new(t.0)), t.1)),
        Err(e) => Err(e),
    }
}

/// `if <expr> then <expr> else <expr>`.
pub fn parse_if(s: &[u8], pos: usize, depth: u64) -> (r: Result<(Expression, usize), ParseError>)
    requires
        pos as int <= s@.len(),
    ensures
        res_view(r) == spec_parse_if(s@, pos as int, depth as nat),
        r matches Ok(t) ==> pos <= t.1 && t.1 as int <= s@.len(),
    decreases depth,
{
    if depth == 0 {
        return Err(ParseError { kind: ErrorKind::DepthExceeded, pos });
    }
    if !m_kw2(s, pos, 105, 102) {
        return Err(ParseError { kind: ErrorKind::UnexpectedToken, pos });
    }
    let (cond, p1) = match parse_e_top(s, step(s, pos, 2), depth - 1) {
        Ok(t) => t,
        Err(e) => { return Err(e); },
    };
    let p2 = skip_ws(s, p1);
    if !m_kw4(s, p2, 116, 104, 101, 110) {
        return Err(ParseError { kind: ErrorKind::UnterminatedConstruct, pos: p2 });
    }
    let (e_true, p3) = match parse_e_top(s, step(s, p2, 4), depth - 1) {
        Ok(t) => t,
        Err(e) => { return Err(e); },
    };
    let p4 = skip_ws(s, p3);
    if !m_kw4(s, p4, 101, 108, 115, 101) {
        return Err(ParseError { kind: ErrorKind::UnterminatedConstruct, pos: p4 });
    }
    match parse_e_top(s, step(s, p4, 4), depth - 1) {
        Ok(t) => Ok((
            Expression::If(Box::new(cond), Box::new(e_true), Box::new(t.0)),
            t.1,
        )),
        Err(e) => Err(e),
    }
}

/// `succ ( <expr> )`.
pub fn parse_succ(s: &[u8], pos: usize, depth: u64) -> (r: Result<(Expression, usize), ParseError>)
    requires
        pos as int <= s@.len(),
    ensures
        res_view(r) == spec_parse_succ(s@, pos as int, depth as nat),
        r matches Ok(t) ==> pos <= t.1 && t.1 as int <= s@.len(),
    decreases depth,
{
    if depth == 0 {
        return Err(ParseError { kind: ErrorKind::DepthExceeded, pos });
    }
    if !m_kw4(s, pos, 115, 117, 99, 99) {
        return Err(ParseError { kind: ErrorKind::UnexpectedToken, pos });
    }
    match parse_e_top_bracket(s, step(s, pos, 4), depth - 1) {
        Ok(t) => Ok((Expression::Succ(Box::new(t.0)), t.1)),
        Err(e) => Err(e),
    }
}

/// `pred ( <expr> )`, building a `Pred` node.
pub fn parse_pred(s: &[u8], pos: usize, depth: u64) -> (r: Result<(Expression, usize), ParseError>)
    requires
        pos as int <= s@.len(),
    ensures
        res_view(r) == spec_parse_pred(s@, pos as int, depth as nat),
        r matches Ok(t) ==> pos <= t.1 && t.1 as int <= s@.len(),
    decreases depth,
{
    if depth == 0 {
        return Err(ParseError { kind: ErrorKind::DepthExceeded, pos });
    }
    if !m_kw4(s, pos, 112, 114, 101, 100) {
        return Err(ParseError { kind: ErrorKind::UnexpectedToken, pos });
    }
    match parse_e_top_bracket(s, step(s, pos, 4), depth - 1) {
        Ok(t) => Ok((Expression::Pred(Box::new(t.0)), t.1)),
        Err(e) => Err(e),
    }
}

/// `fst ( <expr> )`.
pub fn parse_fst(s: &[u8], pos: usize, depth: u64) -> (r: Result<(Expression, usize), ParseError>)
    requires
        pos as int <= s@.len(),
    ensures
        res_view(r) == spec_parse_fst(s@, pos as int, depth as nat),
        r matches Ok(t) ==> pos <= t.1 && t.1 as int <= s@.len(),
    decreases depth,
{
    if depth == 0 {
        return Err(ParseError { kind: ErrorKind::DepthExceeded, pos });
    }
    if !m_kw3(s, pos, 102, 115, 116) {
        return Err(ParseError { kind: ErrorKind::UnexpectedToken, pos });
    }
    match parse_e_top_bracket(s, step(s, pos, 3), depth - 1) {
        Ok(t) => Ok((Expression::Fst(Box::new(t.0)), t.1)),
        Err(e) => Err(e),
    }
}

/// `snd ( <expr> )`.
pub fn parse_snd(s: &[u8], pos: usize, depth: u64) -> (r: Result<(Expression, usize), ParseError>)
    requires
        pos as int <= s@.len(),
    ensures
        res_view(r) == spec_parse_snd(s@, pos as int, depth as nat),
        r matches Ok(t) ==> pos <= t.1 && t.1 as int <= s@.len(),
    decreases depth,
{
    if depth == 0 {
        return Err(ParseError { kind: ErrorKind::DepthExceeded, pos });
    }
    if !m_kw3(s, pos, 115, 110, 100) {
        return Err(ParseError { kind: ErrorKind::UnexpectedToken, pos });
    }
    match parse_e_top_bracket(s, step(s, pos, 3), depth - 1) {
        Ok(t) => Ok((Expression::Snd(Box::new(t.0)), t.1)),
        Err(e) => Err(e),
    }
}

/// `hd ( <expr> )`.
pub fn parse_hd(s: &[u8], pos: usize, depth: u64) -> (r: Result<(Expression, usize), ParseError>)
    requires
        pos as int <= s@.len(),
    ensures
        res_view(r) == spec_parse_hd(s@, pos as int, depth as nat),
        r matches Ok(t) ==> pos <= t.1 && t.1 as int <= s@.len(),
    decreases depth,
{
    if depth == 0 {
        return Err(ParseError { kind: ErrorKind::DepthExceeded, pos });
    }
    if !m_kw2(s, pos, 104, 100) {
        return Err(ParseError { kind: ErrorKind::UnexpectedToken, pos });
    }
    match parse_e_top_bracket(s, step(s, pos, 2), depth - 1) {
        Ok(t) => Ok((Expression::Hd(Box::new(t.0)), t.1)),
        Err(e) => Err(e),
    }
}

/// `tl ( <expr> )`.
pub fn parse_tl(s: &[u8], pos: usize, depth: u64) -> (r: Result<(Expression, usize), ParseError>)
    requires
        pos as int <= s@.len(),
    ensures
        res_view(r) == spec_parse_tl(s@, pos as int, depth as nat),
        r matches Ok(t) ==> pos <= t.1 && t.1 as int <= s@.len(),
    decreases depth,
{
    if depth == 0 {
        return Err(ParseError { kind: ErrorKind::DepthExceeded, pos });
    }
    if !m_kw2(s, pos, 116, 108) {
        return Err(ParseError { kind: ErrorKind::UnexpectedToken, pos });
    }
    match parse_e_top_bracket(s, step(s, pos, 2), depth - 1) {
        Ok(t) => Ok((Expression::Tl(Box::new(t.0)), t.1)),
        Err(e) => Err(e),
    }
}

/// The pair literal `< <expr> , <expr> )`.
pub fn parse_pair(s: &[u8], pos: usize, depth: u64) -> (r: Result<(Expression, usize), ParseError>)
    requires
        pos as int <= s@.len(),
    ensures
        res_view(r) == spec_parse_pair(s@, pos as int, depth as nat),
        r matches Ok(t) ==> pos <= t.1 && t.1 as int <= s@.len(),
    decreases depth,
{
    if depth == 0 {
        return Err(ParseError { kind: ErrorKind::DepthExceeded, pos });
    }
    if !m_sym1(s, pos, 60) {
        return Err(ParseError { kind: ErrorKind::UnexpectedToken, pos });
    }
    let (e1, p1) = match parse_e_top(s, step(s, pos, 1), depth - 1) {
        Ok(t) => t,
        Err(e) => { return Err(e); },
    };
    let p2 = skip_ws(s, p1);
    if !m_sym1(s, p2, 44) {
        return Err(ParseError { kind: ErrorKind::UnterminatedConstruct, pos: p2 });
    }
    let (e2, p3) = match parse_e_top(s, step(s, p2, 1), depth - 1) {
        Ok(t) => t,
        Err(e) => { return Err(e); },
    };
    let p4 = skip_ws(s, p3);
    if m_sym1(s, p4, 41) {
        Ok((Expression::Pair(Box::new(e1), Box::new(e2)), step(s, p4, 1)))
    } else {
        Err(ParseError { kind: ErrorKind::UnterminatedConstruct, pos: p4 })
    }
}

// ---------------------------------------------------------------------
// Entry points and laws.
// ---------------------------------------------------------------------

/// Parse one expression from the start of `input`, with the default
/// depth bound. On success the result is the expression together with
/// the position at which its text ends; the unconsumed remainder of the
/// input begins there. On failure it is the error kind and the position
/// at which parsing could not proceed.
pub fn parser(input: &[u8]) -> (r: Result<(Expression, usize), ParseError>)
    ensures
        res_view(r) == parse_spec(input@),
        r matches Ok(t) ==> t.1 as int <= input@.len(),
{
    parse_e_top(input, 0, DEFAULT_MAX_DEPTH)
}

/// As `parser`, with a caller-chosen bound on nesting depth. Input
/// nested more deeply than the bound admits fails with `DepthExceeded`
/// rather than exhausting the call stack.
pub fn parser_with_depth(input: &[u8], max_depth: u64) -> (r: Result<
    (Expression, usize),
    ParseError,
>)
    ensures
        res_view(r) == spec_e_top(input@, 0, max_depth as nat),
        r matches Ok(t) ==> t.1 as int <= input@.len(),
{
    parse_e_top(input, 0, max_depth)
}

/// Parsing is deterministic: it is a pure function of the input text
/// alone, so any two results of parsing the same input are structurally
/// identical — the same tree and the same remainder on success, the
/// same failure otherwise. No state is carried between calls; in
/// particular, what a returned remainder parses to depends only on the
/// remainder's own text.
pub proof fn lemma_parser_deterministic(
    s: Seq<u8>,
    r1: Result<(Expression, usize), ParseError>,
    r2: Result<(Expression, usize), ParseError>,
)
    requires
        res_view(r1) == parse_spec(s),
        res_view(r2) == parse_spec(s),
    ensures
        res_view(r1) == res_view(r2),
{
}

} // verus!
