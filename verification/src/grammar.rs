//! The grammar, stated mathematically: one spec function per precedence
//! layer and per production, over a byte sequence and a position.
//!
//! The precedence ladder, from loosest binding to tightest, is
//! `fn`-binder, `==`, `::`, `and`, `+`, application by juxtaposition,
//! atoms. Each layer parses its operands at the next tighter layer and
//! then consumes its own operator zero or more times, so every recursive
//! descent either consumes input or moves to a strictly tighter layer;
//! a depth bound, decremented on every call, makes termination immediate
//! and bounds the nesting of the tree that a parse can build.
//!
//! Whitespace (space, tab, carriage return, line feed) is skipped before
//! every token, uniformly in all productions. Word tokens (`let`, `and`,
//! `true`, ...) match only when not followed by an identifier character,
//! and an identifier that spells a reserved word is not a variable.

use vstd::prelude::*;

use crate::ast::ErrorKind;
use crate::ast::SpecExpr;

verus! {

/// The outcome of one parsing rule: an expression and the position of the
/// unconsumed remainder, or a failure kind and the position it arose at.
pub enum POut {
    Done(SpecExpr, int),
    Fail(ErrorKind, int),
}

/// The outcome of the `name = value` part of a `let`.
pub enum DOut {
    Done(Seq<u8>, SpecExpr, int),
    Fail(ErrorKind, int),
}

// ---------------------------------------------------------------------
// Character classes and tokens.
// ---------------------------------------------------------------------

/// Space, horizontal tab, line feed or carriage return.
pub open spec fn is_ws(b: u8) -> bool {
    b == 32 || b == 9 || b == 10 || b == 13
}

/// An ASCII decimal digit.
pub open spec fn is_digit(b: u8) -> bool {
    48 <= b && b <= 57
}

/// A byte that may begin an identifier: a letter or an underscore.
pub open spec fn is_ident_start(b: u8) -> bool {
    (97 <= b && b <= 122) || (65 <= b && b <= 90) || b == 95
}

/// A byte that may continue an identifier.
pub open spec fn is_ident_char(b: u8) -> bool {
    is_ident_start(b) || is_digit(b)
}

/// The first non-whitespace position at or after `pos`.
pub open spec fn skip_ws_s(s: Seq<u8>, pos: int) -> int
    decreases s.len() - pos,
{
    if 0 <= pos && pos < s.len() && is_ws(s[pos]) {
        skip_ws_s(s, pos + 1)
    } else {
        pos
    }
}

/// The end of the maximal identifier run beginning at `pos`.
pub open spec fn ident_end_s(s: Seq<u8>, pos: int) -> int
    decreases s.len() - pos,
{
    if 0 <= pos && pos < s.len() && is_ident_char(s[pos]) {
        ident_end_s(s, pos + 1)
    } else {
        pos
    }
}

/// The end of the maximal digit run beginning at `pos`.
pub open spec fn digits_end_s(s: Seq<u8>, pos: int) -> int
    decreases s.len() - pos,
{
    if 0 <= pos && pos < s.len() && is_digit(s[pos]) {
        digits_end_s(s, pos + 1)
    } else {
        pos
    }
}

/// The decimal value of the digits of `s` in `[pos, end)`.
pub open spec fn digits_val(s: Seq<u8>, pos: int, end: int) -> int
    decreases end - pos,
{
    if pos >= end {
        0
    } else {
        digits_val(s, pos, end - 1) * 10 + (s[end - 1] - 48)
    }
}

/// Position `q` ends an identifier run: the end of input, or a byte that
/// cannot continue an identifier.
pub open spec fn word_boundary(s: Seq<u8>, q: int) -> bool {
    q >= s.len() || !is_ident_char(s[q])
}

/// The single byte `c` stands at `pos`.
pub open spec fn sym1_at(s: Seq<u8>, pos: int, c: u8) -> bool {
    0 <= pos && pos + 1 <= s.len() && s[pos] == c
}

/// The two bytes `c0 c1` stand at `pos`.
pub open spec fn sym2_at(s: Seq<u8>, pos: int, c0: u8, c1: u8) -> bool {
    0 <= pos && pos + 2 <= s.len() && s[pos] == c0 && s[pos + 1] == c1
}

/// The two-letter word `c0 c1` stands at `pos`, ending there.
pub open spec fn kw2_at(s: Seq<u8>, pos: int, c0: u8, c1: u8) -> bool {
    sym2_at(s, pos, c0, c1) && word_boundary(s, pos + 2)
}

/// The three-letter word `c0 c1 c2` stands at `pos`, ending there.
pub open spec fn kw3_at(s: Seq<u8>, pos: int, c0: u8, c1: u8, c2: u8) -> bool {
    0 <= pos && pos + 3 <= s.len() && s[pos] == c0 && s[pos + 1] == c1 && s[pos + 2] == c2
        && word_boundary(s, pos + 3)
}

/// The four-letter word `c0 c1 c2 c3` stands at `pos`, ending there.
pub open spec fn kw4_at(s: Seq<u8>, pos: int, c0: u8, c1: u8, c2: u8, c3: u8) -> bool {
    0 <= pos && pos + 4 <= s.len() && s[pos] == c0 && s[pos + 1] == c1 && s[pos + 2] == c2
        && s[pos + 3] == c3 && word_boundary(s, pos + 4)
}

/// The five-letter word `c0 .. c4` stands at `pos`, ending there.
pub open spec fn kw5_at(s: Seq<u8>, pos: int, c0: u8, c1: u8, c2: u8, c3: u8, c4: u8) -> bool {
    0 <= pos && pos + 5 <= s.len() && s[pos] == c0 && s[pos + 1] == c1 && s[pos + 2] == c2
        && s[pos + 3] == c3 && s[pos + 4] == c4 && word_boundary(s, pos + 5)
}

/// The identifier beginning at `pos` spells a reserved word of the
/// grammar: a keyword, a literal word, or the word operator `and`.
pub open spec fn is_reserved_at(s: Seq<u8>, pos: int) -> bool {
    ||| kw4_at(s, pos, 116, 114, 117, 101)  // true
    ||| kw5_at(s, pos, 102, 97, 108, 115, 101)  // false
    ||| kw3_at(s, pos, 110, 105, 108)  // nil
    ||| kw3_at(s, pos, 108, 101, 116)  // let
    ||| kw2_at(s, pos, 105, 110)  // in
    ||| kw3_at(s, pos, 110, 111, 116)  // not
    ||| kw2_at(s, pos, 105, 102)  // if
    ||| kw4_at(s, pos, 116, 104, 101, 110)  // then
    ||| kw4_at(s, pos, 101, 108, 115, 101)  // else
    ||| kw4_at(s, pos, 115, 117, 99, 99)  // succ
    ||| kw4_at(s, pos, 112, 114, 101, 100)  // pred
    ||| kw3_at(s, pos, 102, 115, 116)  // fst
    ||| kw3_at(s, pos, 115, 110, 100)  // snd
    ||| kw2_at(s, pos, 104, 100)  // hd
    ||| kw2_at(s, pos, 116, 108)  // tl
    ||| kw2_at(s, pos, 102, 110)  // fn
    ||| kw3_at(s, pos, 97, 110, 100)  // and
}

/// A variable stands at `pos` (after whitespace): an identifier that is
/// not a reserved word.
pub open spec fn var_ok(s: Seq<u8>, pos: int) -> bool {
    let p = skip_ws_s(s, pos);
    p < s.len() && is_ident_start(s[p]) && !is_reserved_at(s, p)
}

/// The text of the variable standing at `pos`.
pub open spec fn var_name(s: Seq<u8>, pos: int) -> Seq<u8> {
    let p = skip_ws_s(s, pos);
    s.subrange(p, ident_end_s(s, p))
}

/// The position just after the variable standing at `pos`.
pub open spec fn var_end(s: Seq<u8>, pos: int) -> int {
    ident_end_s(s, skip_ws_s(s, pos))
}

// ---------------------------------------------------------------------
// The precedence ladder.
// ---------------------------------------------------------------------

/// A full expression: the loosest layer of the ladder.
pub open spec fn spec_e_top(s: Seq<u8>, pos: int, depth: nat) -> POut
    decreases depth,
{
    if depth == 0 {
        POut::Fail(ErrorKind::DepthExceeded, pos)
    } else {
        spec_e_fifth(s, pos, (depth - 1) as nat)
    }
}

/// Binder layer: `fn x. e`, or fall through to the equality layer.
pub open spec fn spec_e_fifth(s: Seq<u8>, pos: int, depth: nat) -> POut
    decreases depth,
{
    if depth == 0 {
        POut::Fail(ErrorKind::DepthExceeded, pos)
    } else {
        let p = skip_ws_s(s, pos);
        if kw2_at(s, p, 102, 110) {  // fn
            spec_parse_fn(s, p, (depth - 1) as nat)
        } else {
            spec_e_fourth(s, pos, (depth - 1) as nat)
        }
    }
}

/// `fn <ident> . <expr>`, at a position where the word `fn` stands.
pub open spec fn spec_parse_fn(s: Seq<u8>, pos: int, depth: nat) -> POut
    decreases depth,
{
    if depth == 0 {
        POut::Fail(ErrorKind::DepthExceeded, pos)
    } else if !kw2_at(s, pos, 102, 110) {  // fn
        POut::Fail(ErrorKind::UnexpectedToken, pos)
    } else {
        let p1 = pos + 2;
        if !var_ok(s, p1) {
            POut::Fail(ErrorKind::UnexpectedToken, skip_ws_s(s, p1))
        } else {
            let name = var_name(s, p1);
            let p3 = skip_ws_s(s, var_end(s, p1));
            if !sym1_at(s, p3, 46) {  // .
                POut::Fail(ErrorKind::UnterminatedConstruct, p3)
            } else {
                match spec_e_top(s, p3 + 1, (depth - 1) as nat) {
                    POut::Done(body, p4) => POut::Done(
                        SpecExpr::Fn(name, Box::new(body)),
                        p4,
                    ),
                    POut::Fail(k, q) => POut::Fail(k, q),
                }
            }
        }
    }
}

/// Equality layer: a cons-layer operand, then `== <operand>` zero or more
/// times, combined left-associatively.
pub open spec fn spec_e_fourth(s: Seq<u8>, pos: int, depth: nat) -> POut
    decreases depth,
{
    if depth == 0 {
        POut::Fail(ErrorKind::DepthExceeded, pos)
    } else {
        match spec_e_third(s, pos, (depth - 1) as nat) {
            POut::Done(e1, p1) => spec_parse_eq(s, p1, e1, (depth - 1) as nat),
            POut::Fail(k, q) => POut::Fail(k, q),
        }
    }
}

/// Zero or more `== <operand>` continuations of `acc`.
pub open spec fn spec_parse_eq(s: Seq<u8>, pos: int, acc: SpecExpr, depth: nat) -> POut
    decreases depth,
{
    if depth == 0 {
        POut::Fail(ErrorKind::DepthExceeded, pos)
    } else {
        let p = skip_ws_s(s, pos);
        if sym2_at(s, p, 61, 61) {  // ==
            match spec_e_third(s, p + 2, (depth - 1) as nat) {
                POut::Done(e2, p2) => spec_parse_eq(
                    s,
                    p2,
                    SpecExpr::Eq(Box::new(acc), Box::new(e2)),
                    (depth - 1) as nat,
                ),
                POut::Fail(k, q) => POut::Fail(k, q),
            }
        } else {
            POut::Done(acc, pos)
        }
    }
}

/// List layer: an and-layer operand, then `:: <operand>` zero or more
/// times, combined left-associatively.
pub open spec fn spec_e_third(s: Seq<u8>, pos: int, depth: nat) -> POut
    decreases depth,
{
    if depth == 0 {
        POut::Fail(ErrorKind::DepthExceeded, pos)
    } else {
        match spec_e_second(s, pos, (depth - 1) as nat) {
            POut::Done(e1, p1) => spec_parse_cons(s, p1, e1, (depth - 1) as nat),
            POut::Fail(k, q) => POut::Fail(k, q),
        }
    }
}

/// Zero or more `:: <operand>` continuations of `acc`.
pub open spec fn spec_parse_cons(s: Seq<u8>, pos: int, acc: SpecExpr, depth: nat) -> POut
    decreases depth,
{
    if depth == 0 {
        POut::Fail(ErrorKind::DepthExceeded, pos)
    } else {
        let p = skip_ws_s(s, pos);
        if sym2_at(s, p, 58, 58) {  // ::
            match spec_e_second(s, p + 2, (depth - 1) as nat) {
                POut::Done(e2, p2) => spec_parse_cons(
                    s,
                    p2,
                    SpecExpr::Cons(Box::new(acc), Box::new(e2)),
                    (depth - 1) as nat,
                ),
                POut::Fail(k, q) => POut::Fail(k, q),
            }
        } else {
            POut::Done(acc, pos)
        }
    }
}

/// Boolean layer: an arithmetic-layer operand, then `and <operand>` zero
/// or more times, combined left-associatively.
pub open spec fn spec_e_second(s: Seq<u8>, pos: int, depth: nat) -> POut
    decreases depth,
{
    if depth == 0 {
        POut::Fail(ErrorKind::DepthExceeded, pos)
    } else {
        match spec_e_first(s, pos, (depth - 1) as nat) {
            POut::Done(e1, p1) => spec_parse_and(s, p1, e1, (depth - 1) as nat),
            POut::Fail(k, q) => POut::Fail(k, q),
        }
    }
}

/// Zero or more `and <operand>` continuations of `acc`.
pub open spec fn spec_parse_and(s: Seq<u8>, pos: int, acc: SpecExpr, depth: nat) -> POut
    decreases depth,
{
    if depth == 0 {
        POut::Fail(ErrorKind::DepthExceeded, pos)
    } else {
        let p = skip_ws_s(s, pos);
        if kw3_at(s, p, 97, 110, 100) {  // and
            match spec_e_first(s, p + 3, (depth - 1) as nat) {
                POut::Done(e2, p2) => spec_parse_and(
                    s,
                    p2,
                    SpecExpr::And(Box::new(acc), Box::new(e2)),
                    (depth - 1) as nat,
                ),
                POut::Fail(k, q) => POut::Fail(k, q),
            }
        } else {
            POut::Done(acc, pos)
        }
    }
}

/// Arithmetic layer: an application-layer operand, then `+ <operand>`
/// zero or more times, combined left-associatively.
pub open spec fn spec_e_first(s: Seq<u8>, pos: int, depth: nat) -> POut
    decreases depth,
{
    if depth == 0 {
        POut::Fail(ErrorKind::DepthExceeded, pos)
    } else {
        match spec_e_zeroth(s, pos, (depth - 1) as nat) {
            POut::Done(e1, p1) => spec_parse_add(s, p1, e1, (depth - 1) as nat),
            POut::Fail(k, q) => POut::Fail(k, q),
        }
    }
}

/// Zero or more `+ <operand>` continuations of `acc`.
pub open spec fn spec_parse_add(s: Seq<u8>, pos: int, acc: SpecExpr, depth: nat) -> POut
    decreases depth,
{
    if depth == 0 {
        POut::Fail(ErrorKind::DepthExceeded, pos)
    } else {
        let p = skip_ws_s(s, pos);
        if sym1_at(s, p, 43) {  // +
            match spec_e_zeroth(s, p + 1, (depth - 1) as nat) {
                POut::Done(e2, p2) => spec_parse_add(
                    s,
                    p2,
                    SpecExpr::Add(Box::new(acc), Box::new(e2)),
                    (depth - 1) as nat,
                ),
                POut::Fail(k, q) => POut::Fail(k, q),
            }
        } else {
            POut::Done(acc, pos)
        }
    }
}

/// Application layer: an atom, then further atoms by juxtaposition,
/// combined left-associatively.
pub open spec fn spec_e_zeroth(s: Seq<u8>, pos: int, depth: nat) -> POut
    decreases depth,
{
    if depth == 0 {
        POut::Fail(ErrorKind::DepthExceeded, pos)
    } else {
        match spec_e_null(s, pos, (depth - 1) as nat) {
            POut::Done(e1, p1) => spec_parse_apply(s, p1, e1, (depth - 1) as nat),
            POut::Fail(k, q) => POut::Fail(k, q),
        }
    }
}

/// Zero or more juxtaposed atoms applied to `acc`. A failing atom ends
/// the sequence of arguments without consuming input, except that a
/// depth failure is surfaced, never masked.
pub open spec fn spec_parse_apply(s: Seq<u8>, pos: int, acc: SpecExpr, depth: nat) -> POut
    decreases depth,
{
    if depth == 0 {
        POut::Fail(ErrorKind::DepthExceeded, pos)
    } else {
        match spec_e_null(s, pos, (depth - 1) as nat) {
            POut::Done(e2, p2) => spec_parse_apply(
                s,
                p2,
                SpecExpr::Apply(Box::new(acc), Box::new(e2)),
                (depth - 1) as nat,
            ),
            POut::Fail(ErrorKind::DepthExceeded, q) => POut::Fail(ErrorKind::DepthExceeded, q),
            POut::Fail(_, _) => POut::Done(acc, pos),
        }
    }
}

// ---------------------------------------------------------------------
// Atoms.
// ---------------------------------------------------------------------

/// Atom layer: a parenthesized expression, a pair, a literal, a keyword
/// construct, or a variable. Once a leading token has matched, a failure
/// further in is the whole parse's failure: no other alternative is
/// tried.
pub open spec fn spec_e_null(s: Seq<u8>, pos: int, depth: nat) -> POut
    decreases depth,
{
    if depth == 0 {
        POut::Fail(ErrorKind::DepthExceeded, pos)
    } else {
        let d = (depth - 1) as nat;
        let p = skip_ws_s(s, pos);
        if p >= s.len() {
            POut::Fail(ErrorKind::UnexpectedToken, p)
        } else if sym1_at(s, p, 40) {  // (
            spec_paren_arg(s, p, d)
        } else if sym1_at(s, p, 60) {  // <
            spec_parse_pair(s, p, d)
        } else if is_digit(s[p]) {
            spec_parse_num(s, p)
        } else if kw4_at(s, p, 116, 114, 117, 101) || kw5_at(s, p, 102, 97, 108, 115, 101) {
            spec_parse_bool(s, p)
        } else if kw3_at(s, p, 110, 105, 108) {  // nil
            spec_parse_nil(s, p)
        } else if kw3_at(s, p, 108, 101, 116) {  // let
            spec_parse_let(s, p, d)
        } else if kw3_at(s, p, 110, 111, 116) {  // not
            spec_parse_not(s, p, d)
        } else if kw2_at(s, p, 105, 102) {  // if
            spec_parse_if(s, p, d)
        } else if kw4_at(s, p, 115, 117, 99, 99) {  // succ
            spec_parse_succ(s, p, d)
        } else if kw4_at(s, p, 112, 114, 101, 100) {  // pred
            spec_parse_pred(s, p, d)
        } else if kw3_at(s, p, 102, 115, 116) {  // fst
            spec_parse_fst(s, p, d)
        } else if kw3_at(s, p, 115, 110, 100) {  // snd
            spec_parse_snd(s, p, d)
        } else if kw2_at(s, p, 104, 100) {  // hd
            spec_parse_hd(s, p, d)
        } else if kw2_at(s, p, 116, 108) {  // tl
            spec_parse_tl(s, p, d)
        } else {
            spec_e_variable(s, p)
        }
    }
}

/// A variable used as an expression.
pub open spec fn spec_e_variable(s: Seq<u8>, pos: int) -> POut {
    if var_ok(s, pos) {
        POut::Done(SpecExpr::Var(var_name(s, pos)), var_end(s, pos))
    } else {
        POut::Fail(ErrorKind::UnexpectedToken, skip_ws_s(s, pos))
    }
}

/// The literals `true` and `false`.
pub open spec fn spec_parse_bool(s: Seq<u8>, pos: int) -> POut {
    if kw4_at(s, pos, 116, 114, 117, 101) {
        POut::Done(SpecExpr::True, pos + 4)
    } else if kw5_at(s, pos, 102, 97, 108, 115, 101) {
        POut::Done(SpecExpr::False, pos + 5)
    } else {
        POut::Fail(ErrorKind::UnexpectedToken, pos)
    }
}

/// The literal `nil`.
pub open spec fn spec_parse_nil(s: Seq<u8>, pos: int) -> POut {
    if kw3_at(s, pos, 110, 105, 108) {
        POut::Done(SpecExpr::Nil, pos + 3)
    } else {
        POut::Fail(ErrorKind::UnexpectedToken, pos)
    }
}

/// A numeral: the maximal digit run at `pos`, read as a decimal value.
/// A value beyond the machine's signed range is rejected where it
/// stands.
pub open spec fn spec_parse_num(s: Seq<u8>, pos: int) -> POut {
    if !(0 <= pos && pos < s.len() && is_digit(s[pos])) {
        POut::Fail(ErrorKind::UnexpectedToken, pos)
    } else {
        let end = digits_end_s(s, pos);
        let v = digits_val(s, pos, end);
        if v <= i64::MAX {
            POut::Done(SpecExpr::Num(v), end)
        } else {
            POut::Fail(ErrorKind::UnexpectedToken, pos)
        }
    }
}

/// A parenthesized full expression: `( <expr> )`, whitespace allowed
/// before each token. The brackets are transparent: the inner
/// expression is the result.
pub open spec fn spec_paren_arg(s: Seq<u8>, pos: int, depth: nat) -> POut
    decreases depth,
{
    if depth == 0 {
        POut::Fail(ErrorKind::DepthExceeded, pos)
    } else {
        let p = skip_ws_s(s, pos);
        if !sym1_at(s, p, 40) {  // (
            POut::Fail(ErrorKind::UnterminatedConstruct, p)
        } else {
            match spec_e_top(s, p + 1, (depth - 1) as nat) {
                POut::Done(e, p2) => {
                    let p3 = skip_ws_s(s, p2);
                    if sym1_at(s, p3, 41) {  // )
                        POut::Done(e, p3 + 1)
                    } else {
                        POut::Fail(ErrorKind::UnterminatedConstruct, p3)
                    }
                },
                POut::Fail(k, q) => POut::Fail(k, q),
            }
        }
    }
}

/// `let <ident> = <expr> in <expr>`.
pub open spec fn spec_parse_let(s: Seq<u8>, pos: int, depth: nat) -> POut
    decreases depth,
{
    if depth == 0 {
        POut::Fail(ErrorKind::DepthExceeded, pos)
    } else if !kw3_at(s, pos, 108, 101, 116) {  // let
        POut::Fail(ErrorKind::UnexpectedToken, pos)
    } else {
        match spec_parse_def(s, pos + 3, (depth - 1) as nat) {
            DOut::Done(name, value, p1) => {
                let p2 = skip_ws_s(s, p1);
                if !kw2_at(s, p2, 105, 110) {  // in
                    POut::Fail(ErrorKind::UnterminatedConstruct, p2)
                } else {
                    match spec_e_top(s, p2 + 2, (depth - 1) as nat) {
                        POut::Done(body, p3) => POut::Done(
                            SpecExpr::Let(name, Box::new(value), Box::new(body)),
                            p3,
                        ),
                        POut::Fail(k, q) => POut::Fail(k, q),
                    }
                }
            },
            DOut::Fail(k, q) => POut::Fail(k, q),
        }
    }
}

/// The binding `<ident> = <expr>` inside a `let`.
pub open spec fn spec_parse_def(s: Seq<u8>, pos: int, depth: nat) -> DOut
    decreases depth,
{
    if depth == 0 {
        DOut::Fail(ErrorKind::DepthExceeded, pos)
    } else if !var_ok(s, pos) {
        DOut::Fail(ErrorKind::UnexpectedToken, skip_ws_s(s, pos))
    } else {
        let name = var_name(s, pos);
        let p2 = skip_ws_s(s, var_end(s, pos));
        if !sym1_at(s, p2, 61) {  // =
            DOut::Fail(ErrorKind::UnterminatedConstruct, p2)
        } else {
            match spec_e_top(s, p2 + 1, (depth - 1) as nat) {
                POut::Done(value, p3) => DOut::Done(name, value, p3),
                POut::Fail(k, q) => DOut::Fail(k, q),
            }
        }
    }
}

/// `not ( <expr> )`.
pub open spec fn spec_parse_not(s: Seq<u8>, pos: int, depth: nat) -> POut
    decreases depth,
{
    if depth == 0 {
        POut::Fail(ErrorKind::DepthExceeded, pos)
    } else if !kw3_at(s, pos, 110, 111, 116) {  // not
        POut::Fail(ErrorKind::UnexpectedToken, pos)
    } else {
        match spec_paren_arg(s, pos + 3, (depth - 1) as nat) {
            POut::Done(e, p) => POut::Done(SpecExpr::Not(Box::new(e)), p),
            POut::Fail(k, q) => POut::Fail(k, q),
        }
    }
}

/// `if <expr> then <expr> else <expr>`.
pub open spec fn spec_parse_if(s: Seq<u8>, pos: int, depth: nat) -> POut
    decreases depth,
{
    if depth == 0 {
        POut::Fail(ErrorKind::DepthExceeded, pos)
    } else if !kw2_at(s, pos, 105, 102) {  // if
        POut::Fail(ErrorKind::UnexpectedToken, pos)
    } else {
        match spec_e_top(s, pos + 2, (depth - 1) as nat) {
            POut::Done(cond, p1) => {
                let p2 = skip_ws_s(s, p1);
                if !kw4_at(s, p2, 116, 104, 101, 110) {  // then
                    POut::Fail(ErrorKind::UnterminatedConstruct, p2)
                } else {
                    match spec_e_top(s, p2 + 4, (depth - 1) as nat) {
                        POut::Done(e_true, p3) => {
                            let p4 = skip_ws_s(s, p3);
                            if !kw4_at(s, p4, 101, 108, 115, 101) {  // else
                                POut::Fail(ErrorKind::UnterminatedConstruct, p4)
                            } else {
                                match spec_e_top(s, p4 + 4, (depth - 1) as nat) {
                                    POut::Done(e_false, p5) => POut::Done(
                                        SpecExpr::If(
                                            Box::new(cond),
                                            Box::new(e_true),
                                            Box::new(e_false),
                                        ),
                                        p5,
                                    ),
                                    POut::Fail(k, q) => POut::Fail(k, q),
                                }
                            }
                        },
                        POut::Fail(k, q) => POut::Fail(k, q),
                    }
                }
            },
            POut::Fail(k, q) => POut::Fail(k, q),
        }
    }
}

/// `succ ( <expr> )`.
pub open spec fn spec_parse_succ(s: Seq<u8>, pos: int, depth: nat) -> POut
    decreases depth,
{
    if depth == 0 {
        POut::Fail(ErrorKind::DepthExceeded, pos)
    } else if !kw4_at(s, pos, 115, 117, 99, 99) {  // succ
        POut::Fail(ErrorKind::UnexpectedToken, pos)
    } else {
        match spec_paren_arg(s, pos + 4, (depth - 1) as nat) {
            POut::Done(e, p) => POut::Done(SpecExpr::Succ(Box::new(e)), p),
            POut::Fail(k, q) => POut::Fail(k, q),
        }
    }
}

/// `pred ( <expr> )`.
pub open spec fn spec_parse_pred(s: Seq<u8>, pos: int, depth: nat) -> POut
    decreases depth,
{
    if depth == 0 {
        POut::Fail(ErrorKind::DepthExceeded, pos)
    } else if !kw4_at(s, pos, 112, 114, 101, 100) {  // pred
        POut::Fail(ErrorKind::UnexpectedToken, pos)
    } else {
        match spec_paren_arg(s, pos + 4, (depth - 1) as nat) {
            POut::Done(e, p) => POut::Done(SpecExpr::Pred(Box::new(e)), p),
            POut::Fail(k, q) => POut::Fail(k, q),
        }
    }
}

/// `fst ( <expr> )`.
pub open spec fn spec_parse_fst(s: Seq<u8>, pos: int, depth: nat) -> POut
    decreases depth,
{
    if depth == 0 {
        POut::Fail(ErrorKind::DepthExceeded, pos)
    } else if !kw3_at(s, pos, 102, 115, 116) {  // fst
        POut::Fail(ErrorKind::UnexpectedToken, pos)
    } else {
        match spec_paren_arg(s, pos + 3, (depth - 1) as nat) {
            POut::Done(e, p) => POut::Done(SpecExpr::Fst(Box::new(e)), p),
            POut::Fail(k, q) => POut::Fail(k, q),
        }
    }
}

/// `snd ( <expr> )`.
pub open spec fn spec_parse_snd(s: Seq<u8>, pos: int, depth: nat) -> POut
    decreases depth,
{
    if depth == 0 {
        POut::Fail(ErrorKind::DepthExceeded, pos)
    } else if !kw3_at(s, pos, 115, 110, 100) {  // snd
        POut::Fail(ErrorKind::UnexpectedToken, pos)
    } else {
        match spec_paren_arg(s, pos + 3, (depth - 1) as nat) {
            POut::Done(e, p) => POut::Done(SpecExpr::Snd(Box::new(e)), p),
            POut::Fail(k, q) => POut::Fail(k, q),
        }
    }
}

/// `hd ( <expr> )`.
pub open spec fn spec_parse_hd(s: Seq<u8>, pos: int, depth: nat) -> POut
    decreases depth,
{
    if depth == 0 {
        POut::Fail(ErrorKind::DepthExceeded, pos)
    } else if !kw2_at(s, pos, 104, 100) {  // hd
        POut::Fail(ErrorKind::UnexpectedToken, pos)
    } else {
        match spec_paren_arg(s, pos + 2, (depth - 1) as nat) {
            POut::Done(e, p) => POut::Done(SpecExpr::Hd(Box::new(e)), p),
            POut::Fail(k, q) => POut::Fail(k, q),
        }
    }
}

/// `tl ( <expr> )`.
pub open spec fn spec_parse_tl(s: Seq<u8>, pos: int, depth: nat) -> POut
    decreases depth,
{
    if depth == 0 {
        POut::Fail(ErrorKind::DepthExceeded, pos)
    } else if !kw2_at(s, pos, 116, 108) {  // tl
        POut::Fail(ErrorKind::UnexpectedToken, pos)
    } else {
        match spec_paren_arg(s, pos + 2, (depth - 1) as nat) {
            POut::Done(e, p) => POut::Done(SpecExpr::Tl(Box::new(e)), p),
            POut::Fail(k, q) => POut::Fail(k, q),
        }
    }
}

/// The pair literal `< <expr> , <expr> )`, with the asymmetric
/// delimiters the grammar prescribes.
pub open spec fn spec_parse_pair(s: Seq<u8>, pos: int, depth: nat) -> POut
    decreases depth,
{
    if depth == 0 {
        POut::Fail(ErrorKind::DepthExceeded, pos)
    } else if !sym1_at(s, pos, 60) {  // <
        POut::Fail(ErrorKind::UnexpectedToken, pos)
    } else {
        match spec_e_top(s, pos + 1, (depth - 1) as nat) {
            POut::Done(e1, p1) => {
                let p2 = skip_ws_s(s, p1);
                if !sym1_at(s, p2, 44) {  // ,
                    POut::Fail(ErrorKind::UnterminatedConstruct, p2)
                } else {
                    match spec_e_top(s, p2 + 1, (depth - 1) as nat) {
                        POut::Done(e2, p3) => {
                            let p4 = skip_ws_s(s, p3);
                            if sym1_at(s, p4, 41) {  // )
                                POut::Done(
                                    SpecExpr::Pair(Box::new(e1), Box::new(e2)),
                                    p4 + 1,
                                )
                            } else {
                                POut::Fail(ErrorKind::UnterminatedConstruct, p4)
                            }
                        },
                        POut::Fail(k, q) => POut::Fail(k, q),
                    }
                }
            },
            POut::Fail(k, q) => POut::Fail(k, q),
        }
    }
}

} // verus!
