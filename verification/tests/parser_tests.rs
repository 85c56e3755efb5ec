use pcf_parser::ast::ErrorKind;
use pcf_parser::ast::Expression;
use pcf_parser::ast::ParseError;
use pcf_parser::ast::Variable;
use pcf_parser::ast::Definition;
use pcf_parser::ast::expr_eq;
use pcf_parser::parser::parser;
use pcf_parser::parser::parser_with_depth;

fn var_e(name: &str) -> Expression {
    Expression::Var(Variable { ident: name.as_bytes().to_vec() })
}

fn num_e(n: i64) -> Expression {
    Expression::Num(n)
}

fn mk_add(a: Expression, b: Expression) -> Expression {
    Expression::Add(Box::new(a), Box::new(b))
}

fn mk_and(a: Expression, b: Expression) -> Expression {
    Expression::And(Box::new(a), Box::new(b))
}

fn mk_cons(a: Expression, b: Expression) -> Expression {
    Expression::Cons(Box::new(a), Box::new(b))
}

fn mk_eq(a: Expression, b: Expression) -> Expression {
    Expression::Eq(Box::new(a), Box::new(b))
}

fn mk_apply(a: Expression, b: Expression) -> Expression {
    Expression::Apply(Box::new(a), Box::new(b))
}

fn mk_fn(name: &str, body: Expression) -> Expression {
    Expression::Fn(Variable { ident: name.as_bytes().to_vec() }, Box::new(body))
}

fn mk_let(name: &str, value: Expression, body: Expression) -> Expression {
    Expression::Let(
        Box::new(Definition { name: Variable { ident: name.as_bytes().to_vec() }, value }),
        Box::new(body),
    )
}

fn ok_parse(input: &[u8]) -> (Expression, usize) {
    parser(input).expect("expected a successful parse")
}

#[test]
fn literal_num() {
    let (e, used) = ok_parse(b"42");
    assert!(expr_eq(&e, &num_e(42)));
    assert_eq!(used, 2);
}

#[test]
fn literal_num_leading_zeros() {
    let (e, used) = ok_parse(b"007");
    assert!(expr_eq(&e, &num_e(7)));
    assert_eq!(used, 3);
}

#[test]
fn literal_true() {
    let (e, used) = ok_parse(b"true");
    assert!(expr_eq(&e, &Expression::True));
    assert_eq!(used, 4);
}

#[test]
fn literal_false() {
    let (e, _) = ok_parse(b"false");
    assert!(expr_eq(&e, &Expression::False));
}

#[test]
fn literal_nil() {
    let (e, used) = ok_parse(b"nil");
    assert!(expr_eq(&e, &Expression::Nil));
    assert_eq!(used, 3);
}

#[test]
fn variable_reference() {
    let (e, used) = ok_parse(b"abc_1");
    assert!(expr_eq(&e, &var_e("abc_1")));
    assert_eq!(used, 5);
}

#[test]
fn keyword_prefix_is_a_variable() {
    let (e, _) = ok_parse(b"truex");
    assert!(expr_eq(&e, &var_e("truex")));
}

#[test]
fn bare_infix_terminates() {
    let (e, used) = ok_parse(b"x+y");
    assert!(expr_eq(&e, &mk_add(var_e("x"), var_e("y"))));
    assert_eq!(used, 3);
}

#[test]
fn precedence_add_binds_tighter_than_and() {
    let (e, used) = ok_parse(b"a+b and c");
    assert!(expr_eq(&e, &mk_and(mk_add(var_e("a"), var_e("b")), var_e("c"))));
    assert_eq!(used, 9);
}

#[test]
fn precedence_cons_binds_tighter_than_eq() {
    let (e, _) = ok_parse(b"a::b==c");
    assert!(expr_eq(&e, &mk_eq(mk_cons(var_e("a"), var_e("b")), var_e("c"))));
}

#[test]
fn add_is_left_associative() {
    let (e, _) = ok_parse(b"a+b+c");
    assert!(expr_eq(&e, &mk_add(mk_add(var_e("a"), var_e("b")), var_e("c"))));
}

#[test]
fn bracket_transparency() {
    let (e1, used1) = ok_parse(b"(a+b)");
    let (e2, used2) = ok_parse(b"a+b");
    assert!(expr_eq(&e1, &e2));
    assert_eq!(used1, 5);
    assert_eq!(used2, 3);
}

#[test]
fn prefix_forms_round_trip() {
    let (e, used) = ok_parse(b"succ(pred(3))");
    assert!(expr_eq(
        &e,
        &Expression::Succ(Box::new(Expression::Pred(Box::new(num_e(3))))),
    ));
    assert_eq!(used, 13);
}

#[test]
fn binder_form() {
    let (e, used) = ok_parse(b"fn x. x");
    assert!(expr_eq(&e, &mk_fn("x", var_e("x"))));
    assert_eq!(used, 7);
}

#[test]
fn binder_then_application() {
    let (e, used) = ok_parse(b"(fn x. x) y");
    assert!(expr_eq(&e, &mk_apply(mk_fn("x", var_e("x")), var_e("y"))));
    assert_eq!(used, 11);
}

#[test]
fn application_is_left_associative() {
    let (e, _) = ok_parse(b"f x y");
    assert!(expr_eq(&e, &mk_apply(mk_apply(var_e("f"), var_e("x")), var_e("y"))));
}

#[test]
fn application_with_parenthesized_argument() {
    let (e, _) = ok_parse(b"f(x)");
    assert!(expr_eq(&e, &mk_apply(var_e("f"), var_e("x"))));
}

#[test]
fn missing_else_is_unterminated() {
    let r = parser(b"if a then b");
    assert_eq!(r.unwrap_err(), ParseError { kind: ErrorKind::UnterminatedConstruct, pos: 11 });
}

#[test]
fn empty_input_is_unexpected_token() {
    let r = parser(b"");
    assert_eq!(r.unwrap_err(), ParseError { kind: ErrorKind::UnexpectedToken, pos: 0 });
}

#[test]
fn unterminated_paren() {
    let r = parser(b"(a");
    assert_eq!(r.unwrap_err(), ParseError { kind: ErrorKind::UnterminatedConstruct, pos: 2 });
}

#[test]
fn let_binding() {
    let (e, used) = ok_parse(b"let x = 1 in x");
    assert!(expr_eq(&e, &mk_let("x", num_e(1), var_e("x"))));
    assert_eq!(used, 14);
}

#[test]
fn bare_let_is_unexpected_token() {
    let r = parser(b"let");
    assert_eq!(r.unwrap_err(), ParseError { kind: ErrorKind::UnexpectedToken, pos: 3 });
}

#[test]
fn if_then_else() {
    let (e, _) = ok_parse(b"if true then 1 else 2");
    assert!(expr_eq(
        &e,
        &Expression::If(Box::new(Expression::True), Box::new(num_e(1)), Box::new(num_e(2))),
    ));
}

#[test]
fn pair_uses_asymmetric_delimiters() {
    let (e, used) = ok_parse(b"<1,2)");
    assert!(expr_eq(&e, &Expression::Pair(Box::new(num_e(1)), Box::new(num_e(2)))));
    assert_eq!(used, 5);
}

#[test]
fn fst_of_pair() {
    let (e, _) = ok_parse(b"fst(<1,2))");
    assert!(expr_eq(
        &e,
        &Expression::Fst(Box::new(Expression::Pair(Box::new(num_e(1)), Box::new(num_e(2))))),
    ));
}

#[test]
fn snd_of_pair() {
    let (e, _) = ok_parse(b"snd(<1,2))");
    assert!(expr_eq(
        &e,
        &Expression::Snd(Box::new(Expression::Pair(Box::new(num_e(1)), Box::new(num_e(2))))),
    ));
}

#[test]
fn not_form() {
    let (e, _) = ok_parse(b"not(true)");
    assert!(expr_eq(&e, &Expression::Not(Box::new(Expression::True))));
}

#[test]
fn hd_and_tl() {
    let (e1, _) = ok_parse(b"hd(nil)");
    assert!(expr_eq(&e1, &Expression::Hd(Box::new(Expression::Nil))));
    let (e2, _) = ok_parse(b"tl(nil)");
    assert!(expr_eq(&e2, &Expression::Tl(Box::new(Expression::Nil))));
}

#[test]
fn cons_onto_nil() {
    let (e, _) = ok_parse(b"1::nil");
    assert!(expr_eq(&e, &mk_cons(num_e(1), Expression::Nil)));
}

#[test]
fn eq_of_numbers() {
    let (e, _) = ok_parse(b"1==2");
    assert!(expr_eq(&e, &mk_eq(num_e(1), num_e(2))));
}

#[test]
fn whitespace_between_tokens() {
    let (e, used) = ok_parse(b"  succ ( 1 )  ");
    assert!(expr_eq(&e, &Expression::Succ(Box::new(num_e(1)))));
    assert_eq!(used, 12);
}

#[test]
fn word_operator_needs_a_boundary() {
    let (e, used) = ok_parse(b"a andb");
    assert!(expr_eq(&e, &mk_apply(var_e("a"), var_e("andb"))));
    assert_eq!(used, 6);
}

#[test]
fn largest_literal_fits() {
    let (e, _) = ok_parse(b"9223372036854775807");
    assert!(expr_eq(&e, &num_e(i64::MAX)));
}

#[test]
fn oversized_literal_is_rejected() {
    let r = parser(b"9223372036854775808");
    assert_eq!(r.unwrap_err(), ParseError { kind: ErrorKind::UnexpectedToken, pos: 0 });
}

#[test]
fn depth_bound_is_reported() {
    let r = parser_with_depth(b"x", 3);
    assert_eq!(r.unwrap_err(), ParseError { kind: ErrorKind::DepthExceeded, pos: 0 });
}

#[test]
fn deep_nesting_parses_within_default_bound() {
    let mut text: Vec<u8> = Vec::new();
    for _ in 0..50 {
        text.push(b'(');
    }
    text.push(b'x');
    for _ in 0..50 {
        text.push(b')');
    }
    let (e, used) = ok_parse(&text);
    assert!(expr_eq(&e, &var_e("x")));
    assert_eq!(used, 101);
}

#[test]
fn parsing_twice_is_deterministic() {
    let input: &[u8] = b"let x = 1 in x+x";
    let (e1, used1) = ok_parse(input);
    let (e2, used2) = ok_parse(input);
    assert!(expr_eq(&e1, &e2));
    assert_eq!(used1, used2);
    let bad: &[u8] = b"if a then b";
    assert_eq!(parser(bad).unwrap_err(), parser(bad).unwrap_err());
}

#[test]
fn remainder_reparses_without_residual_state() {
    let input: &[u8] = b"a,b";
    let (e, used) = ok_parse(input);
    assert!(expr_eq(&e, &var_e("a")));
    assert_eq!(used, 1);
    let again = parser(&input[used..]);
    let fresh = parser(b",b");
    assert_eq!(again.unwrap_err(), fresh.unwrap_err());
}

#[test]
fn reserved_word_alone_is_rejected() {
    let r = parser(b"and");
    assert_eq!(r.unwrap_err(), ParseError { kind: ErrorKind::UnexpectedToken, pos: 0 });
}
