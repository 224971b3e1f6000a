//! Unit tests: tokens, names, types, the lexer's operator
//! disambiguation, the parser's literals and paren-less calls.

use shiika::ast::{Expression, ExpressionBody};
use shiika::error::ErrorKind;
use shiika::lexer::lex;
use shiika::names::{ClassFirstname, ClassFullname, method_fullname};
use shiika::parser::Parser;
use shiika::token::Token;
use shiika::ty::TermTy;

#[test]
fn value_starts_follows_the_table() {
    assert!(Token::upper_word("Array").value_starts());
    assert!(Token::lower_word("foo").value_starts());
    assert!(Token::number("12").value_starts());
    assert!(Token::LParen.value_starts());
    assert!(Token::UnaryPlus.value_starts());
    assert!(Token::KwIf.value_starts());
    assert!(Token::KwTrue.value_starts());
    assert!(!Token::RParen.value_starts());
    assert!(!Token::BinaryPlus.value_starts());
    assert!(!Token::Separator.value_starts());
    assert!(!Token::KwEnd.value_starts());
    assert!(!Token::Comma.value_starts());
}

#[test]
fn plus_after_a_value_is_binary() {
    let ts = lex("1 + 2").expect("lexes");
    assert!(ts.contains(&Token::BinaryPlus));
    assert!(!ts.contains(&Token::UnaryPlus));
}

#[test]
fn plus_after_an_open_paren_is_unary() {
    let ts = lex("f(+1)").expect("lexes");
    assert!(ts.contains(&Token::UnaryPlus));
    assert!(!ts.contains(&Token::BinaryPlus));
}

#[test]
fn minus_disambiguation_depends_only_on_the_preceding_token() {
    // after a word (a value): binary, even without spaces around it
    let a = lex("a -1").expect("lexes");
    assert!(a.contains(&Token::BinaryMinus));
    // after a separator: unary
    let b = lex("x\n-1").expect("lexes");
    assert!(b.contains(&Token::UnaryMinus));
    // after a closing paren: binary
    let c = lex(") - 1").expect("lexes");
    assert!(c.contains(&Token::BinaryMinus));
}

#[test]
fn the_stream_is_framed_by_bof_and_eof() {
    let ts = lex("42").expect("lexes");
    assert_eq!(ts[0], Token::Bof);
    assert_eq!(ts[ts.len() - 1], Token::Eof);
}

#[test]
fn meta_names_wrap_class_names() {
    let c = ClassFullname("A".to_string());
    assert!(!c.is_meta());
    let m = c.meta_name();
    assert_eq!(m.0, "Meta:A");
    assert!(m.is_meta());
}

#[test]
fn namespaces_qualify_first_names() {
    let f = ClassFirstname("B".to_string());
    assert_eq!(f.add_namespace("").0, "B");
    assert_eq!(f.add_namespace("A").0, "A::B");
    let mf = method_fullname(&ClassFullname("A".to_string()), "foo");
    assert_eq!(mf.0, "A#foo");
}

#[test]
fn term_types_compare_by_variant_and_name() {
    let a = shiika::ty::raw("A");
    let b = shiika::ty::raw("A");
    let m = shiika::ty::meta("A");
    assert!(a.equals(&b));
    assert!(!a.equals(&m));
    assert_eq!(a.fullname().0, "A");
    assert_eq!(m.fullname().0, "Meta:A");
    let mm = a.meta_ty();
    assert!(mm.equals(&m));
    let back = mm.instance_ty();
    assert!(back.equals(&a));
}

fn parse_one_expr(src: &str) -> Expression {
    let mut prog = Parser::parse(src).expect("parses");
    assert_eq!(prog.exprs.len(), 1);
    prog.exprs.pop().unwrap()
}

#[test]
fn operators_lower_to_method_calls() {
    let e = parse_one_expr("1 + 2 * 3");
    match e.body {
        ExpressionBody::MethodCall { method_name, arg_exprs, .. } => {
            assert_eq!(method_name.0, "+");
            assert_eq!(arg_exprs.len(), 1);
            match &arg_exprs[0].body {
                ExpressionBody::MethodCall { method_name, .. } => {
                    assert_eq!(method_name.0, "*");
                }
                b => panic!("precedence was not respected: {:?}", b),
            }
        }
        b => panic!("not a method call: {:?}", b),
    }
}

#[test]
fn paren_less_calls_take_their_arguments() {
    let e = parse_one_expr("foo 1, 2");
    match e.body {
        ExpressionBody::MethodCall { receiver_expr, method_name, arg_exprs, .. } => {
            assert!(receiver_expr.is_none());
            assert_eq!(method_name.0, "foo");
            assert_eq!(arg_exprs.len(), 2);
        }
        b => panic!("not a method call: {:?}", b),
    }
}

#[test]
fn decimal_literals_fit_i32_or_are_rejected() {
    let e = parse_one_expr("2147483647");
    assert_eq!(
        e.body,
        ExpressionBody::DecimalLiteral { value: 2147483647 }
    );
    let e2 = parse_one_expr("-5");
    assert_eq!(e2.body, ExpressionBody::DecimalLiteral { value: -5 });
    match Parser::parse("2147483648") {
        Ok(_) => panic!("an out-of-range literal parsed"),
        Err(err) => assert_eq!(err.kind, ErrorKind::ParseError),
    }
}

#[test]
fn float_literals_keep_their_lexeme() {
    let e = parse_one_expr("1.5");
    assert_eq!(
        e.body,
        ExpressionBody::FloatLiteral { lexeme: "1.5".to_string() }
    );
}

#[test]
fn logical_keywords_lower_like_their_symbols() {
    let a = parse_one_expr("true and false");
    let b = parse_one_expr("true && false");
    assert_eq!(a, b);
    let c = parse_one_expr("true or false");
    let d = parse_one_expr("true || false");
    assert_eq!(c, d);
    match a.body {
        ExpressionBody::LogicalAnd { .. } => {}
        e => panic!("not a logical and: {:?}", e),
    }
}

#[test]
fn an_if_without_else_is_typed_void() {
    let hir = shiika::compile("if true then 1 end").expect("compiles");
    let e = &hir.main_exprs.exprs[0];
    match &e.ty {
        TermTy::Raw { fullname } => assert_eq!(fullname.0, "Void"),
        t => panic!("unexpected type: {:?}", t),
    }
    match &e.node {
        shiika::hir::HirExpressionBase::HirIfExpression { else_expr, .. } => {
            match else_expr.node {
                shiika::hir::HirExpressionBase::HirNop => {}
                ref n => panic!("missing else did not become a nop: {:?}", n),
            }
        }
        n => panic!("not an if: {:?}", n),
    }
}

#[test]
fn logical_not_lowers_to_a_conditional() {
    let hir = shiika::compile("not true").expect("compiles");
    let e = &hir.main_exprs.exprs[0];
    match &e.node {
        shiika::hir::HirExpressionBase::HirIfExpression { then_expr, else_expr, .. } => {
            assert_eq!(
                then_expr.node,
                shiika::hir::HirExpressionBase::HirBooleanLiteral { value: false }
            );
            assert_eq!(
                else_expr.node,
                shiika::hir::HirExpressionBase::HirBooleanLiteral { value: true }
            );
        }
        n => panic!("negation did not lower to an if: {:?}", n),
    }
}

#[test]
fn comments_and_separators_are_skipped() {
    let hir = shiika::compile("# a comment\n1 + 2 # trailing\n").expect("compiles");
    assert_eq!(hir.main_exprs.exprs.len(), 1);
}

#[test]
fn self_is_rejected_at_the_top_level() {
    match shiika::compile("self") {
        Ok(_) => panic!("`self` compiled at the top level"),
        Err(e) => assert_eq!(e.kind, ErrorKind::TypeError),
    }
}

#[test]
fn unknown_bare_names_are_rejected_at_the_top_level() {
    match shiika::compile("nonexistent") {
        Ok(_) => panic!("an unknown name compiled"),
        Err(e) => assert_eq!(e.kind, ErrorKind::NameError),
    }
}

#[test]
fn an_empty_program_compiles_to_no_main_expressions() {
    let hir = shiika::compile("").expect("compiles");
    assert_eq!(hir.main_exprs.exprs.len(), 0);
    // the core classes are still present
    assert!(hir.sk_classes.iter().any(|c| c.fullname.0 == "Object"));
}

#[test]
fn nested_classes_are_namespaced() {
    let hir = shiika::compile("class A; class B; end; end").expect("compiles");
    assert!(hir.sk_classes.iter().any(|c| c.fullname.0 == "A"));
    assert!(hir.sk_classes.iter().any(|c| c.fullname.0 == "A::B"));
    assert!(hir.sk_classes.iter().any(|c| c.fullname.0 == "Meta:A::B"));
}

#[test]
fn unless_negates_the_condition() {
    let hir = shiika::compile("unless false then 1 end").expect("compiles");
    let e = &hir.main_exprs.exprs[0];
    match &e.node {
        shiika::hir::HirExpressionBase::HirIfExpression { cond_expr, .. } => {
            // the negated condition is itself a lowered conditional
            match cond_expr.node {
                shiika::hir::HirExpressionBase::HirIfExpression { .. } => {}
                ref n => panic!("the unless condition was not negated: {:?}", n),
            }
        }
        n => panic!("not an if: {:?}", n),
    }
}

#[test]
fn class_methods_live_on_the_metaclass() {
    let hir = shiika::compile("class A; def self.make -> Int; 7; end; end").expect("compiles");
    assert!(hir
        .sk_methods
        .iter()
        .any(|m| m.signature.fullname.0 == "Meta:A#make"));
}

#[test]
fn a_plus_after_a_name_stays_binary_even_before_a_literal() {
    // `f +1`: `f` can end a value, so the `+` reads as binary and the
    // whole line is the call `f.+(1)` on the unknown name `f`
    let prog = Parser::parse("f +1").expect("parses");
    match &prog.exprs[0].body {
        ExpressionBody::MethodCall { method_name, receiver_expr, .. } => {
            assert_eq!(method_name.0, "+");
            assert!(receiver_expr.is_some());
        }
        b => panic!("not a call: {:?}", b),
    }
}

#[test]
fn methods_may_be_named_like_operators() {
    let hir = shiika::compile("class A; def +(other: Int) -> Int; other; end; end\nA.new + 3")
        .expect("compiles");
    let e = &hir.main_exprs.exprs[0];
    match &e.node {
        shiika::hir::HirExpressionBase::HirMethodCall { method_fullname, .. } => {
            assert_eq!(method_fullname.0, "A#+");
        }
        n => panic!("not a call: {:?}", n),
    }
}

#[test]
fn the_void_constant_is_registered_last() {
    let hir = shiika::compile("1").expect("compiles");
    let last = hir.constants.last().expect("constants are not empty");
    assert_eq!(last.0 .0, "::Void");
    assert_eq!(last.1.fullname().0, "Void");
}

#[test]
fn arity_and_argument_types_are_checked() {
    let e = shiika::compile("class A; def f(x: Int) -> Int; x; end; end\nA.new.f").unwrap_err();
    assert_eq!(e.kind, ErrorKind::TypeError);
    let e2 = shiika::compile("class A; def f(x: Int) -> Int; x; end; end\nA.new.f(1.0)")
        .unwrap_err();
    assert_eq!(e2.kind, ErrorKind::TypeError);
    shiika::compile("class A; def f(x: Int) -> Int; x; end; end\nA.new.f(1)").expect("compiles");
}

#[test]
fn lex_errors_name_the_offending_position() {
    let e = match shiika::compile("ab \u{7}") {
        Ok(_) => panic!("a stray control character lexed"),
        Err(e) => e,
    };
    assert_eq!(e.kind, ErrorKind::LexError);
    assert!(e.msg.contains("at character 3"), "message was: {}", e.msg);
    let e2 = match shiika::compile("x = \"oops") {
        Ok(_) => panic!("an unterminated string lexed"),
        Err(e) => e,
    };
    assert_eq!(e2.kind, ErrorKind::LexError);
    assert!(e2.msg.contains("at character"), "message was: {}", e2.msg);
}

#[test]
fn the_empty_program_is_owed_success() {
    // also stated and proved as a postcondition of `compile`
    let hir = shiika::compile("").expect("compiles");
    assert_eq!(hir.main_exprs.exprs.len(), 0);
    assert_eq!(hir.constants.last().unwrap().0 .0, "::Void");
}
