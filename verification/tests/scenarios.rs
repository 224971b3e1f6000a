//! End-to-end scenarios: source text through parsing, dictionary
//! construction and lowering.

use shiika::ast::ExpressionBody;
use shiika::class_dict::ClassDict;
use shiika::corelib::Corelib;
use shiika::error::ErrorKind;
use shiika::hir::{HirExpressionBase, SkMethodBody};
use shiika::parser::Parser;
use shiika::ty::TermTy;

fn compile_ok(src: &str) -> shiika::hir::Hir {
    match shiika::compile(src) {
        Ok(h) => h,
        Err(e) => panic!("compilation failed: {:?} {}", e.kind, e.msg),
    }
}

fn compile_err(src: &str) -> shiika::error::Error {
    match shiika::compile(src) {
        Ok(_) => panic!("compilation unexpectedly succeeded"),
        Err(e) => e,
    }
}

fn raw_name(t: &TermTy) -> &str {
    match t {
        TermTy::Raw { fullname } => fullname.0.as_str(),
        TermTy::Meta { base_fullname } => panic!("expected Raw, got Meta of {}", base_fullname.0),
    }
}

#[test]
fn one_plus_two_is_a_call_of_plus_on_int() {
    let hir = compile_ok("1 + 2");
    assert_eq!(hir.main_exprs.exprs.len(), 1);
    let e = &hir.main_exprs.exprs[0];
    assert_eq!(raw_name(&e.ty), "Int");
    match &e.node {
        HirExpressionBase::HirMethodCall { receiver_expr, method_fullname, arg_exprs } => {
            assert_eq!(method_fullname.0, "Int#+");
            match &receiver_expr.node {
                HirExpressionBase::HirDecimalLiteral { value } => assert_eq!(*value, 1),
                n => panic!("receiver is not a decimal literal: {:?}", n),
            }
            assert_eq!(arg_exprs.len(), 1);
            match &arg_exprs[0].node {
                HirExpressionBase::HirDecimalLiteral { value } => assert_eq!(*value, 2),
                n => panic!("argument is not a decimal literal: {:?}", n),
            }
        }
        n => panic!("not a method call: {:?}", n),
    }
}

#[test]
fn if_branches_unify_to_the_common_ancestor() {
    let hir = compile_ok("if true then 1 else 1.0 end");
    assert_eq!(hir.main_exprs.exprs.len(), 1);
    let e = &hir.main_exprs.exprs[0];
    match &e.node {
        HirExpressionBase::HirIfExpression { then_expr, else_expr, .. } => {
            assert_eq!(raw_name(&then_expr.ty), "Int");
            assert_eq!(raw_name(&else_expr.ty), "Float");
        }
        n => panic!("not an if expression: {:?}", n),
    }
    assert_eq!(raw_name(&e.ty), "Object");
}

#[test]
fn class_with_method_and_call_chain() {
    let hir = compile_ok("class A; def f -> Int; 42; end; end\nA.new.f");
    assert_eq!(hir.main_exprs.exprs.len(), 1);
    let e = &hir.main_exprs.exprs[0];
    assert_eq!(raw_name(&e.ty), "Int");
    // the class constant is materialized before main
    let has_a_init = hir.const_inits.iter().any(|ci| match &ci.node {
        HirExpressionBase::HirConstAssign { fullname, .. } => fullname.0 == "::A",
        _ => false,
    });
    assert!(has_a_init);
    // the compiled method A#f exists
    let has_f = hir
        .sk_methods
        .iter()
        .any(|m| m.signature.fullname.0 == "A#f");
    assert!(has_f);
}

#[test]
fn initializer_defines_ivars_and_new_mirrors_it() {
    let hir = compile_ok(
        "class A; def initialize(x: Int); @x = x; end; def get -> Int; @x; end; end",
    );
    let a = hir
        .sk_classes
        .iter()
        .find(|c| c.fullname.0 == "A")
        .expect("class A is registered");
    assert_eq!(a.ivars.len(), 1);
    assert_eq!(a.ivars[0].name, "x");
    assert_eq!(a.ivars[0].idx, 0);
    assert_eq!(raw_name(&a.ivars[0].ty), "Int");
    let new_m = hir
        .sk_methods
        .iter()
        .find(|m| m.signature.fullname.0 == "Meta:A#.new")
        .expect("Meta:A#.new is synthesized");
    assert_eq!(new_m.signature.params.len(), 1);
    assert_eq!(new_m.signature.params[0].name, "x");
    assert_eq!(raw_name(&new_m.signature.params[0].ty), "Int");
    assert_eq!(raw_name(&new_m.signature.ret_ty), "A");
    match &new_m.body {
        SkMethodBody::SynthesizedNew { allocates, calls, bitcast_to, arity } => {
            assert_eq!(allocates.0, "A");
            assert_eq!(calls.0, "A#initialize");
            assert!(bitcast_to.is_none());
            assert_eq!(*arity, 1);
        }
        b => panic!("not a synthesized new: {:?}", b),
    }
}

#[test]
fn inheritance_chain_reaches_object() {
    let src = "class A; end\nclass B < A; end\nB.new";
    let prog = Parser::parse(src).expect("parses");
    let corelib = Corelib::create();
    let dict = ClassDict::create(&prog, corelib.sk_classes).expect("dictionary builds");
    let b = shiika::ty::raw("B");
    let chain = dict.ancestor_types(&b);
    let names: Vec<&str> = chain.iter().map(|t| raw_name(t)).collect();
    assert_eq!(names, ["B", "A", "Object"]);
    // and the whole program still compiles
    let hir = compile_ok(src);
    assert_eq!(raw_name(&hir.main_exprs.exprs[0].ty), "B");
}

#[test]
fn body_type_must_conform_to_the_declared_return_type() {
    let e = compile_err("def f -> Int; \"hi\"; end");
    assert_eq!(e.kind, ErrorKind::TypeError);
}

#[test]
fn inherited_initialize_is_called_through_a_bitcast() {
    let hir = compile_ok(
        "class A; def initialize(x: Int); @x = x; end; end\nclass B < A; end\nB.new(5)",
    );
    let new_b = hir
        .sk_methods
        .iter()
        .find(|m| m.signature.fullname.0 == "Meta:B#.new")
        .expect("Meta:B#.new is synthesized");
    match &new_b.body {
        SkMethodBody::SynthesizedNew { allocates, calls, bitcast_to, arity } => {
            assert_eq!(allocates.0, "B");
            assert_eq!(calls.0, "A#initialize");
            assert_eq!(bitcast_to.as_ref().map(|c| c.0.as_str()), Some("A"));
            assert_eq!(*arity, 1);
        }
        b => panic!("not a synthesized new: {:?}", b),
    }
    // B inherits the ivar layout of A
    let b = hir.sk_classes.iter().find(|c| c.fullname.0 == "B").unwrap();
    assert_eq!(b.ivars.len(), 1);
    assert_eq!(b.ivars[0].name, "x");
}

#[test]
fn lowering_is_idempotent() {
    let src = "class A; def f -> Int; 1 + 2; end; end\nA.new.f\nif true then 1 else 2 end";
    let h1 = compile_ok(src);
    let h2 = compile_ok(src);
    assert_eq!(h1.sk_classes, h2.sk_classes);
    assert_eq!(h1.sk_methods, h2.sk_methods);
    assert_eq!(h1.constants, h2.constants);
    assert_eq!(h1.str_literals, h2.str_literals);
    assert_eq!(h1.const_inits, h2.const_inits);
    assert_eq!(h1.main_exprs, h2.main_exprs);
}

#[test]
fn parsing_is_deterministic() {
    let src = "class A; def f(a: Int) -> Int; a; end; end\nA.new.f(3)";
    let p1 = Parser::parse(src).expect("parses");
    let p2 = Parser::parse(src).expect("parses");
    assert_eq!(p1, p2);
}

#[test]
fn no_definition_may_follow_an_expression() {
    let e = compile_err("1 + 2\nclass A; end");
    assert_eq!(e.kind, ErrorKind::ParseError);
    assert_eq!(prog_err("42\ndef f -> Int; 1; end"), ErrorKind::ParseError);
}

fn prog_err(src: &str) -> ErrorKind {
    match Parser::parse(src) {
        Ok(_) => panic!("parse unexpectedly succeeded"),
        Err(e) => e.kind,
    }
}

#[test]
fn every_resolved_signature_references_known_classes() {
    let src = "class A; def initialize(x: Int); @x = x; end; def f(s: String) -> Bool; true; end; end";
    let prog = Parser::parse(src).expect("parses");
    let corelib = Corelib::create();
    let dict = ClassDict::create(&prog, corelib.sk_classes).expect("dictionary builds");
    for c in dict.sk_classes.iter() {
        for sig in c.method_sigs.iter() {
            assert!(dict.class_exists(&sig.ret_ty.fullname().0));
            for p in sig.params.iter() {
                assert!(dict.class_exists(&p.ty.fullname().0));
            }
        }
    }
}

#[test]
fn subtyping_accepts_upcasts_and_rejects_downcasts() {
    let src = "class A; end\nclass B < A; end";
    let prog = Parser::parse(src).expect("parses");
    let corelib = Corelib::create();
    let dict = ClassDict::create(&prog, corelib.sk_classes).expect("dictionary builds");
    let b = shiika::ty::raw("B");
    let a = shiika::ty::raw("A");
    let obj = shiika::ty::raw("Object");
    assert!(dict.conforms(&b, &obj));
    assert!(dict.conforms(&b, &a));
    assert!(dict.conforms(&b, &b));
    assert!(!dict.conforms(&obj, &b));
    assert!(!dict.conforms(&a, &b));
}

#[test]
fn branch_unification_picks_the_nearest_common_ancestor() {
    let src = "class A; end\nclass B < A; end\nclass C < A; end";
    let prog = Parser::parse(src).expect("parses");
    let corelib = Corelib::create();
    let dict = ClassDict::create(&prog, corelib.sk_classes).expect("dictionary builds");
    let b = shiika::ty::raw("B");
    let c = shiika::ty::raw("C");
    let t = dict.nearest_common_ancestor(&b, &c);
    assert_eq!(t.fullname().0, "A");
    let t2 = dict.nearest_common_ancestor(&b, &b);
    assert_eq!(t2.fullname().0, "B");
    let int_t = shiika::ty::raw("Int");
    let float_t = shiika::ty::raw("Float");
    let t3 = dict.nearest_common_ancestor(&int_t, &float_t);
    assert_eq!(t3.fullname().0, "Object");
}

#[test]
fn error_kinds_cover_the_failure_modes() {
    // LexError: unterminated string
    assert_eq!(compile_err("\"oops").kind, ErrorKind::LexError);
    // ParseError: missing end
    assert_eq!(compile_err("class A").kind, ErrorKind::ParseError);
    // NameError: unknown constant
    assert_eq!(compile_err("NoSuch").kind, ErrorKind::NameError);
    // NameError: unknown superclass
    assert_eq!(compile_err("class A < NoSuch; end").kind, ErrorKind::NameError);
    // TypeError: if condition is not a Bool
    assert_eq!(compile_err("if 1 then 2 else 3 end").kind, ErrorKind::TypeError);
    // ProgramError: duplicate class
    assert_eq!(
        compile_err("class A; end\nclass A; end").kind,
        ErrorKind::ProgramError
    );
    // ProgramError: method not found anywhere on the chain
    assert_eq!(compile_err("1.no_such_method").kind, ErrorKind::ProgramError);
}

#[test]
fn constants_and_string_literals_are_collected() {
    let hir = compile_ok("X = 42\n\"hello\"");
    let x = hir.constants.iter().find(|(n, _)| n.0 == "::X");
    assert!(x.is_some());
    assert_eq!(raw_name(&x.unwrap().1), "Int");
    assert!(hir.str_literals.iter().any(|s| s == "hello"));
    // class constants for the core classes are materialized too
    assert!(hir.constants.iter().any(|(n, _)| n.0 == "::Object"));
    assert!(hir.constants.iter().any(|(n, _)| n.0 == "::Int"));
}

#[test]
fn constants_in_a_class_are_namespace_qualified() {
    let hir = compile_ok("class A; X = 7; end\nY = 8");
    assert!(hir.constants.iter().any(|(n, _)| n.0 == "A::X"));
    assert!(hir.constants.iter().any(|(n, _)| n.0 == "::Y"));
}
