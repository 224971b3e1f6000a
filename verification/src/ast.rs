//! The parse-level tree: definitions and expressions, untyped.

use vstd::prelude::*;
use crate::names::{ClassFirstname, ConstFirstname, MethodFirstname};

verus! {

/// A parsed program: all top-level definitions, then all top-level
/// expressions. The parser never mixes the two (definitions are consumed
/// first), so the partition is part of the data shape.
#[derive(Debug, PartialEq)]
pub struct Program {
    pub toplevel_defs: Vec<Definition>,
    pub exprs: Vec<Expression>,
}

/// A definition. Class definitions may nest further definitions; the
/// leaves are initializers, instance methods, class methods and constants.
#[derive(Debug, PartialEq)]
pub enum Definition {
    ClassDefinition {
        name: ClassFirstname,
        superclass_name: Option<ClassFirstname>,
        defs: Vec<Definition>,
    },
    InitializerDefinition {
        sig: InitializerSig,
        body_exprs: Vec<Expression>,
    },
    InstanceMethodDefinition {
        sig: MethodSignature,
        body_exprs: Vec<Expression>,
    },
    ClassMethodDefinition {
        sig: MethodSignature,
        body_exprs: Vec<Expression>,
    },
    ConstDefinition {
        name: ConstFirstname,
        expr: Expression,
    },
}

impl Definition {
    /// Whether this is the `initialize` definition of a class body.
    pub fn is_initializer(&self) -> (r: bool)
        ensures
            r == (self is InitializerDefinition),
    {
        match self {
            Definition::InitializerDefinition { .. } => true,
            _ => false,
        }
    }
}

/// A method signature as written: name, ordered parameters with declared
/// types, declared return type.
#[derive(Debug, PartialEq)]
pub struct MethodSignature {
    pub name: MethodFirstname,
    pub params: Vec<Param>,
    pub ret_typ: Typ,
}

/// The signature of an `initialize` definition (its name is fixed).
#[derive(Debug, PartialEq)]
pub struct InitializerSig {
    pub params: Vec<IParam>,
    pub ret_typ: Typ,
}

/// A declared method parameter.
#[derive(Debug, PartialEq)]
pub struct Param {
    pub name: String,
    pub typ: Typ,
}

/// A declared initializer parameter.
#[derive(Debug, PartialEq)]
pub struct IParam {
    pub name: String,
    pub typ: Typ,
}

/// A type name as written in a signature.
#[derive(Debug, PartialEq)]
pub struct Typ {
    pub name: String,
}

/// An expression node. `primary` is true iff the node has no ambiguity
/// with paren-less call extension.
#[derive(Debug, PartialEq)]
pub struct Expression {
    pub body: ExpressionBody,
    pub primary: bool,
}

/// The expression variants. A float literal carries its lexeme; its
/// numeric value is the back end's concern.
#[derive(Debug, PartialEq)]
pub enum ExpressionBody {
    LogicalNot {
        expr: Box<Expression>,
    },
    LogicalAnd {
        left: Box<Expression>,
        right: Box<Expression>,
    },
    LogicalOr {
        left: Box<Expression>,
        right: Box<Expression>,
    },
    If {
        cond_expr: Box<Expression>,
        then_expr: Box<Expression>,
        else_expr: Option<Box<Expression>>,
    },
    MethodCall {
        receiver_expr: Option<Box<Expression>>,
        method_name: MethodFirstname,
        arg_exprs: Vec<Expression>,
        may_have_paren_wo_args: bool,
    },
    /// Local variable reference or method call with implicit receiver.
    BareName(String),
    ConstRef(String),
    SelfExpr,
    TrueLiteral,
    FalseLiteral,
    StringLiteral {
        value: String,
    },
    FloatLiteral {
        lexeme: String,
    },
    DecimalLiteral {
        value: i32,
    },
    IVarRef(String),
    IVarAssign {
        name: String,
        rhs: Box<Expression>,
    },
}

/// The table behind [`Expression::may_have_paren_wo_args`].
pub open spec fn may_have_paren_wo_args_spec(e: Expression) -> bool {
    match e.body {
        ExpressionBody::MethodCall { may_have_paren_wo_args, .. } => may_have_paren_wo_args,
        ExpressionBody::BareName(_) => true,
        _ => false,
    }
}

impl Expression {
    /// Whether the node may still take paren-less arguments (a bare name,
    /// or a call written without parentheses and without arguments).
    pub fn may_have_paren_wo_args(&self) -> (r: bool)
        ensures
            r == may_have_paren_wo_args_spec(*self),
    {
        match &self.body {
            ExpressionBody::MethodCall { may_have_paren_wo_args, .. } => *may_have_paren_wo_args,
            ExpressionBody::BareName(_) => true,
            _ => false,
        }
    }
}

pub fn logical_not(expr: Expression) -> (r: Expression)
    ensures
        !r.primary,
        r.body matches ExpressionBody::LogicalNot { expr: e } && *e == expr,
{
    non_primary_expression(
        ExpressionBody::LogicalNot { expr: Box::new(expr) },
    )
}

pub fn logical_and(left: Expression, right: Expression) -> (r: Expression)
    ensures
        !r.primary,
        r.body matches ExpressionBody::LogicalAnd { left: l, right: rr } && *l == left && *rr
            == right,
{
    non_primary_expression(
        ExpressionBody::LogicalAnd { left: Box::new(left), right: Box::new(right) },
    )
}

pub fn logical_or(left: Expression, right: Expression) -> (r: Expression)
    ensures
        !r.primary,
        r.body matches ExpressionBody::LogicalOr { left: l, right: rr } && *l == left && *rr
            == right,
{
    non_primary_expression(
        ExpressionBody::LogicalOr { left: Box::new(left), right: Box::new(right) },
    )
}

pub fn if_expr(cond_expr: Expression, then_expr: Expression, else_expr: Option<Expression>) -> (r:
    Expression)
    ensures
        !r.primary,
        r.body matches ExpressionBody::If { cond_expr: c, then_expr: t, else_expr: e } && *c
            == cond_expr && *t == then_expr,
        r.body->If_else_expr is Some <==> else_expr is Some,
        else_expr matches Some(x) ==> r.body->If_else_expr matches Some(b) && *b == x,
{
    let else_boxed = match else_expr {
        Some(e) => Some(Box::new(e)),
        None => None,
    };
    non_primary_expression(
        ExpressionBody::If {
            cond_expr: Box::new(cond_expr),
            then_expr: Box::new(then_expr),
            else_expr: else_boxed,
        },
    )
}

pub fn method_call(
    receiver_expr: Option<Expression>,
    method_name: &str,
    arg_exprs: Vec<Expression>,
    primary: bool,
    may_have_paren_wo_args: bool,
) -> (r: Expression)
    ensures
        r.primary == primary,
        r.body matches ExpressionBody::MethodCall {
            receiver_expr: re,
            method_name: m,
            arg_exprs: a,
            may_have_paren_wo_args: p,
        } && m@ == method_name@ && a == arg_exprs && p == may_have_paren_wo_args && (re is Some
            <==> receiver_expr is Some) && (receiver_expr matches Some(x) ==> re matches Some(b)
            && *b == x),
{
    let receiver_boxed = match receiver_expr {
        Some(e) => Some(Box::new(e)),
        None => None,
    };
    Expression {
        primary,
        body: ExpressionBody::MethodCall {
            receiver_expr: receiver_boxed,
            method_name: MethodFirstname(method_name.to_owned()),
            arg_exprs,
            may_have_paren_wo_args,
        },
    }
}

pub fn bare_name(name: &str) -> (r: Expression)
    ensures
        r.primary,
        r.body matches ExpressionBody::BareName(s) && s@ == name@,
{
    primary_expression(ExpressionBody::BareName(name.to_owned()))
}

pub fn const_ref(name: &str) -> (r: Expression)
    ensures
        r.primary,
        r.body matches ExpressionBody::ConstRef(s) && s@ == name@,
{
    primary_expression(ExpressionBody::ConstRef(name.to_owned()))
}

/// Lower a binary operator to a method call on the left operand.
pub fn bin_op_expr(left: Expression, op: &str, right: Expression) -> (r: Expression)
    ensures
        !r.primary,
        r.body matches ExpressionBody::MethodCall {
            receiver_expr: re,
            method_name: m,
            arg_exprs: a,
            may_have_paren_wo_args: p,
        } && m@ == op@ && !p && (re matches Some(b) && *b == left) && a@.len() == 1 && a@[0]
            == right,
{
    Expression {
        primary: false,
        body: ExpressionBody::MethodCall {
            receiver_expr: Some(Box::new(left)),
            method_name: MethodFirstname(op.to_owned()),
            arg_exprs: vec![right],
            may_have_paren_wo_args: false,
        },
    }
}

pub fn self_expression() -> (r: Expression)
    ensures
        r.primary,
        r.body is SelfExpr,
{
    primary_expression(ExpressionBody::SelfExpr)
}

pub fn float_literal(lexeme: &str) -> (r: Expression)
    ensures
        r.primary,
        r.body matches ExpressionBody::FloatLiteral { lexeme: s } && s@ == lexeme@,
{
    primary_expression(ExpressionBody::FloatLiteral { lexeme: lexeme.to_owned() })
}

pub fn decimal_literal(value: i32) -> (r: Expression)
    ensures
        r.primary,
        r.body matches ExpressionBody::DecimalLiteral { value: v } && v == value,
{
    primary_expression(ExpressionBody::DecimalLiteral { value })
}

pub fn primary_expression(body: ExpressionBody) -> (r: Expression)
    ensures
        r.primary,
        r.body == body,
{
    Expression { primary: true, body }
}

pub fn non_primary_expression(body: ExpressionBody) -> (r: Expression)
    ensures
        !r.primary,
        r.body == body,
{
    Expression { primary: false, body }
}

/// Extend `foo.bar` to `foo.bar args` (a paren-less call). The node must
/// be a method call that has no arguments yet, or a bare name.
pub fn set_method_call_args(expr: Expression, args: Vec<Expression>) -> (r: Expression)
    requires
        (expr.body matches ExpressionBody::MethodCall { arg_exprs, .. } && arg_exprs@.len() == 0)
            || expr.body is BareName,
    ensures
        !r.primary,
        r.body matches ExpressionBody::MethodCall {
            receiver_expr: re,
            method_name: m,
            arg_exprs: a,
            may_have_paren_wo_args: p,
        } && a == args && !p,
        expr.body matches ExpressionBody::MethodCall { receiver_expr: re0, method_name: m0, .. }
            ==> r.body->MethodCall_receiver_expr == re0 && r.body->MethodCall_method_name == m0,
        expr.body matches ExpressionBody::BareName(s)
            ==> r.body->MethodCall_receiver_expr is None
            && r.body->MethodCall_method_name@ == s@,
{
    match expr.body {
        ExpressionBody::MethodCall { receiver_expr, method_name, arg_exprs: _, .. } => {
            Expression {
                primary: false,
                body: ExpressionBody::MethodCall {
                    receiver_expr,
                    method_name,
                    arg_exprs: args,
                    may_have_paren_wo_args: false,
                },
            }
        },
        ExpressionBody::BareName(s) => {
            Expression {
                primary: false,
                body: ExpressionBody::MethodCall {
                    receiver_expr: None,
                    method_name: MethodFirstname(s),
                    arg_exprs: args,
                    may_have_paren_wo_args: false,
                },
            }
        },
        _ => {
            // excluded by the precondition; present only so the match
            // is total
            Expression {
                primary: false,
                body: ExpressionBody::MethodCall {
                    receiver_expr: None,
                    method_name: MethodFirstname(String::new()),
                    arg_exprs: args,
                    may_have_paren_wo_args: false,
                },
            }
        },
    }
}

} // verus!
