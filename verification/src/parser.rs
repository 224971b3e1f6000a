//! The parser: recursive descent over the token stream, producing the
//! AST. Every non-terminal consumes leading whitespace before it
//! inspects tokens and leaves trailing whitespace untouched; the
//! top-level grammar consumes all definitions before any expression.

use vstd::prelude::*;
use crate::ast;
use crate::ast::{Definition, Expression, ExpressionBody, InitializerSig, IParam, Param, Typ};
use crate::error::{Error, ErrorKind, parse_error};
use crate::lexer;
use crate::names::{ClassFirstname, ConstFirstname, MethodFirstname};
use crate::token::Token;

verus! {

/// The token stream a parse runs over, and the cursor into it.
pub struct Lexer {
    pub tokens: Vec<Token>,
    pub pos: usize,
}

/// The parser: source text plus the lexed stream of the current parse.
pub struct Parser {
    pub src: String,
    pub lexer: Lexer,
}

impl Parser {
    /// A parser over the given source text.
    pub fn new(src: &str) -> (p: Parser)
        ensures
            p.src@ == src@,
    {
        Parser { src: src.to_owned(), lexer: Lexer { tokens: Vec::new(), pos: 0 } }
    }

    /// Parse a whole program: all definitions, then all top-level
    /// expressions, then end of input.
    pub fn parse(src: &str) -> (r: Result<ast::Program, Error>)
        ensures
            r matches Err(e) ==> (e.kind == ErrorKind::LexError || e.kind
                == ErrorKind::ParseError),
            src@.len() == 0 ==> (r matches Ok(p) && p.toplevel_defs@.len() == 0 && p.exprs@.len()
                == 0),
    {
        let mut parser = Parser::new(src);
        parser.parse_program()
    }

    /// Lex the stored source, then parse it as a program.
    pub fn parse_program(&mut self) -> (r: Result<ast::Program, Error>)
        ensures
            r matches Err(e) ==> (e.kind == ErrorKind::LexError || e.kind
                == ErrorKind::ParseError),
            old(self).src@.len() == 0 ==> (r matches Ok(p) && p.toplevel_defs@.len() == 0
                && p.exprs@.len() == 0),
            r is Ok ==> (final(self).lexer.pos == final(self).lexer.tokens@.len() || final(self).lexer.tokens@[final(self).lexer.pos as int] is Eof),
            r is Ok ==> crate::lexer::plus_minus_disambiguated(final(self).lexer.tokens@),
    {
        let ts = match lexer::lex(self.src.as_str()) {
            Ok(ts) => ts,
            Err(e) => {
                return Err(e);
            },
        };
        self.lexer = Lexer { tokens: ts, pos: 0 };
        // the stream opens with the `Bof` sentinel
        let p0 = skip_wsn(&self.lexer.tokens, 1);
        let (toplevel_defs, p1) = match p_definitions(&self.lexer.tokens, p0) {
            Ok(x) => x,
            Err(e) => {
                return Err(e);
            },
        };
        let (exprs, p2) = match p_exprs(&self.lexer.tokens, p1) {
            Ok(x) => x,
            Err(e) => {
                return Err(e);
            },
        };
        self.lexer.pos = p2;
        Ok(ast::Program { toplevel_defs, exprs })
    }
}

/// Skip `Space` tokens.
fn skip_ws(ts: &Vec<Token>, pos: usize) -> (r: usize)
    requires
        pos <= ts@.len(),
    ensures
        pos <= r <= ts@.len(),
        r < ts@.len() ==> !(ts@[r as int] is Space),
        pos < ts@.len() && !(ts@[pos as int] is Space) ==> r == pos,
{
    let n = ts.len();
    let mut p = pos;
    while p < n
        invariant
            n == ts@.len(),
            pos <= p <= n,
            pos < n && !(ts@[pos as int] is Space) ==> p == pos,
        decreases n - p,
    {
        match &ts[p] {
            Token::Space => {
                p = p + 1;
            },
            _ => {
                return p;
            },
        }
    }
    p
}

/// Skip `Space` and `Separator` tokens.
fn skip_wsn(ts: &Vec<Token>, pos: usize) -> (r: usize)
    requires
        pos <= ts@.len(),
    ensures
        pos <= r <= ts@.len(),
        r < ts@.len() ==> !(ts@[r as int] is Space) && !(ts@[r as int] is Separator),
        pos < ts@.len() && !(ts@[pos as int] is Space) && !(ts@[pos as int] is Separator) ==> r
            == pos,
{
    let n = ts.len();
    let mut p = pos;
    while p < n
        invariant
            n == ts@.len(),
            pos <= p <= n,
            pos < n && !(ts@[pos as int] is Space) && !(ts@[pos as int] is Separator) ==> p
                == pos,
        decreases n - p,
    {
        match &ts[p] {
            Token::Space => {
                p = p + 1;
            },
            Token::Separator => {
                p = p + 1;
            },
            _ => {
                return p;
            },
        }
    }
    p
}

/// The operator tokens that may name a method in a `def`, as text.
fn method_name_of_token(t: &Token) -> (r: Option<String>) {
    match t {
        Token::LowerWord(w) => Some(w.clone()),
        Token::BinaryPlus => Some("+".to_owned()),
        Token::UnaryPlus => Some("+".to_owned()),
        Token::BinaryMinus => Some("-".to_owned()),
        Token::UnaryMinus => Some("-".to_owned()),
        Token::Mul => Some("*".to_owned()),
        Token::Div => Some("/".to_owned()),
        Token::Mod => Some("%".to_owned()),
        Token::EqEq => Some("==".to_owned()),
        Token::NotEq => Some("!=".to_owned()),
        Token::LessThan => Some("<".to_owned()),
        Token::GreaterThan => Some(">".to_owned()),
        Token::LessEq => Some("<=".to_owned()),
        Token::GreaterEq => Some(">=".to_owned()),
        Token::UPlusMethod => Some("+@".to_owned()),
        Token::UMinusMethod => Some("-@".to_owned()),
        _ => None,
    }
}

/// Consume as many top-level definitions as possible. On success the
/// cursor rests on the first significant token that starts no
/// definition (so no definition follows the first expression).
fn p_definitions(ts: &Vec<Token>, pos: usize) -> (r: Result<(Vec<Definition>, usize), Error>)
    requires
        pos <= ts@.len(),
    ensures
        r matches Ok(x) ==> pos <= x.1 <= ts@.len() && (x.1 < ts@.len() ==> !(ts@[x.1 as int]
            is KwClass) && !(ts@[x.1 as int] is KwDef) && !(ts@[x.1 as int] is Space) && !(
        ts@[x.1 as int] is Separator)),
        pos < ts@.len() && ts@[pos as int] is Eof ==> (r matches Ok(x) && x.0@.len() == 0 && x.1
            == pos),
        r matches Err(e) ==> e.kind == ErrorKind::ParseError,
    decreases ts@.len() - pos, 12int,
{
    let n = ts.len();
    let mut defs: Vec<Definition> = Vec::new();
    let mut p = skip_wsn(ts, pos);
    loop
        invariant
            n == ts@.len(),
            pos <= p <= n,
            p < n ==> !(ts@[p as int] is Space) && !(ts@[p as int] is Separator),
            pos < n && ts@[pos as int] is Eof ==> p == pos && defs@.len() == 0,
        decreases n - p,
    {
        if p >= n {
            return Ok((defs, p));
        }
        let is_def = match &ts[p] {
            Token::KwClass => true,
            Token::KwDef => true,
            Token::UpperWord(_) => {
                // a constant definition iff an `=` follows the name
                let q = skip_ws(ts, p + 1);
                if q < n {
                    match &ts[q] {
                        Token::Equal => true,
                        _ => false,
                    }
                } else {
                    false
                }
            },
            _ => false,
        };
        if !is_def {
            return Ok((defs, p));
        }
        let (d, p2) = match p_definition(ts, p) {
            Ok(x) => x,
            Err(e) => {
                return Err(e);
            },
        };
        defs.push(d);
        p = skip_wsn(ts, p2);
    }
}

/// One definition: a class, a method (`initialize` included), or a
/// constant.
fn p_definition(ts: &Vec<Token>, pos: usize) -> (r: Result<(Definition, usize), Error>)
    requires
        pos < ts@.len(),
    ensures
        r matches Ok(x) ==> pos < x.1 <= ts@.len(),
        r matches Err(e) ==> e.kind == ErrorKind::ParseError,
    decreases ts@.len() - pos, 11int,
{
    match &ts[pos] {
        Token::KwClass => p_class_definition(ts, pos),
        Token::KwDef => p_method_definition(ts, pos),
        Token::UpperWord(_) => p_const_definition(ts, pos),
        _ => Err(parse_error("expected a definition")),
    }
}

/// `class Name (< Super)? <defs> end`
fn p_class_definition(ts: &Vec<Token>, pos: usize) -> (r: Result<(Definition, usize), Error>)
    requires
        pos < ts@.len(),
        ts@[pos as int] is KwClass,
    ensures
        r matches Ok(x) ==> pos < x.1 <= ts@.len(),
        r matches Err(e) ==> e.kind == ErrorKind::ParseError,
    decreases ts@.len() - pos, 10int,
{
    let n = ts.len();
    let mut p = skip_ws(ts, pos + 1);
    if p >= n {
        return Err(parse_error("expected a class name"));
    }
    let name = match &ts[p] {
        Token::UpperWord(w) => ClassFirstname(w.clone()),
        _ => {
            return Err(parse_error("expected a class name"));
        },
    };
    p = skip_ws(ts, p + 1);
    let mut superclass_name: Option<ClassFirstname> = None;
    if p < n {
        match &ts[p] {
            Token::LessThan => {
                let q = skip_ws(ts, p + 1);
                if q >= n {
                    return Err(parse_error("expected a superclass name"));
                }
                match &ts[q] {
                    Token::UpperWord(w) => {
                        superclass_name = Some(ClassFirstname(w.clone()));
                        p = q + 1;
                    },
                    _ => {
                        return Err(parse_error("expected a superclass name"));
                    },
                }
            },
            _ => {},
        }
    }
    let (defs, p2) = match p_definitions(ts, p) {
        Ok(x) => x,
        Err(e) => {
            return Err(e);
        },
    };
    if p2 >= n {
        return Err(parse_error("missing `end` of a class definition"));
    }
    match &ts[p2] {
        Token::KwEnd => Ok(
            (Definition::ClassDefinition { name, superclass_name, defs }, p2 + 1),
        ),
        _ => Err(parse_error("expected `end` of a class definition")),
    }
}

/// `Name = <expr>`
fn p_const_definition(ts: &Vec<Token>, pos: usize) -> (r: Result<(Definition, usize), Error>)
    requires
        pos < ts@.len(),
    ensures
        r matches Ok(x) ==> pos < x.1 <= ts@.len(),
        r matches Err(e) ==> e.kind == ErrorKind::ParseError,
    decreases ts@.len() - pos, 10int,
{
    let n = ts.len();
    let name = match &ts[pos] {
        Token::UpperWord(w) => ConstFirstname(w.clone()),
        _ => {
            return Err(parse_error("expected a constant name"));
        },
    };
    let p = skip_ws(ts, pos + 1);
    if p >= n {
        return Err(parse_error("expected `=` of a constant definition"));
    }
    match &ts[p] {
        Token::Equal => {},
        _ => {
            return Err(parse_error("expected `=` of a constant definition"));
        },
    }
    let q = skip_ws(ts, p + 1);
    if q >= n {
        return Err(parse_error("expected an expression after `=`"));
    }
    let (expr, p2) = match p_expr(ts, q) {
        Ok(x) => x,
        Err(e) => {
            return Err(e);
        },
    };
    Ok((Definition::ConstDefinition { name, expr }, p2))
}

/// `def (self.)? name ((params))? (-> Ret)? <sep> <body> end`
fn p_method_definition(ts: &Vec<Token>, pos: usize) -> (r: Result<(Definition, usize), Error>)
    requires
        pos < ts@.len(),
        ts@[pos as int] is KwDef,
    ensures
        r matches Ok(x) ==> pos < x.1 <= ts@.len(),
        r matches Err(e) ==> e.kind == ErrorKind::ParseError,
    decreases ts@.len() - pos, 10int,
{
    let n = ts.len();
    let mut p = skip_ws(ts, pos + 1);
    if p >= n {
        return Err(parse_error("expected a method name"));
    }
    // `def self.foo` defines a class method
    let mut is_class_method = false;
    match &ts[p] {
        Token::KwSelf => {
            if p + 1 < n {
                match &ts[p + 1] {
                    Token::Dot => {
                        is_class_method = true;
                        p = p + 2;
                    },
                    _ => {
                        return Err(parse_error("expected `.` after `self` in a method name"));
                    },
                }
            } else {
                return Err(parse_error("expected `.` after `self` in a method name"));
            }
        },
        _ => {},
    }
    if p >= n {
        return Err(parse_error("expected a method name"));
    }
    let name = match method_name_of_token(&ts[p]) {
        Some(w) => w,
        None => {
            return Err(parse_error("expected a method name"));
        },
    };
    p = p + 1;
    // parameter list
    let mut params: Vec<(String, String)> = Vec::new();
    if p < n {
        let has_paren = match &ts[p] {
            Token::LParen => true,
            _ => false,
        };
        if has_paren {
            let (ps, p2) = match p_params(ts, p + 1) {
                Ok(x) => x,
                Err(e) => {
                    return Err(e);
                },
            };
            params = ps;
            p = p2;
        }
    }
    // return type
    let mut ret_name = "Void".to_owned();
    let q = skip_ws(ts, p);
    if q < n {
        match &ts[q] {
            Token::RightArrow => {
                let q2 = skip_ws(ts, q + 1);
                if q2 >= n {
                    return Err(parse_error("expected a return type"));
                }
                match &ts[q2] {
                    Token::UpperWord(w) => {
                        ret_name = w.clone();
                        p = q2 + 1;
                    },
                    _ => {
                        return Err(parse_error("expected a return type"));
                    },
                }
            },
            _ => {
                p = q;
            },
        }
    } else {
        p = q;
    }
    // body up to `end`
    let (body_exprs, p3) = match p_body_exprs(ts, p) {
        Ok(x) => x,
        Err(e) => {
            return Err(e);
        },
    };
    if name == "initialize".to_owned() {
        let mut iparams: Vec<IParam> = Vec::new();
        let mut i: usize = 0;
        while i < params.len()
            invariant
                0 <= i <= params@.len(),
            decreases params@.len() - i,
        {
            let pname = params[i].0.clone();
            let tname = params[i].1.clone();
            iparams.push(IParam { name: pname, typ: Typ { name: tname } });
            i = i + 1;
        }
        let sig = InitializerSig { params: iparams, ret_typ: Typ { name: ret_name } };
        Ok((Definition::InitializerDefinition { sig, body_exprs }, p3))
    } else {
        let mut mparams: Vec<Param> = Vec::new();
        let mut i: usize = 0;
        while i < params.len()
            invariant
                0 <= i <= params@.len(),
            decreases params@.len() - i,
        {
            let pname = params[i].0.clone();
            let tname = params[i].1.clone();
            mparams.push(Param { name: pname, typ: Typ { name: tname } });
            i = i + 1;
        }
        let sig = ast::MethodSignature {
            name: MethodFirstname(name),
            params: mparams,
            ret_typ: Typ { name: ret_name },
        };
        if is_class_method {
            Ok((Definition::ClassMethodDefinition { sig, body_exprs }, p3))
        } else {
            Ok((Definition::InstanceMethodDefinition { sig, body_exprs }, p3))
        }
    }
}

/// `name: Type, ... )` (the opening paren is already consumed).
fn p_params(ts: &Vec<Token>, pos: usize) -> (r: Result<(Vec<(String, String)>, usize), Error>)
    requires
        pos <= ts@.len(),
    ensures
        r matches Ok(x) ==> pos <= x.1 <= ts@.len(),
        r matches Err(e) ==> e.kind == ErrorKind::ParseError,
{
    let n = ts.len();
    let mut params: Vec<(String, String)> = Vec::new();
    let mut p = skip_wsn(ts, pos);
    if p < n {
        match &ts[p] {
            Token::RParen => {
                return Ok((params, p + 1));
            },
            _ => {},
        }
    }
    loop
        invariant
            n == ts@.len(),
            pos <= p <= n,
        decreases n - p,
    {
        if p >= n {
            return Err(parse_error("unterminated parameter list"));
        }
        let pname = match &ts[p] {
            Token::LowerWord(w) => w.clone(),
            _ => {
                return Err(parse_error("expected a parameter name"));
            },
        };
        let mut q = skip_ws(ts, p + 1);
        if q >= n {
            return Err(parse_error("expected `:` after a parameter name"));
        }
        match &ts[q] {
            Token::Colon => {},
            _ => {
                return Err(parse_error("expected `:` after a parameter name"));
            },
        }
        q = skip_ws(ts, q + 1);
        if q >= n {
            return Err(parse_error("expected a parameter type"));
        }
        let tname = match &ts[q] {
            Token::UpperWord(w) => w.clone(),
            _ => {
                return Err(parse_error("expected a parameter type"));
            },
        };
        params.push((pname, tname));
        q = skip_ws(ts, q + 1);
        if q >= n {
            return Err(parse_error("unterminated parameter list"));
        }
        match &ts[q] {
            Token::RParen => {
                return Ok((params, q + 1));
            },
            Token::Comma => {
                p = skip_wsn(ts, q + 1);
            },
            _ => {
                return Err(parse_error("expected `,` or `)` in a parameter list"));
            },
        }
    }
}

/// Expressions separated by separators, up to a consumed `end`.
fn p_body_exprs(ts: &Vec<Token>, pos: usize) -> (r: Result<(Vec<Expression>, usize), Error>)
    requires
        pos <= ts@.len(),
    ensures
        r matches Ok(x) ==> pos <= x.1 <= ts@.len(),
        r matches Err(e) ==> e.kind == ErrorKind::ParseError,
    decreases ts@.len() - pos, 11int,
{
    let n = ts.len();
    let mut exprs: Vec<Expression> = Vec::new();
    let mut p = skip_wsn(ts, pos);
    loop
        invariant
            n == ts@.len(),
            pos <= p <= n,
        decreases n - p,
    {
        if p >= n {
            return Err(parse_error("missing `end` of a method body"));
        }
        match &ts[p] {
            Token::KwEnd => {
                return Ok((exprs, p + 1));
            },
            _ => {},
        }
        let (e, p2) = match p_expr(ts, p) {
            Ok(x) => x,
            Err(e) => {
                return Err(e);
            },
        };
        exprs.push(e);
        let q = skip_ws(ts, p2);
        if q >= n {
            return Err(parse_error("missing `end` of a method body"));
        }
        match &ts[q] {
            Token::Separator => {
                p = skip_wsn(ts, q + 1);
            },
            Token::KwEnd => {
                p = q;
            },
            _ => {
                return Err(parse_error("expected a separator in a method body"));
            },
        }
    }
}

/// Top-level expressions up to end of input: on success the whole
/// stream has been consumed.
fn p_exprs(ts: &Vec<Token>, pos: usize) -> (r: Result<(Vec<Expression>, usize), Error>)
    requires
        pos <= ts@.len(),
    ensures
        r matches Ok(x) ==> pos <= x.1 <= ts@.len() && (x.1 == ts@.len() || ts@[x.1 as int]
            is Eof),
        pos < ts@.len() && ts@[pos as int] is Eof ==> (r matches Ok(x) && x.0@.len() == 0 && x.1
            == pos),
        r matches Err(e) ==> e.kind == ErrorKind::ParseError,
    decreases ts@.len() - pos, 11int,
{
    let n = ts.len();
    let mut exprs: Vec<Expression> = Vec::new();
    let mut p = skip_wsn(ts, pos);
    loop
        invariant
            n == ts@.len(),
            pos <= p <= n,
            pos < n && ts@[pos as int] is Eof ==> p == pos && exprs@.len() == 0,
        decreases n - p,
    {
        if p >= n {
            return Ok((exprs, p));
        }
        match &ts[p] {
            Token::Eof => {
                return Ok((exprs, p));
            },
            Token::Bof => {
                p = skip_wsn(ts, p + 1);
                continue ;
            },
            _ => {},
        }
        let (e, p2) = match p_expr(ts, p) {
            Ok(x) => x,
            Err(e) => {
                return Err(e);
            },
        };
        exprs.push(e);
        let q = skip_ws(ts, p2);
        if q >= n {
            return Ok((exprs, q));
        }
        match &ts[q] {
            Token::Separator => {
                p = skip_wsn(ts, q + 1);
            },
            Token::Eof => {
                return Ok((exprs, q));
            },
            _ => {
                return Err(parse_error("expected a separator between expressions"));
            },
        }
    }
}

/// A full expression: `if`/`unless`, `not`, or an operator expression,
/// possibly extended by paren-less call arguments.
fn p_expr(ts: &Vec<Token>, pos: usize) -> (r: Result<(Expression, usize), Error>)
    requires
        pos < ts@.len(),
    ensures
        r matches Ok(x) ==> pos < x.1 <= ts@.len(),
        r matches Err(e) ==> e.kind == ErrorKind::ParseError,
    decreases ts@.len() - pos, 10int,
{
    let n = ts.len();
    match &ts[pos] {
        Token::KwIf => {
            return p_if_expr(ts, pos, false);
        },
        Token::KwUnless => {
            return p_if_expr(ts, pos, true);
        },
        Token::KwNot => {
            let q = skip_ws(ts, pos + 1);
            if q >= n {
                return Err(parse_error("expected an expression after `not`"));
            }
            let (e, p2) = match p_expr(ts, q) {
                Ok(x) => x,
                Err(e) => {
                    return Err(e);
                },
            };
            return Ok((ast::logical_not(e), p2));
        },
        _ => {},
    }
    let (e, p) = match p_and_or(ts, pos) {
        Ok(x) => x,
        Err(e) => {
            return Err(e);
        },
    };
    // paren-less call extension: `foo bar, baz`
    if e.may_have_paren_wo_args() && extendable(&e) {
        let q = skip_ws(ts, p);
        if q > p && q < n {
            let is_value_start = match &ts[q] {
                Token::Space => false,
                t => t.value_starts(),
            };
            if is_value_start {
                let (args, p2) = match p_call_args(ts, q) {
                    Ok(x) => x,
                    Err(e) => {
                        return Err(e);
                    },
                };
                return Ok((ast::set_method_call_args(e, args), p2));
            }
        }
    }
    Ok((e, p))
}

/// Whether the node can still take arguments (for paren-less call
/// extension): a bare name, or a call with no arguments yet.
fn extendable(e: &Expression) -> (r: bool)
    ensures
        r == ((e.body matches ExpressionBody::MethodCall { arg_exprs, .. } && arg_exprs@.len()
            == 0) || e.body is BareName),
{
    match &e.body {
        ExpressionBody::MethodCall { arg_exprs, .. } => arg_exprs.len() == 0,
        ExpressionBody::BareName(_) => true,
        _ => false,
    }
}

/// `if <cond> (then|sep) <expr> (else <expr>)? end`; `unless` negates
/// the condition.
fn p_if_expr(ts: &Vec<Token>, pos: usize, negate: bool) -> (r: Result<(Expression, usize), Error>)
    requires
        pos < ts@.len(),
    ensures
        r matches Ok(x) ==> pos < x.1 <= ts@.len(),
        r matches Err(e) ==> e.kind == ErrorKind::ParseError,
    decreases ts@.len() - pos, 9int,
{
    let n = ts.len();
    let q = skip_ws(ts, pos + 1);
    if q >= n {
        return Err(parse_error("expected a condition"));
    }
    let (cond, p1) = match p_expr(ts, q) {
        Ok(x) => x,
        Err(e) => {
            return Err(e);
        },
    };
    let mut p = skip_ws(ts, p1);
    if p >= n {
        return Err(parse_error("missing `then` or a separator after a condition"));
    }
    match &ts[p] {
        Token::KwThen => {
            p = p + 1;
        },
        Token::Separator => {},
        _ => {
            return Err(parse_error("expected `then` or a separator after a condition"));
        },
    }
    p = skip_wsn(ts, p);
    if p >= n {
        return Err(parse_error("missing the branch of an `if`"));
    }
    let (then_expr, p2) = match p_expr(ts, p) {
        Ok(x) => x,
        Err(e) => {
            return Err(e);
        },
    };
    p = skip_wsn(ts, p2);
    if p >= n {
        return Err(parse_error("missing `end` of an `if`"));
    }
    let mut else_expr: Option<Expression> = None;
    match &ts[p] {
        Token::KwElse => {
            let q2 = skip_wsn(ts, p + 1);
            if q2 >= n {
                return Err(parse_error("missing the `else` branch of an `if`"));
            }
            let (ee, p3) = match p_expr(ts, q2) {
                Ok(x) => x,
                Err(e) => {
                    return Err(e);
                },
            };
            else_expr = Some(ee);
            p = skip_wsn(ts, p3);
        },
        _ => {},
    }
    if p >= n {
        return Err(parse_error("missing `end` of an `if`"));
    }
    match &ts[p] {
        Token::KwEnd => {},
        _ => {
            return Err(parse_error("expected `end` of an `if`"));
        },
    }
    let cond2 = if negate {
        ast::logical_not(cond)
    } else {
        cond
    };
    Ok((ast::if_expr(cond2, then_expr, else_expr), p + 1))
}

/// `and`/`or` (and `&&`/`||`), lowest precedence, left-associative.
fn p_and_or(ts: &Vec<Token>, pos: usize) -> (r: Result<(Expression, usize), Error>)
    requires
        pos < ts@.len(),
    ensures
        r matches Ok(x) ==> pos < x.1 <= ts@.len(),
        r matches Err(e) ==> e.kind == ErrorKind::ParseError,
    decreases ts@.len() - pos, 8int,
{
    let n = ts.len();
    let (mut e, mut p) = match p_equality(ts, pos) {
        Ok(x) => x,
        Err(e) => {
            return Err(e);
        },
    };
    loop
        invariant
            n == ts@.len(),
            pos < p <= n,
        decreases n - p,
    {
        let q = skip_ws(ts, p);
        if q >= n {
            return Ok((e, p));
        }
        let is_and = match &ts[q] {
            Token::KwAnd => true,
            Token::AndAnd => true,
            _ => false,
        };
        let is_or = match &ts[q] {
            Token::KwOr => true,
            Token::OrOr => true,
            _ => false,
        };
        if !is_and && !is_or {
            return Ok((e, p));
        }
        let q2 = skip_wsn(ts, q + 1);
        if q2 >= n {
            return Err(parse_error("expected an operand"));
        }
        let (rhs, p2) = match p_equality(ts, q2) {
            Ok(x) => x,
            Err(e) => {
                return Err(e);
            },
        };
        e = if is_and {
            ast::logical_and(e, rhs)
        } else {
            ast::logical_or(e, rhs)
        };
        p = p2;
    }
}

/// Comparison operators, lowered to method calls.
fn p_equality(ts: &Vec<Token>, pos: usize) -> (r: Result<(Expression, usize), Error>)
    requires
        pos < ts@.len(),
    ensures
        r matches Ok(x) ==> pos < x.1 <= ts@.len(),
        r matches Err(e) ==> e.kind == ErrorKind::ParseError,
    decreases ts@.len() - pos, 7int,
{
    let n = ts.len();
    let (mut e, mut p) = match p_additive(ts, pos) {
        Ok(x) => x,
        Err(e) => {
            return Err(e);
        },
    };
    loop
        invariant
            n == ts@.len(),
            pos < p <= n,
        decreases n - p,
    {
        let q = skip_ws(ts, p);
        if q >= n {
            return Ok((e, p));
        }
        let op: Option<&str> = match &ts[q] {
            Token::EqEq => Some("=="),
            Token::NotEq => Some("!="),
            Token::LessThan => Some("<"),
            Token::GreaterThan => Some(">"),
            Token::LessEq => Some("<="),
            Token::GreaterEq => Some(">="),
            _ => None,
        };
        let opname = match op {
            Some(o) => o,
            None => {
                return Ok((e, p));
            },
        };
        let q2 = skip_ws(ts, q + 1);
        if q2 >= n {
            return Err(parse_error("expected an operand"));
        }
        let (rhs, p2) = match p_additive(ts, q2) {
            Ok(x) => x,
            Err(e) => {
                return Err(e);
            },
        };
        e = ast::bin_op_expr(e, opname, rhs);
        p = p2;
    }
}

/// `+`/`-`, lowered to method calls.
fn p_additive(ts: &Vec<Token>, pos: usize) -> (r: Result<(Expression, usize), Error>)
    requires
        pos < ts@.len(),
    ensures
        r matches Ok(x) ==> pos < x.1 <= ts@.len(),
        r matches Err(e) ==> e.kind == ErrorKind::ParseError,
    decreases ts@.len() - pos, 6int,
{
    let n = ts.len();
    let (mut e, mut p) = match p_multiplicative(ts, pos) {
        Ok(x) => x,
        Err(e) => {
            return Err(e);
        },
    };
    loop
        invariant
            n == ts@.len(),
            pos < p <= n,
        decreases n - p,
    {
        let q = skip_ws(ts, p);
        if q >= n {
            return Ok((e, p));
        }
        let op: Option<&str> = match &ts[q] {
            Token::BinaryPlus => Some("+"),
            Token::BinaryMinus => Some("-"),
            _ => None,
        };
        let opname = match op {
            Some(o) => o,
            None => {
                return Ok((e, p));
            },
        };
        let q2 = skip_ws(ts, q + 1);
        if q2 >= n {
            return Err(parse_error("expected an operand"));
        }
        let (rhs, p2) = match p_multiplicative(ts, q2) {
            Ok(x) => x,
            Err(e) => {
                return Err(e);
            },
        };
        e = ast::bin_op_expr(e, opname, rhs);
        p = p2;
    }
}

/// `*`, `/`, `%`, lowered to method calls.
fn p_multiplicative(ts: &Vec<Token>, pos: usize) -> (r: Result<(Expression, usize), Error>)
    requires
        pos < ts@.len(),
    ensures
        r matches Ok(x) ==> pos < x.1 <= ts@.len(),
        r matches Err(e) ==> e.kind == ErrorKind::ParseError,
    decreases ts@.len() - pos, 5int,
{
    let n = ts.len();
    let (mut e, mut p) = match p_unary(ts, pos) {
        Ok(x) => x,
        Err(e) => {
            return Err(e);
        },
    };
    loop
        invariant
            n == ts@.len(),
            pos < p <= n,
        decreases n - p,
    {
        let q = skip_ws(ts, p);
        if q >= n {
            return Ok((e, p));
        }
        let op: Option<&str> = match &ts[q] {
            Token::Mul => Some("*"),
            Token::Div => Some("/"),
            Token::Mod => Some("%"),
            _ => None,
        };
        let opname = match op {
            Some(o) => o,
            None => {
                return Ok((e, p));
            },
        };
        let q2 = skip_ws(ts, q + 1);
        if q2 >= n {
            return Err(parse_error("expected an operand"));
        }
        let (rhs, p2) = match p_unary(ts, q2) {
            Ok(x) => x,
            Err(e) => {
                return Err(e);
            },
        };
        e = ast::bin_op_expr(e, opname, rhs);
        p = p2;
    }
}

/// Unary `+`, `-` and `!`.
fn p_unary(ts: &Vec<Token>, pos: usize) -> (r: Result<(Expression, usize), Error>)
    requires
        pos < ts@.len(),
    ensures
        r matches Ok(x) ==> pos < x.1 <= ts@.len(),
        r matches Err(e) ==> e.kind == ErrorKind::ParseError,
    decreases ts@.len() - pos, 4int,
{
    let n = ts.len();
    match &ts[pos] {
        Token::UnaryPlus => {
            let q = skip_ws(ts, pos + 1);
            if q >= n {
                return Err(parse_error("expected an operand after unary `+`"));
            }
            p_unary(ts, q)
        },
        Token::UnaryMinus => {
            let q = skip_ws(ts, pos + 1);
            if q >= n {
                return Err(parse_error("expected an operand after unary `-`"));
            }
            let (e, p2) = match p_unary(ts, q) {
                Ok(x) => x,
                Err(e) => {
                    return Err(e);
                },
            };
            match e.body {
                ExpressionBody::DecimalLiteral { value } => {
                    if value == i32::MIN {
                        return Err(parse_error("integer literal out of range"));
                    }
                    Ok((ast::decimal_literal(-value), p2))
                },
                ExpressionBody::FloatLiteral { lexeme } => {
                    let mut s = "-".to_owned();
                    s.append(lexeme.as_str());
                    Ok((ast::float_literal(s.as_str()), p2))
                },
                b => {
                    let e2 = Expression { primary: e.primary, body: b };
                    Ok(
                        (
                            ast::method_call(Some(e2), "-@", Vec::new(), false, false),
                            p2,
                        ),
                    )
                },
            }
        },
        Token::Bang => {
            let q = skip_ws(ts, pos + 1);
            if q >= n {
                return Err(parse_error("expected an operand after `!`"));
            }
            let (e, p2) = match p_unary(ts, q) {
                Ok(x) => x,
                Err(e) => {
                    return Err(e);
                },
            };
            Ok((ast::logical_not(e), p2))
        },
        _ => p_postfix(ts, pos),
    }
}

/// `.method` chains, with or without parenthesized arguments.
fn p_postfix(ts: &Vec<Token>, pos: usize) -> (r: Result<(Expression, usize), Error>)
    requires
        pos < ts@.len(),
    ensures
        r matches Ok(x) ==> pos < x.1 <= ts@.len(),
        r matches Err(e) ==> e.kind == ErrorKind::ParseError,
    decreases ts@.len() - pos, 3int,
{
    let n = ts.len();
    let (mut e, mut p) = match p_primary(ts, pos) {
        Ok(x) => x,
        Err(e) => {
            return Err(e);
        },
    };
    loop
        invariant
            n == ts@.len(),
            pos < p <= n,
        decreases n - p,
    {
        let q = skip_ws(ts, p);
        if q >= n {
            return Ok((e, p));
        }
        match &ts[q] {
            Token::Dot => {},
            _ => {
                return Ok((e, p));
            },
        }
        let q2 = skip_ws(ts, q + 1);
        if q2 >= n {
            return Err(parse_error("expected a method name after `.`"));
        }
        let name = match method_name_of_token(&ts[q2]) {
            Some(w) => w,
            None => {
                return Err(parse_error("expected a method name after `.`"));
            },
        };
        let mut p2 = q2 + 1;
        let mut args: Vec<Expression> = Vec::new();
        let mut had_paren = false;
        if p2 < n {
            match &ts[p2] {
                Token::LParen => {
                    had_paren = true;
                    let (a, p3) = match p_paren_args(ts, p2 + 1) {
                        Ok(x) => x,
                        Err(e) => {
                            return Err(e);
                        },
                    };
                    args = a;
                    p2 = p3;
                },
                _ => {},
            }
        }
        e = ast::method_call(Some(e), name.as_str(), args, true, !had_paren);
        p = p2;
    }
}

/// A primary expression: literal, name, `self`, `@ivar` (read or
/// assignment), or a parenthesized expression.
fn p_primary(ts: &Vec<Token>, pos: usize) -> (r: Result<(Expression, usize), Error>)
    requires
        pos < ts@.len(),
    ensures
        r matches Ok(x) ==> pos < x.1 <= ts@.len(),
        r matches Err(e) ==> e.kind == ErrorKind::ParseError,
    decreases ts@.len() - pos, 2int,
{
    let n = ts.len();
    match &ts[pos] {
        Token::Number(w) => {
            let (e, _is_float) = match number_literal(w.as_str()) {
                Ok(x) => x,
                Err(e) => {
                    return Err(e);
                },
            };
            Ok((e, pos + 1))
        },
        Token::Str(w) => Ok(
            (
                ast::primary_expression(ExpressionBody::StringLiteral { value: w.clone() }),
                pos + 1,
            ),
        ),
        Token::KwTrue => Ok((ast::primary_expression(ExpressionBody::TrueLiteral), pos + 1)),
        Token::KwFalse => Ok((ast::primary_expression(ExpressionBody::FalseLiteral), pos + 1)),
        Token::KwSelf => Ok((ast::self_expression(), pos + 1)),
        Token::UpperWord(w) => Ok((ast::const_ref(w.as_str()), pos + 1)),
        Token::LowerWord(w) => {
            // `f(...)` without a receiver, when `(` follows directly
            if pos + 1 < n {
                match &ts[pos + 1] {
                    Token::LParen => {
                        let (args, p2) = match p_paren_args(ts, pos + 2) {
                            Ok(x) => x,
                            Err(e) => {
                                return Err(e);
                            },
                        };
                        return Ok(
                            (ast::method_call(None, w.as_str(), args, true, false), p2),
                        );
                    },
                    _ => {},
                }
            }
            Ok((ast::bare_name(w.as_str()), pos + 1))
        },
        Token::IVar(w) => {
            // `@x = e` assigns; `@x` reads
            let q = skip_ws(ts, pos + 1);
            if q < n {
                match &ts[q] {
                    Token::Equal => {
                        let q2 = skip_ws(ts, q + 1);
                        if q2 >= n {
                            return Err(parse_error("expected a right-hand side"));
                        }
                        let (rhs, p2) = match p_expr(ts, q2) {
                            Ok(x) => x,
                            Err(e) => {
                                return Err(e);
                            },
                        };
                        return Ok(
                            (
                                ast::non_primary_expression(
                                    ExpressionBody::IVarAssign {
                                        name: w.clone(),
                                        rhs: Box::new(rhs),
                                    },
                                ),
                                p2,
                            ),
                        );
                    },
                    _ => {},
                }
            }
            Ok(
                (
                    ast::primary_expression(ExpressionBody::IVarRef(w.clone())),
                    pos + 1,
                ),
            )
        },
        Token::LParen => {
            let q = skip_wsn(ts, pos + 1);
            if q >= n {
                return Err(parse_error("unterminated parenthesized expression"));
            }
            let (e, p2) = match p_expr(ts, q) {
                Ok(x) => x,
                Err(e) => {
                    return Err(e);
                },
            };
            let q2 = skip_wsn(ts, p2);
            if q2 >= n {
                return Err(parse_error("missing `)`"));
            }
            match &ts[q2] {
                Token::RParen => Ok(
                    (Expression { primary: true, body: e.body }, q2 + 1),
                ),
                _ => Err(parse_error("expected `)`")),
            }
        },
        _ => Err(parse_error("unexpected token at the start of an expression")),
    }
}

/// Comma-separated arguments up to a consumed `)` (the opening paren is
/// already consumed).
fn p_paren_args(ts: &Vec<Token>, pos: usize) -> (r: Result<(Vec<Expression>, usize), Error>)
    requires
        pos <= ts@.len(),
    ensures
        r matches Ok(x) ==> pos <= x.1 <= ts@.len(),
        r matches Err(e) ==> e.kind == ErrorKind::ParseError,
    decreases ts@.len() - pos, 13int,
{
    let n = ts.len();
    let mut args: Vec<Expression> = Vec::new();
    let mut p = skip_wsn(ts, pos);
    if p < n {
        match &ts[p] {
            Token::RParen => {
                return Ok((args, p + 1));
            },
            _ => {},
        }
    }
    loop
        invariant
            n == ts@.len(),
            pos <= p <= n,
        decreases n - p,
    {
        if p >= n {
            return Err(parse_error("unterminated argument list"));
        }
        let (e, p2) = match p_expr(ts, p) {
            Ok(x) => x,
            Err(e) => {
                return Err(e);
            },
        };
        args.push(e);
        let q = skip_wsn(ts, p2);
        if q >= n {
            return Err(parse_error("unterminated argument list"));
        }
        match &ts[q] {
            Token::RParen => {
                return Ok((args, q + 1));
            },
            Token::Comma => {
                p = skip_wsn(ts, q + 1);
            },
            _ => {
                return Err(parse_error("expected `,` or `)` in an argument list"));
            },
        }
    }
}

/// Paren-less call arguments: one or more expressions separated by
/// commas, ending before a separator.
fn p_call_args(ts: &Vec<Token>, pos: usize) -> (r: Result<(Vec<Expression>, usize), Error>)
    requires
        pos < ts@.len(),
    ensures
        r matches Ok(x) ==> pos < x.1 <= ts@.len(),
        r matches Err(e) ==> e.kind == ErrorKind::ParseError,
    decreases ts@.len() - pos, 13int,
{
    let n = ts.len();
    let mut args: Vec<Expression> = Vec::new();
    let (e0, mut p) = match p_expr(ts, pos) {
        Ok(x) => x,
        Err(e) => {
            return Err(e);
        },
    };
    args.push(e0);
    loop
        invariant
            n == ts@.len(),
            pos < p <= n,
        decreases n - p,
    {
        let q = skip_ws(ts, p);
        if q >= n {
            return Ok((args, p));
        }
        match &ts[q] {
            Token::Comma => {},
            _ => {
                return Ok((args, p));
            },
        }
        let q2 = skip_wsn(ts, q + 1);
        if q2 >= n {
            return Err(parse_error("expected an argument after `,`"));
        }
        let (e, p2) = match p_expr(ts, q2) {
            Ok(x) => x,
            Err(e) => {
                return Err(e);
            },
        };
        args.push(e);
        p = p2;
    }
}

/// The integer value of a digit sequence.
pub open spec fn digits_value(s: Seq<char>) -> int
    decreases s.len(),
{
    if s.len() == 0 {
        0
    } else {
        digits_value(s.drop_last()) * 10 + (s[s.len() - 1] as int - '0' as int)
    }
}

/// Whether every character of `s` is a decimal digit.
pub open spec fn all_digits(s: Seq<char>) -> bool {
    forall|i: int| 0 <= i < s.len() ==> '0' <= #[trigger] s[i] <= '9'
}

/// Turn a number lexeme into a literal expression: a float if it
/// carries a fraction part, else a decimal checked to fit `i32`.
fn number_literal(w: &str) -> (r: Result<(Expression, bool), Error>)
    ensures
        r matches Ok(x) ==> (x.1 ==> (x.0.body matches ExpressionBody::FloatLiteral { lexeme }
            && lexeme@ == w@)),
        r matches Ok(x) ==> (!x.1 ==> (all_digits(w@) ==> (x.0.body
            matches ExpressionBody::DecimalLiteral { value } && value as int == digits_value(
            w@,
        )))),
        r matches Err(e) ==> e.kind == ErrorKind::ParseError,
{
    let n = w.unicode_len();
    let mut has_dot = false;
    let mut i: usize = 0;
    while i < n
        invariant
            n == w@.len(),
            0 <= i <= n,
            has_dot <==> exists|k: int| 0 <= k < i && w@[k] == '.',
        decreases n - i,
    {
        if w.get_char(i) == '.' {
            has_dot = true;
        }
        i = i + 1;
    }
    if has_dot {
        return Ok((ast::float_literal(w), true));
    }
    // decimal: accumulate with overflow checking
    let mut value: i32 = 0;
    let mut j: usize = 0;
    while j < n
        invariant
            n == w@.len(),
            0 <= j <= n,
            all_digits(w@) ==> value as int == digits_value(w@.take(j as int)),
            value >= 0,
        decreases n - j,
    {
        let c = w.get_char(j);
        let u = c as u32;
        if u < 48 || u > 57 {
            return Err(parse_error("malformed number literal"));
        }
        let d = (u - 48) as i32;
        if value > (i32::MAX - d) / 10 {
            return Err(parse_error("integer literal too large"));
        }
        value = value * 10 + d;
        proof {
            if all_digits(w@) {
                assert(w@.take(j + 1).drop_last() =~= w@.take(j as int));
                assert(w@.take(j + 1)[j as int] == w@[j as int]);
            }
        }
        j = j + 1;
    }
    proof {
        assert(w@.take(n as int) =~= w@);
    }
    Ok((ast::decimal_literal(value), false))
}

} // verus!
