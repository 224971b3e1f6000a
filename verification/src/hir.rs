//! The typed, resolved tree: every expression carries its `TermTy`, and
//! a compiled program bundles classes, methods, constants, string
//! literals and the top-level expressions.

use vstd::prelude::*;
use crate::class_dict::{MethodSignature, SkClass};
use crate::names::{ClassFullname, ConstFullname, MethodFullname};
use crate::ty::TermTy;

verus! {

/// A typed expression.
#[derive(Debug, PartialEq)]
pub struct HirExpression {
    pub ty: TermTy,
    pub node: HirExpressionBase,
}

/// The lowered expression forms.
#[derive(Debug, PartialEq)]
pub enum HirExpressionBase {
    /// A fully two-armed conditional (a missing `else` becomes `HirNop`).
    HirIfExpression {
        cond_expr: Box<HirExpression>,
        then_expr: Box<HirExpression>,
        else_expr: Box<HirExpression>,
    },
    /// A call with resolved method full name; the receiver is explicit
    /// (`self` where the source had none).
    HirMethodCall {
        receiver_expr: Box<HirExpression>,
        method_fullname: MethodFullname,
        arg_exprs: Vec<HirExpression>,
    },
    /// A reference to a local variable (a method parameter).
    HirLVarRef {
        name: String,
    },
    HirIVarRef {
        name: String,
        idx: usize,
    },
    HirIVarAssign {
        name: String,
        idx: usize,
        rhs: Box<HirExpression>,
    },
    HirConstRef {
        fullname: ConstFullname,
    },
    HirConstAssign {
        fullname: ConstFullname,
        rhs: Box<HirExpression>,
    },
    HirSelfExpression,
    /// Materialization of the class object of `fullname`; the string
    /// pool slot holds the class name for runtime identity.
    HirClassLiteral {
        fullname: ClassFullname,
        str_literal_idx: usize,
    },
    /// A string literal, by its slot in the string pool.
    HirStringLiteral {
        idx: usize,
    },
    HirBooleanLiteral {
        value: bool,
    },
    HirDecimalLiteral {
        value: i32,
    },
    /// A float literal, by its lexeme; its numeric value is the back
    /// end's concern.
    HirFloatLiteral {
        lexeme: String,
    },
    /// The value of an `if` without `else`; never read.
    HirNop,
}

/// An ordered method (or top-level) body, typed by its last expression,
/// or `Void` when empty.
#[derive(Debug, PartialEq)]
pub struct HirExpressions {
    pub exprs: Vec<HirExpression>,
    pub ty: TermTy,
}

/// A method body.
#[derive(Debug, PartialEq)]
pub enum SkMethodBody {
    /// Ordinary lowered source code.
    ShiikaMethodBody {
        exprs: HirExpressions,
    },
    /// The synthesized `.new`, described declaratively for the back end:
    /// allocate `allocates`, optionally bitcast to the class declaring
    /// `initialize`, call `calls` with the allocation and the `arity`
    /// forwarded parameters, return the allocation.
    SynthesizedNew {
        allocates: ClassFullname,
        calls: MethodFullname,
        bitcast_to: Option<ClassFullname>,
        arity: usize,
    },
    /// A core-library method whose code the runtime provides.
    RustMethodBody,
}

/// A compiled method: resolved signature plus body.
#[derive(Debug, PartialEq)]
pub struct SkMethod {
    pub signature: MethodSignature,
    pub body: SkMethodBody,
}

/// A compiled program. The value exclusively owns everything inside;
/// inheritance is represented by names, so the data is cycle-free.
#[derive(Debug)]
pub struct Hir {
    pub sk_classes: Vec<SkClass>,
    pub sk_methods: Vec<SkMethod>,
    pub constants: Vec<(ConstFullname, TermTy)>,
    pub str_literals: Vec<String>,
    /// Constant assignments to run before `main_exprs`, in registration
    /// order.
    pub const_inits: Vec<HirExpression>,
    pub main_exprs: HirExpressions,
}

impl Hir {
    /// Append methods (the core library's) to the method list.
    pub fn add_methods(&mut self, methods: Vec<SkMethod>)
        ensures
            final(self).sk_methods@ == old(self).sk_methods@ + methods@,
            final(self).sk_classes == old(self).sk_classes,
            final(self).constants == old(self).constants,
            final(self).str_literals == old(self).str_literals,
            final(self).const_inits == old(self).const_inits,
            final(self).main_exprs == old(self).main_exprs,
    {
        let mut ms = methods;
        let ghost orig = self.sk_methods@;
        let ghost added = ms@;
        proof {
            assert(self.sk_methods@ =~= orig + added.take(0));
            assert(ms@ =~= added.skip(0));
        }
        let ghost mut i: int = 0;
        while ms.len() > 0
            invariant
                0 <= i <= added.len(),
                ms@ == added.skip(i),
                self.sk_methods@ == orig + added.take(i),
                self.sk_classes == old(self).sk_classes,
                self.constants == old(self).constants,
                self.str_literals == old(self).str_literals,
                self.const_inits == old(self).const_inits,
                self.main_exprs == old(self).main_exprs,
            decreases ms@.len(),
        {
            let m = ms.remove(0);
            proof {
                assert(added.skip(i)[0] == added[i]);
                assert(added.skip(i).remove(0) =~= added.skip(i + 1));
            }
            self.sk_methods.push(m);
            proof {
                assert((orig + added.take(i)).push(added[i]) =~= orig + added.take(i + 1));
                i = i + 1;
            }
        }
        proof {
            assert(added.take(i) =~= added);
        }
    }

    /// Build a typed two-armed `if`.
    pub fn if_expression(
        ty: TermTy,
        cond_hir: HirExpression,
        then_hir: HirExpression,
        else_hir: HirExpression,
    ) -> (r: HirExpression)
        ensures
            r.ty == ty,
            r.node matches HirExpressionBase::HirIfExpression { cond_expr, then_expr, else_expr }
                && *cond_expr == cond_hir && *then_expr == then_hir && *else_expr == else_hir,
    {
        HirExpression {
            ty,
            node: HirExpressionBase::HirIfExpression {
                cond_expr: Box::new(cond_hir),
                then_expr: Box::new(then_hir),
                else_expr: Box::new(else_hir),
            },
        }
    }

    /// A float literal, typed `Float`.
    pub fn float_literal(lexeme: &str) -> (r: HirExpression)
        ensures
            crate::ty::is_raw_named(r.ty, "Float"@),
            r.node matches HirExpressionBase::HirFloatLiteral { lexeme: s } && s@ == lexeme@,
    {
        HirExpression {
            ty: crate::ty::raw("Float"),
            node: HirExpressionBase::HirFloatLiteral { lexeme: lexeme.to_owned() },
        }
    }

    /// The filler value of an `else`-less `if`; typed `Void` and never
    /// read.
    pub fn nop() -> (r: HirExpression)
        ensures
            crate::ty::is_raw_named(r.ty, "Void"@),
            r.node is HirNop,
    {
        HirExpression { ty: crate::ty::raw("Void"), node: HirExpressionBase::HirNop }
    }

    /// A constant assignment (run before `main`).
    pub fn assign_const(fullname: ConstFullname, rhs: HirExpression) -> (r: HirExpression)
        ensures
            r.ty == rhs.ty,
            r.node matches HirExpressionBase::HirConstAssign { fullname: f, rhs: e } && f == fullname
                && *e == rhs,
    {
        let ty = rhs.ty.clone();
        HirExpression {
            ty,
            node: HirExpressionBase::HirConstAssign { fullname, rhs: Box::new(rhs) },
        }
    }

    /// The class-object literal for `fullname`.
    pub fn class_literal(fullname: ClassFullname, str_literal_idx: usize) -> (r: HirExpression)
        ensures
            crate::ty::is_meta_named(r.ty, fullname@),
            r.node matches HirExpressionBase::HirClassLiteral { fullname: f, str_literal_idx: i }
                && f == fullname && i == str_literal_idx,
    {
        let ty = TermTy::Meta { base_fullname: fullname.clone() };
        HirExpression {
            ty,
            node: HirExpressionBase::HirClassLiteral { fullname, str_literal_idx },
        }
    }
}

impl HirExpressions {
    /// Wrap a body: its type is the last expression's, or `Void` when
    /// empty.
    pub fn new(exprs: Vec<HirExpression>) -> (r: HirExpressions)
        ensures
            r.exprs == exprs,
            exprs@.len() == 0 ==> crate::ty::is_raw_named(r.ty, "Void"@),
            exprs@.len() > 0 ==> r.ty == exprs@[exprs@.len() - 1].ty,
    {
        let ty = if exprs.len() == 0 {
            crate::ty::raw("Void")
        } else {
            exprs[exprs.len() - 1].ty.clone()
        };
        HirExpressions { exprs, ty }
    }
}

} // verus!
