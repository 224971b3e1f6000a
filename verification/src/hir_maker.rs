//! The HIR maker: walks the AST under a context stack, resolves names
//! against the class dictionary, lowers surface constructs and produces
//! typed HIR, type-checking as it goes.

use vstd::prelude::*;
use crate::ast;
use crate::class_dict::query::{find_sig, lemma_lookup_sig_resolved, lookup_method_spec};
use crate::class_dict::{
    ClassDict, MethodParam, SkIVar, has_class_name, sig_resolved, ty_exists,
};
use crate::corelib::Corelib;
use crate::error::{Error, name_error, program_error, type_error};
use crate::hir::{Hir, HirExpression, HirExpressionBase, HirExpressions, SkMethod, SkMethodBody};
use crate::names::{ClassFullname, ConstFullname, MethodFirstname, const_fullname, method_fullname};
use crate::ty;
use crate::ty::TermTy;

verus! {

/// One frame of the context stack: the namespace, the type of `self`
/// (absent at the top level), the local-variable table (the method's
/// parameters), and the instance variables accumulated while lowering
/// an initializer.
pub struct HirMakerContext {
    pub namespace: String,
    pub self_ty: Option<TermTy>,
    pub is_initializer: bool,
    pub locals: Vec<MethodParam>,
    pub iivars: Vec<SkIVar>,
}

/// A context frame only holds types the dictionary knows.
pub open spec fn ctx_wf(classes: Seq<crate::class_dict::SkClass>, c: HirMakerContext) -> bool {
    &&& (c.self_ty matches Some(t) ==> ty_exists(classes, t))
    &&& forall|k: int| 0 <= k < c.locals@.len() ==> ty_exists(classes, (#[trigger] c.locals@[k]).ty)
    &&& forall|k: int|
        0 <= k < c.iivars@.len() ==> (#[trigger] c.iivars@[k]).idx == k && ty_exists(
            classes,
            c.iivars@[k].ty,
        )
    &&& forall|k: int, l: int|
        0 <= k < l < c.iivars@.len() ==> (#[trigger] c.iivars@[k]).name@ != (
        #[trigger] c.iivars@[l]).name@
}

/// An extension of a method list: every already-compiled method stays,
/// at its index.
pub open spec fn methods_preserved(before: Seq<SkMethod>, after: Seq<SkMethod>) -> bool {
    &&& before.len() <= after.len()
    &&& forall|i: int| 0 <= i < before.len() ==> after[i] == before[i]
}

/// The maker never adds, removes or renames classes, and never touches
/// their stored signatures; only instance-variable lists change.
pub open spec fn sigs_stable(
    before: Seq<crate::class_dict::SkClass>,
    after: Seq<crate::class_dict::SkClass>,
) -> bool {
    &&& before.len() == after.len()
    &&& forall|i: int|
        0 <= i < before.len() ==> (#[trigger] after[i]).fullname@ == before[i].fullname@
            && after[i].method_sigs == before[i].method_sigs && after[i].superclass_fullname
            == before[i].superclass_fullname
}

/// The compiled-method list holds a method whose signature is the
/// dictionary's signature for (`class_name`, `m`).
#[verifier::opaque]
pub open spec fn dict_method_compiled(
    classes: Seq<crate::class_dict::SkClass>,
    methods: Seq<SkMethod>,
    class_name: Seq<char>,
    m: Seq<char>,
) -> bool {
    find_sig(
        crate::class_dict::class_named(classes, class_name).method_sigs@,
        m,
    ) matches Some(s) && exists|q: int|
        0 <= q < methods.len() && (#[trigger] methods[q]).signature.fullname == s.fullname
            && methods[q].signature.first_name == s.first_name && methods[q].signature.ret_ty
            == s.ret_ty && methods[q].signature.params@ == s.params@
}

/// Under stability, a class keeps its index and its signatures.
proof fn lemma_sigs_stable_class_named(
    a: Seq<crate::class_dict::SkClass>,
    b: Seq<crate::class_dict::SkClass>,
    x: Seq<char>,
)
    requires
        crate::class_dict::unique_class_names(a),
        has_class_name(a, x),
        sigs_stable(a, b),
    ensures
        has_class_name(b, x),
        crate::class_dict::class_named(b, x).method_sigs == crate::class_dict::class_named(
            a,
            x,
        ).method_sigs,
{
    crate::class_dict::lemma_class_index(a, x);
    let i = crate::class_dict::class_index(a, x);
    assert(b[i].fullname@ == x);
    assert(has_class_name(b, x));
    let j = crate::class_dict::class_index(b, x);
    assert(0 <= j < b.len() && b[j].fullname@ == x);
    assert(a[j].fullname@ == x);
    assert(j == i);
}

/// What lowering guarantees of each produced node, by the source
/// expression's form: literals get their literal node and class; a call
/// becomes a call resolved up the receiver's chain, typed by the found
/// signature's return type; a two-armed `if` is typed by the nearest
/// common ancestor of its branches; a one-armed `if` is `Void` with a
/// `HirNop` else.
pub open spec fn lowered_matches(
    classes: Seq<crate::class_dict::SkClass>,
    src: ast::Expression,
    out: HirExpression,
) -> bool {
    &&& (src.body matches ast::ExpressionBody::DecimalLiteral { value } ==> (ty::is_raw_named(
        out.ty,
        "Int"@,
    ) && (out.node matches HirExpressionBase::HirDecimalLiteral { value: v } && v == value)))
    &&& (src.body is FloatLiteral ==> ty::is_raw_named(out.ty, "Float"@))
    &&& ((src.body is TrueLiteral || src.body is FalseLiteral) ==> ty::is_raw_named(
        out.ty,
        "Bool"@,
    ))
    &&& (src.body is StringLiteral ==> ty::is_raw_named(out.ty, "String"@))
    &&& (src.body matches ast::ExpressionBody::MethodCall { method_name, receiver_expr, .. }
        ==> (out.node matches HirExpressionBase::HirMethodCall {
        receiver_expr: re,
        method_fullname: mf,
        arg_exprs,
    } && (lookup_method_spec(classes, crate::ty::ty_class_name(re.ty), method_name@)
        matches Some(pair) && mf == pair.0.fullname && out.ty == pair.0.ret_ty && arg_exprs@.len()
        == pair.0.params@.len()) && (receiver_expr is None ==> re.node is HirSelfExpression) && (
    receiver_expr matches Some(rsrc) ==> ((*rsrc).body is DecimalLiteral ==> ty::is_raw_named(
        re.ty,
        "Int"@,
    )))))
    &&& (src.body matches ast::ExpressionBody::If { else_expr: Some(_), .. } ==> (out.node
        matches HirExpressionBase::HirIfExpression { then_expr, else_expr, .. }
        && crate::type_checking::first_common(
        crate::type_checking::chain_of(classes, then_expr.ty),
        crate::type_checking::chain_of(classes, else_expr.ty),
    ) == Some(crate::ty::ty_class_name(out.ty))))
    &&& (src.body matches ast::ExpressionBody::If { else_expr: None, .. } ==> (ty::is_raw_named(
        out.ty,
        "Void"@,
    ) && (out.node matches HirExpressionBase::HirIfExpression { else_expr, .. } && else_expr.node
        is HirNop)))
}

/// Every constant definition among the first `upto` items has its
/// namespace-qualified constant registered.
#[verifier::opaque]
pub open spec fn class_consts_registered(
    consts: Seq<(ConstFullname, TermTy)>,
    cname: Seq<char>,
    defs: Seq<ast::Definition>,
    upto: int,
) -> bool {
    forall|j: int|
        0 <= j < upto && j < defs.len() ==> ((#[trigger] defs[j])
            matches ast::Definition::ConstDefinition { name, .. } ==> exists|q: int|
            0 <= q < consts.len() && (#[trigger] consts[q]).0@
                == crate::names::const_fullname_of(cname, name@))
}

/// Every nested class among the first `upto` items has its synthesized
/// `.new` method compiled (unless it is a primitive class).
#[verifier::opaque]
pub open spec fn nested_news_present(
    methods: Seq<SkMethod>,
    cname: Seq<char>,
    defs: Seq<ast::Definition>,
    upto: int,
) -> bool {
    forall|j: int|
        0 <= j < upto && j < defs.len() ==> ((#[trigger] defs[j])
            matches ast::Definition::ClassDefinition { name, .. } ==> (!(
        crate::names::namespaced(cname, name@) == "Int"@ || crate::names::namespaced(cname, name@)
            == "Float"@) ==> exists|q: int|
            0 <= q < methods.len() && (#[trigger] methods[q]).signature.fullname@
                == crate::names::method_fullname_of(
                crate::names::meta_name_of(crate::names::namespaced(cname, name@)),
                ".new"@,
            )))
}

/// Expression lowering touches at most the top context frame, and there
/// only by appending instance variables: lower frames are untouched, the
/// top frame keeps its namespace, `self`, locals and initializer flag,
/// and its accumulated ivars are only extended.
pub open spec fn frames_extended(before: Seq<HirMakerContext>, after: Seq<HirMakerContext>) -> bool {
    &&& after.len() == before.len()
    &&& forall|i: int| 0 <= i < before.len() - 1 ==> (#[trigger] after[i]) == before[i]
    &&& (before.len() > 0 ==> {
        &&& after[after.len() - 1].namespace == before[before.len() - 1].namespace
        &&& after[after.len() - 1].self_ty == before[before.len() - 1].self_ty
        &&& after[after.len() - 1].is_initializer == before[before.len() - 1].is_initializer
        &&& after[after.len() - 1].locals == before[before.len() - 1].locals
        &&& before[before.len() - 1].iivars@.len() <= after[after.len() - 1].iivars@.len()
        &&& forall|k: int|
            0 <= k < before[before.len() - 1].iivars@.len() ==> (#[trigger] after[after.len()
                - 1].iivars@[k]) == before[before.len() - 1].iivars@[k]
    })
}

/// An extension of a constant list: every registered constant stays, at
/// its index.
pub open spec fn consts_preserved(
    before: Seq<(ConstFullname, TermTy)>,
    after: Seq<(ConstFullname, TermTy)>,
) -> bool {
    &&& before.len() <= after.len()
    &&& forall|i: int| 0 <= i < before.len() ==> after[i] == before[i]
}

/// The list holds a class constant for `name`: `::name`, typed as the
/// metaclass of `name`.
pub open spec fn has_class_const(consts: Seq<(ConstFullname, TermTy)>, name: Seq<char>) -> bool {
    exists|j: int|
        0 <= j < consts.len() && (#[trigger] consts[j]).0@ == crate::names::const_fullname_of(
            Seq::<char>::empty(),
            name,
        ) && crate::ty::is_meta_named(consts[j].1, name)
}

/// The HIR maker's mutable state.
pub struct HirMaker {
    /// The classes found so far (consumed, extended with ivars).
    pub class_dict: ClassDict,
    /// The methods compiled so far.
    pub method_dict: Vec<SkMethod>,
    /// The constants found so far, with their types.
    pub constants: Vec<(ConstFullname, TermTy)>,
    /// Assignments to run before the main expressions.
    pub const_inits: Vec<HirExpression>,
    /// The string-literal pool; insertion returns a stable index.
    pub str_literals: Vec<String>,
    /// The context stack.
    pub ctx_stack: Vec<HirMakerContext>,
}

impl HirMaker {
    /// The maker's invariant: the dictionary is well-formed, and every
    /// type held by a context frame or a registered constant names a
    /// class of the dictionary.
    pub open spec fn wf(&self) -> bool {
        &&& self.class_dict.wf()
        &&& forall|i: int|
            0 <= i < self.ctx_stack@.len() ==> ctx_wf(
                self.class_dict.sk_classes@,
                #[trigger] self.ctx_stack@[i],
            )
        &&& forall|i: int|
            0 <= i < self.constants@.len() ==> ty_exists(
                self.class_dict.sk_classes@,
                (#[trigger] self.constants@[i]).1,
            )
    }

    fn new(class_dict: ClassDict) -> (r: HirMaker)
        requires
            class_dict.wf(),
        ensures
            r.wf(),
            r.class_dict == class_dict,
            r.ctx_stack@.len() == 0,
    {
        HirMaker {
            class_dict,
            method_dict: Vec::new(),
            constants: Vec::new(),
            const_inits: Vec::new(),
            str_literals: Vec::new(),
            ctx_stack: Vec::new(),
        }
    }

    /// Intern a string literal; the returned index is stable.
    fn register_string_literal(&mut self, s: String) -> (idx: usize)
        requires
            old(self).wf(),
        ensures
            final(self).wf(),
            final(self).str_literals@ == old(self).str_literals@.push(s),
            idx == old(self).str_literals@.len(),
            final(self).class_dict == old(self).class_dict,
            final(self).ctx_stack == old(self).ctx_stack,
            final(self).constants == old(self).constants,
            final(self).method_dict == old(self).method_dict,
            final(self).const_inits == old(self).const_inits,
    {
        let idx = self.str_literals.len();
        self.str_literals.push(s);
        idx
    }

    /// Materialize a constant for every registered non-meta class whose
    /// constant is not already its unique instance: `A = <class A>`,
    /// run before user code in registration order.
    fn register_class_consts(&mut self)
        requires
            old(self).wf(),
        ensures
            final(self).wf(),
            final(self).class_dict == old(self).class_dict,
            final(self).ctx_stack == old(self).ctx_stack,
            final(self).method_dict == old(self).method_dict,
            consts_preserved(old(self).constants@, final(self).constants@),
            forall|i: int|
                0 <= i < old(self).class_dict.sk_classes@.len() && !crate::names::is_meta_name(
                    (#[trigger] old(self).class_dict.sk_classes@[i]).fullname@,
                ) && !old(self).class_dict.sk_classes@[i].const_is_obj && has_class_name(
                    old(self).class_dict.sk_classes@,
                    crate::names::meta_name_of(old(self).class_dict.sk_classes@[i].fullname@),
                ) ==> has_class_const(
                    final(self).constants@,
                    old(self).class_dict.sk_classes@[i].fullname@,
                ),
    {
        let ghost classes = self.class_dict.sk_classes@;
        let n = self.class_dict.sk_classes.len();
        let mut i: usize = 0;
        while i < n
            invariant
                self.wf(),
                classes == self.class_dict.sk_classes@,
                n == self.class_dict.sk_classes@.len(),
                0 <= i <= n,
                self.class_dict == old(self).class_dict,
                self.ctx_stack == old(self).ctx_stack,
                self.method_dict == old(self).method_dict,
                consts_preserved(old(self).constants@, self.constants@),
                forall|k: int|
                    0 <= k < i && !crate::names::is_meta_name(
                        (#[trigger] classes[k]).fullname@,
                    ) && !classes[k].const_is_obj && has_class_name(
                        classes,
                        crate::names::meta_name_of(classes[k].fullname@),
                    ) ==> has_class_const(self.constants@, classes[k].fullname@),
            decreases n - i,
        {
            let ghost consts_before = self.constants@;
            let name = self.class_dict.sk_classes[i].fullname.clone();
            let const_is_obj = self.class_dict.sk_classes[i].const_is_obj;
            if !name.is_meta() && !const_is_obj {
                self.register_class_const(&name);
            }
            proof {
                assert forall|k: int|
                    0 <= k < i + 1 && !crate::names::is_meta_name(
                        (#[trigger] classes[k]).fullname@,
                    ) && !classes[k].const_is_obj && has_class_name(
                        classes,
                        crate::names::meta_name_of(classes[k].fullname@),
                    ) implies has_class_const(self.constants@, classes[k].fullname@) by {
                    if k < i {
                        let j = choose|j: int|
                            0 <= j < consts_before.len() && (#[trigger] consts_before[j]).0@
                                == crate::names::const_fullname_of(
                                Seq::<char>::empty(),
                                classes[k].fullname@,
                            ) && crate::ty::is_meta_named(
                                consts_before[j].1,
                                classes[k].fullname@,
                            );
                        assert(self.constants@[j] == consts_before[j]);
                    }
                }
            }
            i = i + 1;
        }
    }

    /// Register the constant that holds the class object of `fullname`.
    fn register_class_const(&mut self, fullname: &ClassFullname)
        requires
            old(self).wf(),
        ensures
            final(self).wf(),
            final(self).class_dict == old(self).class_dict,
            final(self).ctx_stack == old(self).ctx_stack,
            final(self).method_dict == old(self).method_dict,
            consts_preserved(old(self).constants@, final(self).constants@),
            !has_class_name(
                old(self).class_dict.sk_classes@,
                crate::names::meta_name_of(fullname@),
            ) ==> final(self).constants == old(self).constants && final(self).const_inits == old(
                self,
            ).const_inits && final(self).str_literals == old(self).str_literals,
            has_class_name(
                old(self).class_dict.sk_classes@,
                crate::names::meta_name_of(fullname@),
            ) ==> final(self).constants@.len() == old(self).constants@.len() + 1 && has_class_const(
                final(self).constants@,
                fullname@,
            ) && final(self).str_literals@ == old(self).str_literals@.push(fullname.0)
                && final(self).const_inits@.len() == old(self).const_inits@.len() + 1 && (final(self).const_inits@[old(self).const_inits@.len() as int].node
                matches HirExpressionBase::HirConstAssign { fullname: f, rhs } && f@
                == crate::names::const_fullname_of(Seq::<char>::empty(), fullname@) && (rhs.node
                matches HirExpressionBase::HirClassLiteral { fullname: c, str_literal_idx } && c@
                == fullname@ && str_literal_idx == old(self).str_literals@.len())),
    {
        let meta = fullname.meta_name();
        // the metaclass carries the constant's type; skip silently if a
        // caller ever passes a class without one (the builder always
        // registers both)
        if !self.class_dict.class_exists(meta.0.as_str()) {
            return ;
        }
        let class_ty = TermTy::Meta { base_fullname: fullname.clone() };
        let const_name = const_fullname("", fullname.0.as_str());
        let idx = self.register_string_literal(fullname.0.clone());
        let op = Hir::assign_const(
            const_name.clone(),
            Hir::class_literal(fullname.clone(), idx),
        );
        proof {
            assert(ty_exists(self.class_dict.sk_classes@, class_ty));
            reveal_strlit("");
            assert(""@ =~= Seq::<char>::empty());
        }
        self.constants.push((const_name, class_ty));
        self.const_inits.push(op);
        proof {
            assert(self.constants@[self.constants@.len() - 1].0@
                == crate::names::const_fullname_of(Seq::<char>::empty(), fullname@));
        }
    }

    /// Destructively convert the maker into the finished program; the
    /// value constant `::Void` is registered on the way out.
    fn extract_hir(self, main_exprs: HirExpressions) -> (r: Hir)
        ensures
            r.sk_classes == self.class_dict.sk_classes,
            r.sk_methods == self.method_dict,
            r.constants@.len() == self.constants@.len() + 1,
            forall|i: int|
                0 <= i < self.constants@.len() ==> r.constants@[i] == self.constants@[i],
            r.constants@[self.constants@.len() as int].0@ == crate::names::const_fullname_of(
                Seq::<char>::empty(),
                "Void"@,
            ),
            crate::ty::is_raw_named(r.constants@[self.constants@.len() as int].1, "Void"@),
            r.str_literals == self.str_literals,
            r.const_inits == self.const_inits,
            r.main_exprs == main_exprs,
    {
        let mut constants = self.constants;
        proof {
            reveal_strlit("");
            assert(""@ =~= Seq::<char>::empty());
        }
        constants.push((const_fullname("", "Void"), ty::raw("Void")));
        Hir {
            sk_classes: self.class_dict.sk_classes,
            sk_methods: self.method_dict,
            constants,
            str_literals: self.str_literals,
            const_inits: self.const_inits,
            main_exprs,
        }
    }
}

impl HirMaker {
    /// The type of `self` in the innermost frame, if any.
    fn current_self_ty(&self) -> (r: Option<TermTy>)
        requires
            self.wf(),
        ensures
            r matches Some(t) ==> ty_exists(self.class_dict.sk_classes@, t),
    {
        let k = self.ctx_stack.len();
        if k == 0 {
            None
        } else {
            proof {
                assert(ctx_wf(self.class_dict.sk_classes@, self.ctx_stack@[k - 1]));
            }
            match &self.ctx_stack[k - 1].self_ty {
                Some(t) => Some(t.clone()),
                None => None,
            }
        }
    }

    /// The type of the local (method parameter) `name` in the innermost
    /// frame, if bound.
    fn lookup_local(&self, name: &str) -> (r: Option<TermTy>)
        requires
            self.wf(),
        ensures
            r matches Some(t) ==> ty_exists(self.class_dict.sk_classes@, t),
    {
        let k = self.ctx_stack.len();
        if k == 0 {
            return None;
        }
        proof {
            assert(ctx_wf(self.class_dict.sk_classes@, self.ctx_stack@[k - 1]));
        }
        let locals = &self.ctx_stack[k - 1].locals;
        let n = locals.len();
        let target = name.to_owned();
        let mut i: usize = 0;
        while i < n
            invariant
                self.wf(),
                k == self.ctx_stack@.len(),
                k >= 1,
                locals == self.ctx_stack@[k - 1].locals,
                n == locals@.len(),
                0 <= i <= n,
            decreases n - i,
        {
            if locals[i].name == target {
                proof {
                    assert(ctx_wf(self.class_dict.sk_classes@, self.ctx_stack@[k - 1]));
                    assert(ty_exists(self.class_dict.sk_classes@, locals@[i as int].ty));
                }
                return Some(locals[i].ty.clone());
            }
            i = i + 1;
        }
        None
    }

    /// The registered type of a constant, if any.
    fn find_constant(&self, fullname: &ConstFullname) -> (r: Option<TermTy>)
        requires
            self.wf(),
        ensures
            r matches Some(t) ==> ty_exists(self.class_dict.sk_classes@, t),
    {
        let n = self.constants.len();
        let mut i: usize = 0;
        while i < n
            invariant
                self.wf(),
                n == self.constants@.len(),
                0 <= i <= n,
            decreases n - i,
        {
            if self.constants[i].0 == *fullname {
                proof {
                    assert(ty_exists(self.class_dict.sk_classes@, self.constants@[i as int].1));
                }
                return Some(self.constants[i].1.clone());
            }
            i = i + 1;
        }
        None
    }

    /// Lower a sequence of expressions; the body's type is the last
    /// expression's, or `Void` when empty.
    fn convert_exprs(&mut self, exprs: &Vec<ast::Expression>) -> (r: Result<HirExpressions, Error>)
        requires
            old(self).wf(),
        ensures
            final(self).wf(),
            final(self).class_dict == old(self).class_dict,
            final(self).method_dict == old(self).method_dict,
            final(self).constants == old(self).constants,
            final(self).const_inits == old(self).const_inits,
            final(self).ctx_stack@.len() == old(self).ctx_stack@.len(),
            frames_extended(old(self).ctx_stack@, final(self).ctx_stack@),
            old(self).ctx_stack@.len() == 0 ==> final(self).ctx_stack == old(self).ctx_stack,
            (old(self).ctx_stack@.len() > 0 && !old(self).ctx_stack@[old(self).ctx_stack@.len()
                - 1].is_initializer) ==> final(self).ctx_stack == old(self).ctx_stack,
            r matches Err(e) ==> (e.kind == crate::error::ErrorKind::NameError || e.kind
                == crate::error::ErrorKind::TypeError || e.kind
                == crate::error::ErrorKind::ProgramError),
            r matches Ok(b) ==> ty_exists(final(self).class_dict.sk_classes@, b.ty),
            r matches Ok(b) ==> b.exprs@.len() == exprs@.len(),
            r matches Ok(b) ==> forall|k: int|
                0 <= k < exprs@.len() ==> lowered_matches(
                    old(self).class_dict.sk_classes@,
                    exprs@[k],
                    #[trigger] b.exprs@[k],
                ),
            exprs@.len() == 0 && has_class_name(old(self).class_dict.sk_classes@, "Void"@) ==> r
                is Ok,
    {
        let n = exprs.len();
        let mut out: Vec<HirExpression> = Vec::new();
        let mut i: usize = 0;
        while i < n
            invariant
                self.wf(),
                self.class_dict == old(self).class_dict,
                self.method_dict == old(self).method_dict,
                self.constants == old(self).constants,
                self.const_inits == old(self).const_inits,
                self.ctx_stack@.len() == old(self).ctx_stack@.len(),
                frames_extended(old(self).ctx_stack@, self.ctx_stack@),
                self.ctx_stack == old(self).ctx_stack || (old(self).ctx_stack@.len() > 0
                    && old(self).ctx_stack@[old(self).ctx_stack@.len() - 1].is_initializer),
                n == exprs@.len(),
                0 <= i <= n,
                out@.len() == i as int,
                forall|k: int|
                    0 <= k < i ==> ty_exists(
                        self.class_dict.sk_classes@,
                        (#[trigger] out@[k]).ty,
                    ),
                forall|k: int|
                    0 <= k < i ==> lowered_matches(
                        old(self).class_dict.sk_classes@,
                        exprs@[k],
                        #[trigger] out@[k],
                    ),
            decreases n - i,
        {
            let e = match self.convert_expr(&exprs[i]) {
                Ok(e) => e,
                Err(err) => {
                    return Err(err);
                },
            };
            out.push(e);
            i = i + 1;
        }
        if out.len() == 0 {
            if !self.class_dict.class_exists("Void") {
                return Err(name_error("the core class Void is missing"));
            }
            Ok(HirExpressions::new(out))
        } else {
            proof {
                assert(ty_exists(self.class_dict.sk_classes@, out@[out@.len() - 1].ty));
            }
            Ok(HirExpressions::new(out))
        }
    }

    /// Lower one expression, resolving names and typing the result.
    /// Every produced node's type names a class of the dictionary.
    #[verifier::rlimit(100)]
    #[verifier::spinoff_prover]
    fn convert_expr(&mut self, expr: &ast::Expression) -> (r: Result<HirExpression, Error>)
        requires
            old(self).wf(),
        ensures
            final(self).wf(),
            final(self).class_dict == old(self).class_dict,
            final(self).method_dict == old(self).method_dict,
            final(self).constants == old(self).constants,
            final(self).const_inits == old(self).const_inits,
            final(self).ctx_stack@.len() == old(self).ctx_stack@.len(),
            frames_extended(old(self).ctx_stack@, final(self).ctx_stack@),
            old(self).ctx_stack@.len() == 0 ==> final(self).ctx_stack == old(self).ctx_stack,
            (old(self).ctx_stack@.len() > 0 && !old(self).ctx_stack@[old(self).ctx_stack@.len()
                - 1].is_initializer) ==> final(self).ctx_stack == old(self).ctx_stack,
            r matches Err(e) ==> (e.kind == crate::error::ErrorKind::NameError || e.kind
                == crate::error::ErrorKind::TypeError || e.kind
                == crate::error::ErrorKind::ProgramError),
            r matches Ok(e) ==> ty_exists(final(self).class_dict.sk_classes@, e.ty),
            r matches Ok(e) ==> lowered_matches(old(self).class_dict.sk_classes@, *expr, e),
        decreases *expr,
    {
        match &expr.body {
            ast::ExpressionBody::DecimalLiteral { value } => {
                if !self.class_dict.class_exists("Int") {
                    return Err(name_error("the core class Int is missing"));
                }
                Ok(HirExpression {
                    ty: ty::raw("Int"),
                    node: HirExpressionBase::HirDecimalLiteral { value: *value },
                })
            },
            ast::ExpressionBody::FloatLiteral { lexeme } => {
                if !self.class_dict.class_exists("Float") {
                    return Err(name_error("the core class Float is missing"));
                }
                Ok(Hir::float_literal(lexeme.as_str()))
            },
            ast::ExpressionBody::TrueLiteral => {
                if !self.class_dict.class_exists("Bool") {
                    return Err(name_error("the core class Bool is missing"));
                }
                Ok(HirExpression {
                    ty: ty::raw("Bool"),
                    node: HirExpressionBase::HirBooleanLiteral { value: true },
                })
            },
            ast::ExpressionBody::FalseLiteral => {
                if !self.class_dict.class_exists("Bool") {
                    return Err(name_error("the core class Bool is missing"));
                }
                Ok(HirExpression {
                    ty: ty::raw("Bool"),
                    node: HirExpressionBase::HirBooleanLiteral { value: false },
                })
            },
            ast::ExpressionBody::StringLiteral { value } => {
                if !self.class_dict.class_exists("String") {
                    return Err(name_error("the core class String is missing"));
                }
                let idx = self.register_string_literal(value.clone());
                Ok(HirExpression {
                    ty: ty::raw("String"),
                    node: HirExpressionBase::HirStringLiteral { idx },
                })
            },
            ast::ExpressionBody::SelfExpr => {
                match self.current_self_ty() {
                    Some(t) => Ok(HirExpression {
                        ty: t,
                        node: HirExpressionBase::HirSelfExpression,
                    }),
                    None => Err(type_error("`self` is not available at the top level")),
                }
            },
            ast::ExpressionBody::BareName(s) => {
                match self.lookup_local(s.as_str()) {
                    Some(t) => Ok(HirExpression {
                        ty: t,
                        node: HirExpressionBase::HirLVarRef { name: s.clone() },
                    }),
                    None => {
                        // a method call on the implicit `self`, without
                        // arguments
                        match self.current_self_ty() {
                            Some(self_ty) => {
                                let recv = HirExpression {
                                    ty: self_ty,
                                    node: HirExpressionBase::HirSelfExpression,
                                };
                                self.make_method_call(recv, s.as_str(), Vec::new())
                            },
                            None => Err(name_error("unknown name at the top level")),
                        }
                    },
                }
            },
            ast::ExpressionBody::ConstRef(s) => {
                let fullname = const_fullname("", s.as_str());
                match self.find_constant(&fullname) {
                    Some(t) => Ok(HirExpression {
                        ty: t,
                        node: HirExpressionBase::HirConstRef { fullname },
                    }),
                    None => Err(name_error("unknown constant")),
                }
            },
            ast::ExpressionBody::IVarRef(s) => {
                let self_cls = match self.current_self_ty() {
                    Some(t) => t.fullname(),
                    None => {
                        return Err(type_error(
                            "an instance variable is not available at the top level",
                        ));
                    },
                };
                // in an initializer the accumulated list is authoritative
                match self.lookup_iivar(s.as_str()) {
                    Some((idx, t)) => {
                        return Ok(HirExpression {
                            ty: t,
                            node: HirExpressionBase::HirIVarRef { name: s.clone(), idx },
                        });
                    },
                    None => {},
                }
                if !self.class_dict.class_exists(self_cls.0.as_str()) {
                    return Err(name_error("the class of `self` is missing"));
                }
                let (idx, t) = match self.class_dict.find_ivar(&self_cls, s.as_str()) {
                    Some(v) => (v.idx, v.ty.clone()),
                    None => {
                        return Err(name_error("unknown instance variable"));
                    },
                };
                if !self.class_dict.class_exists(t.fullname().0.as_str()) {
                    return Err(name_error("an instance variable has an unknown type"));
                }
                Ok(HirExpression {
                    ty: t,
                    node: HirExpressionBase::HirIVarRef { name: s.clone(), idx },
                })
            },
            ast::ExpressionBody::IVarAssign { name, rhs } => {
                proof {
                    assert(decreases_to!(*expr => expr.body));
                    assert(decreases_to!(expr.body => *expr.body->IVarAssign_rhs));
                }
                let rhs_hir = match self.convert_expr(rhs) {
                    Ok(e) => e,
                    Err(err) => {
                        return Err(err);
                    },
                };
                self.convert_ivar_assign(name, rhs_hir)
            },
            ast::ExpressionBody::LogicalNot { expr: inner } => {
                proof {
                    assert(decreases_to!(*expr => expr.body));
                    assert(decreases_to!(expr.body => *expr.body->LogicalNot_expr));
                }
                let e = match self.convert_expr(inner) {
                    Ok(e) => e,
                    Err(err) => {
                        return Err(err);
                    },
                };
                if !e.ty.is_raw_of("Bool") {
                    return Err(type_error("the operand of a negation must be a Bool"));
                }
                let ghost classes = self.class_dict.sk_classes@;
                let f = HirExpression {
                    ty: ty::raw("Bool"),
                    node: HirExpressionBase::HirBooleanLiteral { value: false },
                };
                let t = HirExpression {
                    ty: ty::raw("Bool"),
                    node: HirExpressionBase::HirBooleanLiteral { value: true },
                };
                proof {
                    assert(ty_exists(classes, e.ty));
                }
                let ty = ty::raw("Bool");
                Ok(Hir::if_expression(ty, e, f, t))
            },
            ast::ExpressionBody::LogicalAnd { left, right } => {
                proof {
                    assert(decreases_to!(*expr => expr.body));
                    assert(decreases_to!(expr.body => *expr.body->LogicalAnd_left));
                    assert(decreases_to!(expr.body => *expr.body->LogicalAnd_right));
                }
                let l = match self.convert_expr(left) {
                    Ok(e) => e,
                    Err(err) => {
                        return Err(err);
                    },
                };
                let rr = match self.convert_expr(right) {
                    Ok(e) => e,
                    Err(err) => {
                        return Err(err);
                    },
                };
                if !l.ty.is_raw_of("Bool") || !rr.ty.is_raw_of("Bool") {
                    return Err(type_error("both sides of `and` must be Bool"));
                }
                let f = HirExpression {
                    ty: ty::raw("Bool"),
                    node: HirExpressionBase::HirBooleanLiteral { value: false },
                };
                let ghost lt = l.ty;
                proof {
                    assert(ty_exists(self.class_dict.sk_classes@, lt));
                }
                let ty = ty::raw("Bool");
                Ok(Hir::if_expression(ty, l, rr, f))
            },
            ast::ExpressionBody::LogicalOr { left, right } => {
                proof {
                    assert(decreases_to!(*expr => expr.body));
                    assert(decreases_to!(expr.body => *expr.body->LogicalOr_left));
                    assert(decreases_to!(expr.body => *expr.body->LogicalOr_right));
                }
                let l = match self.convert_expr(left) {
                    Ok(e) => e,
                    Err(err) => {
                        return Err(err);
                    },
                };
                let rr = match self.convert_expr(right) {
                    Ok(e) => e,
                    Err(err) => {
                        return Err(err);
                    },
                };
                if !l.ty.is_raw_of("Bool") || !rr.ty.is_raw_of("Bool") {
                    return Err(type_error("both sides of `or` must be Bool"));
                }
                let t = HirExpression {
                    ty: ty::raw("Bool"),
                    node: HirExpressionBase::HirBooleanLiteral { value: true },
                };
                let ghost lt = l.ty;
                proof {
                    assert(ty_exists(self.class_dict.sk_classes@, lt));
                }
                let ty = ty::raw("Bool");
                Ok(Hir::if_expression(ty, l, t, rr))
            },
            ast::ExpressionBody::If { cond_expr, then_expr, else_expr } => {
                proof {
                    assert(decreases_to!(*expr => expr.body));
                    assert(decreases_to!(expr.body => *expr.body->If_cond_expr));
                    assert(decreases_to!(expr.body => *expr.body->If_then_expr));
                }
                let c = match self.convert_expr(cond_expr) {
                    Ok(e) => e,
                    Err(err) => {
                        return Err(err);
                    },
                };
                if !c.ty.is_raw_of("Bool") {
                    return Err(type_error("the condition of an `if` must be a Bool"));
                }
                let t = match self.convert_expr(then_expr) {
                    Ok(e) => e,
                    Err(err) => {
                        return Err(err);
                    },
                };
                match else_expr {
                    Some(ee) => {
                        proof {
                            assert(decreases_to!(*expr => expr.body));
                            assert(expr.body->If_else_expr matches Some(b));
                            assert(decreases_to!(expr.body => *expr.body->If_else_expr->0));
                        }
                        let e = match self.convert_expr(ee) {
                            Ok(e) => e,
                            Err(err) => {
                                return Err(err);
                            },
                        };
                        let ty = self.class_dict.nearest_common_ancestor(&t.ty, &e.ty);
                        Ok(Hir::if_expression(ty, c, t, e))
                    },
                    None => {
                        if !self.class_dict.class_exists("Void") {
                            return Err(name_error("the core class Void is missing"));
                        }
                        Ok(Hir::if_expression(ty::raw("Void"), c, t, Hir::nop()))
                    },
                }
            },
            ast::ExpressionBody::MethodCall {
                receiver_expr,
                method_name,
                arg_exprs,
                may_have_paren_wo_args: _,
            } => {
                let recv = match receiver_expr {
                    Some(re) => {
                        proof {
                            assert(decreases_to!(*expr => expr.body));
                            assert(decreases_to!(
                                expr.body => *expr.body->MethodCall_receiver_expr->0));
                        }
                        match self.convert_expr(re) {
                            Ok(e) => e,
                            Err(err) => {
                                return Err(err);
                            },
                        }
                    },
                    None => {
                        match self.current_self_ty() {
                            Some(self_ty) => HirExpression {
                                ty: self_ty,
                                node: HirExpressionBase::HirSelfExpression,
                            },
                            None => {
                                return Err(type_error(
                                    "a receiver-less call needs `self`, which the top level lacks",
                                ));
                            },
                        }
                    },
                };
                // lower the arguments
                let mut args: Vec<HirExpression> = Vec::new();
                let n = arg_exprs.len();
                let mut i: usize = 0;
                while i < n
                    invariant
                        self.wf(),
                        self.class_dict == old(self).class_dict,
                        self.method_dict == old(self).method_dict,
                        self.constants == old(self).constants,
                        self.const_inits == old(self).const_inits,
                        self.ctx_stack@.len() == old(self).ctx_stack@.len(),
                        frames_extended(old(self).ctx_stack@, self.ctx_stack@),
                        self.ctx_stack == old(self).ctx_stack || (old(self).ctx_stack@.len()
                            > 0 && old(self).ctx_stack@[old(self).ctx_stack@.len() - 1].is_initializer),
                self.ctx_stack == old(self).ctx_stack || (old(self).ctx_stack@.len() > 0
                    && old(self).ctx_stack@[old(self).ctx_stack@.len() - 1].is_initializer),
                        n == arg_exprs@.len(),
                        arg_exprs == expr.body->MethodCall_arg_exprs,
                        expr.body is MethodCall,
                        0 <= i <= n,
                        args@.len() == i as int,
                        forall|k: int|
                            0 <= k < i ==> ty_exists(
                                self.class_dict.sk_classes@,
                                (#[trigger] args@[k]).ty,
                            ),
                    decreases n - i,
                {
                    proof {
                        assert(decreases_to!(*expr => expr.body));
                        assert(decreases_to!(expr.body => expr.body->MethodCall_arg_exprs));
                        assert(decreases_to!(
                            expr.body->MethodCall_arg_exprs => arg_exprs@[i as int]));
                    }
                    let a = match self.convert_expr(&arg_exprs[i]) {
                        Ok(e) => e,
                        Err(err) => {
                            return Err(err);
                        },
                    };
                    args.push(a);
                    i = i + 1;
                }
                self.make_method_call(recv, method_name.0.as_str(), args)
            },
        }
    }

    /// The accumulated initializer ivar named `name`, if this frame is
    /// an initializer.
    fn lookup_iivar(&self, name: &str) -> (r: Option<(usize, TermTy)>)
        requires
            self.wf(),
        ensures
            r matches Some(p) ==> ty_exists(self.class_dict.sk_classes@, p.1),
            r is None && self.ctx_stack@.len() > 0 && self.ctx_stack@[self.ctx_stack@.len()
                - 1].is_initializer ==> forall|k: int|
                0 <= k < self.ctx_stack@[self.ctx_stack@.len() - 1].iivars@.len() ==> (
                #[trigger] self.ctx_stack@[self.ctx_stack@.len() - 1].iivars@[k]).name@ != name@,
    {
        let k = self.ctx_stack.len();
        if k == 0 {
            return None;
        }
        if !self.ctx_stack[k - 1].is_initializer {
            return None;
        }
        proof {
            assert(ctx_wf(self.class_dict.sk_classes@, self.ctx_stack@[k - 1]));
        }
        let ivars = &self.ctx_stack[k - 1].iivars;
        let n = ivars.len();
        let target = name.to_owned();
        let mut i: usize = 0;
        while i < n
            invariant
                self.wf(),
                k == self.ctx_stack@.len(),
                k >= 1,
                ivars == self.ctx_stack@[k - 1].iivars,
                n == ivars@.len(),
                0 <= i <= n,
                target@ == name@,
                forall|m: int| 0 <= m < i ==> (#[trigger] ivars@[m]).name@ != name@,
            decreases n - i,
        {
            if ivars[i].name == target {
                proof {
                    assert(ctx_wf(self.class_dict.sk_classes@, self.ctx_stack@[k - 1]));
                    assert(ty_exists(self.class_dict.sk_classes@, ivars@[i as int].ty));
                }
                return Some((ivars[i].idx, ivars[i].ty.clone()));
            }
            i = i + 1;
        }
        None
    }

    /// Lower `@name = rhs`: in an initializer, reuse or create the slot;
    /// elsewhere, assign to a declared ivar of `self`'s class.
    fn convert_ivar_assign(&mut self, name: &String, rhs: HirExpression) -> (r: Result<
        HirExpression,
        Error,
    >)
        requires
            old(self).wf(),
            ty_exists(old(self).class_dict.sk_classes@, rhs.ty),
        ensures
            final(self).wf(),
            final(self).class_dict == old(self).class_dict,
            final(self).method_dict == old(self).method_dict,
            final(self).constants == old(self).constants,
            final(self).const_inits == old(self).const_inits,
            final(self).ctx_stack@.len() == old(self).ctx_stack@.len(),
            frames_extended(old(self).ctx_stack@, final(self).ctx_stack@),
            old(self).ctx_stack@.len() == 0 ==> final(self).ctx_stack == old(self).ctx_stack,
            (old(self).ctx_stack@.len() > 0 && !old(self).ctx_stack@[old(self).ctx_stack@.len()
                - 1].is_initializer) ==> final(self).ctx_stack == old(self).ctx_stack,
            r matches Err(e) ==> (e.kind == crate::error::ErrorKind::NameError || e.kind
                == crate::error::ErrorKind::TypeError || e.kind
                == crate::error::ErrorKind::ProgramError),
            r matches Ok(e) ==> ty_exists(final(self).class_dict.sk_classes@, e.ty),
    {
        let k = self.ctx_stack.len();
        if k == 0 {
            return Err(type_error("an instance variable is not available at the top level"));
        }
        if self.ctx_stack[k - 1].is_initializer {
            match self.lookup_iivar(name.as_str()) {
                Some((idx, t)) => {
                    // reuse of an existing slot: the value must conform
                    if !self.class_dict.conforms(&rhs.ty, &t) {
                        return Err(type_error(
                            "an instance variable is reassigned with an unrelated type",
                        ));
                    }
                    let ty = rhs.ty.clone();
                    return Ok(HirExpression {
                        ty,
                        node: HirExpressionBase::HirIVarAssign {
                            name: name.clone(),
                            idx,
                            rhs: Box::new(rhs),
                        },
                    });
                },
                None => {},
            }
            // a new slot, after every existing one
            let mut ctx = match self.ctx_stack.pop() {
                Some(c) => c,
                None => {
                    return Err(program_error("the context stack is empty"));
                },
            };
            let idx = ctx.iivars.len();
            ctx.iivars.push(
                SkIVar { name: name.clone(), idx, ty: rhs.ty.clone(), readonly: true },
            );
            self.ctx_stack.push(ctx);
            let ty = rhs.ty.clone();
            Ok(HirExpression {
                ty,
                node: HirExpressionBase::HirIVarAssign {
                    name: name.clone(),
                    idx,
                    rhs: Box::new(rhs),
                },
            })
        } else {
            let self_cls = match self.current_self_ty() {
                Some(t) => t.fullname(),
                None => {
                    return Err(type_error(
                        "an instance variable needs `self`, which this scope lacks",
                    ));
                },
            };
            if !self.class_dict.class_exists(self_cls.0.as_str()) {
                return Err(name_error("the class of `self` is missing"));
            }
            let (idx, t) = match self.class_dict.find_ivar(&self_cls, name.as_str()) {
                Some(v) => (v.idx, v.ty.clone()),
                None => {
                    return Err(name_error("unknown instance variable"));
                },
            };
            if !self.class_dict.conforms(&rhs.ty, &t) {
                return Err(type_error("an instance variable is assigned an unrelated type"));
            }
            let ty = rhs.ty.clone();
            Ok(HirExpression {
                ty,
                node: HirExpressionBase::HirIVarAssign {
                    name: name.clone(),
                    idx,
                    rhs: Box::new(rhs),
                },
            })
        }
    }

    /// Resolve and type a call: look the method up the receiver's
    /// chain, check arity and argument conformance, take the
    /// signature's return type.
    fn make_method_call(
        &mut self,
        recv: HirExpression,
        method_name: &str,
        args: Vec<HirExpression>,
    ) -> (r: Result<HirExpression, Error>)
        requires
            old(self).wf(),
            ty_exists(old(self).class_dict.sk_classes@, recv.ty),
            forall|k: int|
                0 <= k < args@.len() ==> ty_exists(
                    old(self).class_dict.sk_classes@,
                    (#[trigger] args@[k]).ty,
                ),
        ensures
            final(self).wf(),
            final(self).class_dict == old(self).class_dict,
            final(self).method_dict == old(self).method_dict,
            final(self).constants == old(self).constants,
            final(self).const_inits == old(self).const_inits,
            final(self).ctx_stack@.len() == old(self).ctx_stack@.len(),
            frames_extended(old(self).ctx_stack@, final(self).ctx_stack@),
            old(self).ctx_stack@.len() == 0 ==> final(self).ctx_stack == old(self).ctx_stack,
            (old(self).ctx_stack@.len() > 0 && !old(self).ctx_stack@[old(self).ctx_stack@.len()
                - 1].is_initializer) ==> final(self).ctx_stack == old(self).ctx_stack,
            r matches Err(e) ==> (e.kind == crate::error::ErrorKind::NameError || e.kind
                == crate::error::ErrorKind::TypeError || e.kind
                == crate::error::ErrorKind::ProgramError),
            r matches Ok(e) ==> ty_exists(final(self).class_dict.sk_classes@, e.ty) && e.node
                is HirMethodCall,
            r matches Ok(e) ==> lookup_method_spec(
                old(self).class_dict.sk_classes@,
                crate::ty::ty_class_name(recv.ty),
                method_name@,
            ) matches Some(pair) && (e.node matches HirExpressionBase::HirMethodCall {
                receiver_expr,
                method_fullname,
                arg_exprs,
            } && *receiver_expr == recv && method_fullname == pair.0.fullname && arg_exprs@.len()
                == pair.0.params@.len()) && e.ty == pair.0.ret_ty,
            r is Err ==> (lookup_method_spec(
                old(self).class_dict.sk_classes@,
                crate::ty::ty_class_name(recv.ty),
                method_name@,
            ) is None || (r matches Err(err) && err.kind == crate::error::ErrorKind::TypeError)),
    {
        let ghost classes = self.class_dict.sk_classes@;
        let recv_cls = recv.ty.fullname();
        let first_name = MethodFirstname(method_name.to_owned());
        let (sig_fullname, sig_ret, sig_params) = match self.class_dict.lookup_method(
            &recv_cls,
            &first_name,
        ) {
            Ok((sig, _owner)) => {
                proof {
                    lemma_lookup_sig_resolved(classes, recv_cls@, first_name@);
                }
                (sig.fullname.clone(), sig.ret_ty.clone(), clone_params(&sig.params))
            },
            Err(e) => {
                return Err(e);
            },
        };
        if args.len() != sig_params.len() {
            return Err(type_error("wrong number of arguments"));
        }
        let n = args.len();
        let mut i: usize = 0;
        while i < n
            invariant
                self.wf(),
                self.class_dict == old(self).class_dict,
                self.method_dict == old(self).method_dict,
                self.constants == old(self).constants,
                self.const_inits == old(self).const_inits,
                self.ctx_stack@.len() == old(self).ctx_stack@.len(),
                frames_extended(old(self).ctx_stack@, self.ctx_stack@),
                self.ctx_stack == old(self).ctx_stack || (old(self).ctx_stack@.len() > 0
                    && old(self).ctx_stack@[old(self).ctx_stack@.len() - 1].is_initializer),
                n == args@.len(),
                sig_params@.len() == n,
                0 <= i <= n,
                forall|k: int|
                    0 <= k < args@.len() ==> ty_exists(
                        self.class_dict.sk_classes@,
                        (#[trigger] args@[k]).ty,
                    ),
            decreases n - i,
        {
            if !self.class_dict.conforms(&args[i].ty, &sig_params[i].ty) {
                return Err(type_error("an argument does not conform to its parameter type"));
            }
            i = i + 1;
        }
        proof {
            assert(ty_exists(classes, sig_ret));
        }
        Ok(HirExpression {
            ty: sig_ret,
            node: HirExpressionBase::HirMethodCall {
                receiver_expr: Box::new(recv),
                method_fullname: sig_fullname,
                arg_exprs: args,
            },
        })
    }
}

impl HirMaker {
    /// Replace the named class's instance variables, keeping the
    /// maker's invariant (the dictionary's names do not change).
    fn maker_define_ivars(&mut self, clsname: &ClassFullname, ivars: Vec<SkIVar>) -> (r: Result<
        (),
        Error,
    >)
        requires
            old(self).wf(),
            forall|k: int| 0 <= k < ivars@.len() ==> (#[trigger] ivars@[k]).idx == k,
            forall|k: int, l: int|
                0 <= k < l < ivars@.len() ==> (#[trigger] ivars@[k]).name@ != (
                #[trigger] ivars@[l]).name@,
        ensures
            final(self).wf(),
            final(self).method_dict == old(self).method_dict,
            final(self).constants == old(self).constants,
            final(self).const_inits == old(self).const_inits,
            final(self).ctx_stack == old(self).ctx_stack,
            forall|n: Seq<char>|
                has_class_name(old(self).class_dict.sk_classes@, n) == has_class_name(
                    final(self).class_dict.sk_classes@,
                    n,
                ),
            sigs_stable(old(self).class_dict.sk_classes@, final(self).class_dict.sk_classes@),
            r is Ok <==> has_class_name(old(self).class_dict.sk_classes@, clsname@),
            r is Ok ==> crate::class_dict::class_named(
                final(self).class_dict.sk_classes@,
                clsname@,
            ).ivars@ == ivars@,
            r matches Err(e) ==> e.kind == crate::error::ErrorKind::ProgramError && final(self).class_dict == old(self).class_dict,
    {
        if !self.class_dict.class_exists(clsname.0.as_str()) {
            return Err(program_error("cannot define instance variables: unknown class"));
        }
        let ghost old_classes = self.class_dict.sk_classes@;
        let ghost stack = self.ctx_stack@;
        let ghost consts = self.constants@;
        self.class_dict.define_ivars(clsname, ivars);
        proof {
            let new_classes = self.class_dict.sk_classes@;
            assert forall|i: int|
                0 <= i < stack.len() implies ctx_wf(new_classes, #[trigger] stack[i]) by {
                assert(ctx_wf(old_classes, stack[i]));
            }
            assert forall|i: int|
                0 <= i < consts.len() implies ty_exists(
                new_classes,
                (#[trigger] consts[i]).1,
            ) by {
                assert(ty_exists(old_classes, consts[i].1));
            }
        }
        Ok(())
    }

    /// Record the metaclass's one instance variable, `name`, holding
    /// the class's name at runtime.
    fn register_meta_ivar(&mut self, name: &ClassFullname) -> (r: Result<(), Error>)
        requires
            old(self).wf(),
        ensures
            final(self).wf(),
            final(self).method_dict == old(self).method_dict,
            final(self).constants == old(self).constants,
            final(self).const_inits == old(self).const_inits,
            final(self).ctx_stack == old(self).ctx_stack,
            forall|n: Seq<char>|
                has_class_name(old(self).class_dict.sk_classes@, n) == has_class_name(
                    final(self).class_dict.sk_classes@,
                    n,
                ),
            sigs_stable(old(self).class_dict.sk_classes@, final(self).class_dict.sk_classes@),
            r matches Err(e) ==> e.kind == crate::error::ErrorKind::ProgramError,
            r is Ok <==> has_class_name(
                old(self).class_dict.sk_classes@,
                crate::names::meta_name_of(name@),
            ),
            r is Ok ==> crate::class_dict::class_named(
                final(self).class_dict.sk_classes@,
                crate::names::meta_name_of(name@),
            ).ivars@.len() == 1 && (crate::class_dict::class_named(
                final(self).class_dict.sk_classes@,
                crate::names::meta_name_of(name@),
            ).ivars@[0].name@ == "name"@ && crate::class_dict::class_named(
                final(self).class_dict.sk_classes@,
                crate::names::meta_name_of(name@),
            ).ivars@[0].idx == 0 && crate::ty::is_raw_named(
                crate::class_dict::class_named(
                    final(self).class_dict.sk_classes@,
                    crate::names::meta_name_of(name@),
                ).ivars@[0].ty,
                "String"@,
            ) && crate::class_dict::class_named(
                final(self).class_dict.sk_classes@,
                crate::names::meta_name_of(name@),
            ).ivars@[0].readonly),
    {
        let meta = name.meta_name();
        let mut meta_ivars: Vec<SkIVar> = Vec::new();
        meta_ivars.push(
            SkIVar {
                name: "name".to_owned(),
                idx: 0,
                ty: ty::raw("String"),
                readonly: true,
            },
        );
        self.maker_define_ivars(&meta, meta_ivars)
    }

    /// Register a constant: lower its initializer, record its type
    /// under the namespace-qualified name, and queue the assignment.
    fn register_const(&mut self, name: &crate::names::ConstFirstname, expr: &ast::Expression) -> (
        r: Result<ConstFullname, Error>)
        requires
            old(self).wf(),
        ensures
            final(self).wf(),
            final(self).class_dict == old(self).class_dict,
            final(self).method_dict == old(self).method_dict,
            consts_preserved(old(self).constants@, final(self).constants@),
            old(self).ctx_stack@.len() == 0 ==> final(self).ctx_stack == old(self).ctx_stack,
            (old(self).ctx_stack@.len() > 0 && !old(self).ctx_stack@[old(self).ctx_stack@.len()
                - 1].is_initializer) ==> final(self).ctx_stack == old(self).ctx_stack,
            r matches Err(e) ==> (e.kind == crate::error::ErrorKind::NameError || e.kind
                == crate::error::ErrorKind::TypeError || e.kind
                == crate::error::ErrorKind::ProgramError),
            r matches Ok(f) ==> f@ == crate::names::const_fullname_of(
                (if old(self).ctx_stack@.len() == 0 {
                    Seq::<char>::empty()
                } else {
                    old(self).ctx_stack@[old(self).ctx_stack@.len() - 1].namespace@
                }),
                name@,
            ),
            r matches Ok(f) ==> final(self).constants@.len() == old(self).constants@.len() + 1 && (
            final(self).constants@[old(self).constants@.len() as int].0@ == f@ && final(self).const_inits@.len() == old(self).const_inits@.len() + 1 && (final(self).const_inits@[old(self).const_inits@.len() as int].node
                matches HirExpressionBase::HirConstAssign { fullname: cf, rhs } && cf@ == f@
                && rhs.ty == final(self).constants@[old(self).constants@.len() as int].1)),
            r is Err ==> final(self).constants == old(self).constants && final(self).const_inits
                == old(self).const_inits,
    {
        let k = self.ctx_stack.len();
        let namespace = if k == 0 {
            String::new()
        } else {
            self.ctx_stack[k - 1].namespace.clone()
        };
        let fullname = const_fullname(namespace.as_str(), name.0.as_str());
        let hir_expr = match self.convert_expr(expr) {
            Ok(e) => e,
            Err(err) => {
                return Err(err);
            },
        };
        let ty = hir_expr.ty.clone();
        proof {
            assert(ty_exists(self.class_dict.sk_classes@, ty));
        }
        self.constants.push((fullname.clone(), ty));
        let op = Hir::assign_const(fullname.clone(), hir_expr);
        self.const_inits.push(op);
        Ok(fullname)
    }

    /// Compile one method body under a fresh context frame; hand back
    /// the accumulated instance variables (for an initializer).
    fn convert_method_def_(
        &mut self,
        class_fullname: &ClassFullname,
        name: &MethodFirstname,
        body_exprs: &Vec<ast::Expression>,
        is_initializer: bool,
        super_ivars: Vec<SkIVar>,
    ) -> (r: Result<(SkMethod, Vec<SkIVar>), Error>)
        requires
            old(self).wf(),
            forall|k: int| 0 <= k < super_ivars@.len() ==> (#[trigger] super_ivars@[k]).idx == k,
            forall|k: int|
                0 <= k < super_ivars@.len() ==> ty_exists(
                    old(self).class_dict.sk_classes@,
                    (#[trigger] super_ivars@[k]).ty,
                ),
            forall|k: int, l: int|
                0 <= k < l < super_ivars@.len() ==> (#[trigger] super_ivars@[k]).name@ != (
                #[trigger] super_ivars@[l]).name@,
        ensures
            final(self).wf(),
            final(self).class_dict == old(self).class_dict,
            final(self).method_dict == old(self).method_dict,
            r matches Ok(p) ==> forall|k: int|
                0 <= k < p.1@.len() ==> (#[trigger] p.1@[k]).idx == k && ty_exists(
                    final(self).class_dict.sk_classes@,
                    p.1@[k].ty,
                ),
            r matches Ok(p) ==> forall|k: int, l: int|
                0 <= k < l < p.1@.len() ==> (#[trigger] p.1@[k]).name@ != (
                #[trigger] p.1@[l]).name@,
            r matches Ok(p) ==> super_ivars@.len() <= p.1@.len() && (forall|k: int|
                0 <= k < super_ivars@.len() ==> p.1@[k] == super_ivars@[k]),
            final(self).constants == old(self).constants,
            final(self).const_inits == old(self).const_inits,
            r is Ok ==> final(self).ctx_stack@ == old(self).ctx_stack@,
            r matches Ok(p) ==> has_class_name(old(self).class_dict.sk_classes@, class_fullname@)
                && (crate::class_dict::query::find_sig(
                crate::class_dict::class_named(
                    old(self).class_dict.sk_classes@,
                    class_fullname@,
                ).method_sigs@,
                name@,
            ) matches Some(s) && p.0.signature.fullname == s.fullname && p.0.signature.first_name
                == s.first_name && p.0.signature.ret_ty == s.ret_ty && p.0.signature.params@
                == s.params@),
            r matches Err(e) ==> (e.kind == crate::error::ErrorKind::NameError || e.kind
                == crate::error::ErrorKind::TypeError || e.kind
                == crate::error::ErrorKind::ProgramError),
            r matches Ok(p) ==> (p.0.body matches SkMethodBody::ShiikaMethodBody { exprs }
                && exprs.exprs@.len() == body_exprs@.len() && (forall|k: int|
                0 <= k < body_exprs@.len() ==> lowered_matches(
                    old(self).class_dict.sk_classes@,
                    body_exprs@[k],
                    #[trigger] exprs.exprs@[k],
                ))),
    {
        let ghost classes = self.class_dict.sk_classes@;
        // the signature was stored by the dictionary builder
        let sig_c = match self.class_dict.find_method(class_fullname, name) {
            Some(sig) => {
                proof {
                    crate::class_dict::lemma_class_index(classes, class_fullname@);
                    crate::class_dict::query::lemma_find_sig_member(
                        crate::class_dict::class_named(classes, class_fullname@).method_sigs@,
                        name@,
                    );
                }
                sig.clone()
            },
            None => {
                return Err(program_error("no signature was registered for this method"));
            },
        };
        proof {
            assert(sig_resolved(classes, sig_c));
        }
        let self_ty = crate::ty::ty_from_classname(class_fullname);
        let ctx = HirMakerContext {
            namespace: class_fullname.0.clone(),
            self_ty: Some(self_ty),
            is_initializer,
            locals: clone_params(&sig_c.params),
            iivars: super_ivars,
        };
        self.ctx_stack.push(ctx);
        let body = match self.convert_exprs(body_exprs) {
            Ok(b) => b,
            Err(err) => {
                return Err(err);
            },
        };
        let iivars = match self.ctx_stack.pop() {
            Some(c) => c.iivars,
            None => {
                return Err(program_error("the context stack is empty"));
            },
        };
        proof {
            assert(self.ctx_stack@ =~= old(self).ctx_stack@);
        }
        match self.class_dict.check_return_value(&sig_c, &body.ty) {
            Ok(u) => u,
            Err(err) => {
                return Err(err);
            },
        }
        Ok(
            (
                SkMethod {
                    signature: sig_c,
                    body: SkMethodBody::ShiikaMethodBody { exprs: body },
                },
                iivars,
            ),
        )
    }

    /// Compile an ordinary (non-initializer) method body.
    fn convert_method_def(
        &mut self,
        class_fullname: &ClassFullname,
        name: &MethodFirstname,
        body_exprs: &Vec<ast::Expression>,
    ) -> (r: Result<SkMethod, Error>)
        requires
            old(self).wf(),
        ensures
            final(self).wf(),
            final(self).class_dict == old(self).class_dict,
            final(self).method_dict == old(self).method_dict,
            final(self).constants == old(self).constants,
            final(self).const_inits == old(self).const_inits,
            r matches Err(e) ==> (e.kind == crate::error::ErrorKind::NameError || e.kind
                == crate::error::ErrorKind::TypeError || e.kind
                == crate::error::ErrorKind::ProgramError),
            r is Ok ==> final(self).ctx_stack@ == old(self).ctx_stack@,
            r matches Ok(m) ==> has_class_name(old(self).class_dict.sk_classes@, class_fullname@)
                && (crate::class_dict::query::find_sig(
                crate::class_dict::class_named(
                    old(self).class_dict.sk_classes@,
                    class_fullname@,
                ).method_sigs@,
                name@,
            ) matches Some(s) && m.signature.fullname == s.fullname && m.signature.first_name
                == s.first_name && m.signature.ret_ty == s.ret_ty && m.signature.params@
                == s.params@) && m.body is ShiikaMethodBody,
    {
        match self.convert_method_def_(class_fullname, name, body_exprs, false, Vec::new()) {
            Ok((m, _ivars)) => Ok(m),
            Err(e) => Err(e),
        }
    }

    /// Synthesize `.new` for a class: allocate, call the inherited or
    /// own `initialize` (bitcasting when it is inherited), return the
    /// allocation. The contract pins the synthesis down: whenever the
    /// chain provides an `initialize`, the produced method is
    /// `Meta:C#.new`, its parameters mirror that `initialize`, it
    /// returns `C`, and its declarative body allocates `C` and calls
    /// the owning class's `initialize` with the matching arity.
    pub fn create_new(&self, class_fullname: &ClassFullname) -> (r: Result<SkMethod, Error>)
        requires
            self.wf(),
            has_class_name(self.class_dict.sk_classes@, class_fullname@),
        ensures
            r matches Ok(m) ==> lookup_method_spec(
                self.class_dict.sk_classes@,
                class_fullname@,
                "initialize"@,
            ) matches Some(pair) && m.signature.fullname@ == crate::names::method_fullname_of(
                crate::names::meta_name_of(class_fullname@),
                ".new"@,
            ) && m.signature.first_name@ == "new"@ && crate::ty::is_raw_named(
                m.signature.ret_ty,
                class_fullname@,
            ) && m.signature.params@ == pair.0.params@ && (m.body
                matches SkMethodBody::SynthesizedNew { allocates, calls, bitcast_to, arity }
                && allocates@ == class_fullname@ && calls@ == crate::names::method_fullname_of(
                pair.1,
                "initialize"@,
            ) && arity == pair.0.params@.len() && (bitcast_to is Some <==> pair.1
                != class_fullname@) && (bitcast_to matches Some(b) ==> b@ == pair.1)),
            r is Err ==> lookup_method_spec(
                self.class_dict.sk_classes@,
                class_fullname@,
                "initialize"@,
            ) is None,
            r matches Err(e) ==> e.kind == crate::error::ErrorKind::ProgramError,
    {
        let first = MethodFirstname(String::from_str("initialize"));
        match self.class_dict.lookup_method(class_fullname, &first) {
            Ok((sig, found_cls)) => {
                let params = clone_params(&sig.params);
                let arity = params.len();
                let meta_name = class_fullname.meta_name();
                let need_bitcast = !(found_cls == *class_fullname);
                let calls = method_fullname(&found_cls, "initialize");
                let new_sig = crate::class_dict::MethodSignature {
                    fullname: method_fullname(&meta_name, ".new"),
                    first_name: MethodFirstname(String::from_str("new")),
                    ret_ty: TermTy::Raw { fullname: class_fullname.clone() },
                    params,
                };
                let bitcast_to = if need_bitcast {
                    Some(found_cls)
                } else {
                    None
                };
                Ok(
                    SkMethod {
                        signature: new_sig,
                        body: SkMethodBody::SynthesizedNew {
                            allocates: class_fullname.clone(),
                            calls,
                            bitcast_to,
                            arity,
                        },
                    },
                )
            },
            Err(e) => Err(e),
        }
    }

    /// Commit the class's instance variables: the inherited ones,
    /// extended by those its initializer (if any) assigns.
    #[verifier::rlimit(100)]
    fn commit_class_ivars(&mut self, defs: &Vec<ast::Definition>, fullname: &ClassFullname) -> (r:
        Result<(), Error>)
        requires
            old(self).wf(),
            has_class_name(old(self).class_dict.sk_classes@, fullname@),
        ensures
            final(self).wf(),
            methods_preserved(old(self).method_dict@, final(self).method_dict@),
            final(self).constants == old(self).constants,
            final(self).const_inits == old(self).const_inits,
            sigs_stable(old(self).class_dict.sk_classes@, final(self).class_dict.sk_classes@),
            r is Ok ==> final(self).ctx_stack@ == old(self).ctx_stack@,
            r matches Err(e) ==> (e.kind == crate::error::ErrorKind::NameError || e.kind
                == crate::error::ErrorKind::TypeError || e.kind
                == crate::error::ErrorKind::ProgramError),
    {
        // the inherited instance variables come first
        let super_ivars: Vec<SkIVar> = match self.class_dict.get_superclass(fullname) {
            Some(sc) => {
                proof {
                    let classes = self.class_dict.sk_classes@;
                    let s = crate::class_dict::query::super_name_of(
                        classes,
                        fullname@,
                    )->Some_0;
                    crate::class_dict::lemma_class_index(classes, s);
                }
                match clone_ivars_checked(&self.class_dict, &sc.ivars) {
                    Ok(v) => v,
                    Err(e) => {
                        return Err(e);
                    },
                }
            },
            None => Vec::new(),
        };
        // `initialize`, if present, defines the instance variables
        let n = defs.len();
        let mut init_idx: usize = n;
        let mut i: usize = 0;
        while i < n
            invariant
                n == defs@.len(),
                0 <= i <= n,
                *self == *old(self),
                forall|k: int|
                    0 <= k < super_ivars@.len() ==> (#[trigger] super_ivars@[k]).idx == k,
                forall|k: int|
                    0 <= k < super_ivars@.len() ==> ty_exists(
                        self.class_dict.sk_classes@,
                        (#[trigger] super_ivars@[k]).ty,
                    ),
                forall|k: int, l: int|
                    0 <= k < l < super_ivars@.len() ==> (#[trigger] super_ivars@[k]).name@ != (
                    #[trigger] super_ivars@[l]).name@,
                init_idx == n || (init_idx < n && defs@[init_idx as int]
                    is InitializerDefinition),
            decreases n - i,
        {
            if init_idx == n {
                match &defs[i] {
                    ast::Definition::InitializerDefinition { .. } => {
                        init_idx = i;
                    },
                    _ => {},
                }
            }
            i = i + 1;
        }
        let ivars: Vec<SkIVar> = if init_idx < n {
            match &defs[init_idx] {
                ast::Definition::InitializerDefinition { sig: _, body_exprs } => {
                    match self.lower_initializer(fullname, body_exprs, super_ivars) {
                        Ok(v) => v,
                        Err(e) => {
                            return Err(e);
                        },
                    }
                },
                _ => {
                    return Err(program_error("the initializer vanished"));
                },
            }
        } else {
            super_ivars
        };
        match self.maker_define_ivars(fullname, ivars) {
            Ok(u) => u,
            Err(e) => {
                return Err(e);
            },
        }
        Ok(())
    }

    /// Lower a class's `initialize` body and hand back the full
    /// instance-variable list it defines (the inherited ones first).
    fn lower_initializer(
        &mut self,
        fullname: &ClassFullname,
        body_exprs: &Vec<ast::Expression>,
        super_ivars: Vec<SkIVar>,
    ) -> (r: Result<Vec<SkIVar>, Error>)
        requires
            old(self).wf(),
            forall|k: int| 0 <= k < super_ivars@.len() ==> (#[trigger] super_ivars@[k]).idx == k,
            forall|k: int|
                0 <= k < super_ivars@.len() ==> ty_exists(
                    old(self).class_dict.sk_classes@,
                    (#[trigger] super_ivars@[k]).ty,
                ),
            forall|k: int, l: int|
                0 <= k < l < super_ivars@.len() ==> (#[trigger] super_ivars@[k]).name@ != (
                #[trigger] super_ivars@[l]).name@,
        ensures
            final(self).wf(),
            methods_preserved(old(self).method_dict@, final(self).method_dict@),
            final(self).constants == old(self).constants,
            final(self).const_inits == old(self).const_inits,
            final(self).class_dict == old(self).class_dict,
            r is Ok ==> final(self).ctx_stack@ == old(self).ctx_stack@,
            r matches Err(e) ==> (e.kind == crate::error::ErrorKind::NameError || e.kind
                == crate::error::ErrorKind::TypeError || e.kind
                == crate::error::ErrorKind::ProgramError),
            r matches Ok(v) ==> forall|k: int|
                0 <= k < v@.len() ==> (#[trigger] v@[k]).idx == k,
            r matches Ok(v) ==> forall|k: int, l: int|
                0 <= k < l < v@.len() ==> (#[trigger] v@[k]).name@ != (#[trigger] v@[l]).name@,
    {
        let init_name = MethodFirstname(String::from_str("initialize"));
        let (m, found_ivars) = match self.convert_method_def_(
            fullname,
            &init_name,
            body_exprs,
            true,
            super_ivars,
        ) {
            Ok(x) => x,
            Err(e) => {
                return Err(e);
            },
        };
        self.method_dict.push(m);
        Ok(found_ivars)
    }

    /// Synthesize `.new` for the class (unless it is primitive) and
    /// enter it into the compiled methods.
    fn synthesize_new(&mut self, fullname: &ClassFullname) -> (r: Result<(), Error>)
        requires
            old(self).wf(),
        ensures
            final(self).wf(),
            methods_preserved(old(self).method_dict@, final(self).method_dict@),
            final(self).constants == old(self).constants,
            final(self).const_inits == old(self).const_inits,
            final(self).class_dict == old(self).class_dict,
            final(self).ctx_stack == old(self).ctx_stack,
            r is Ok ==> (!(fullname@ == "Int"@ || fullname@ == "Float"@) ==> exists|q: int|
                0 <= q < final(self).method_dict@.len() && (#[trigger] final(self).method_dict@[q]).signature.fullname@ == crate::names::method_fullname_of(
                    crate::names::meta_name_of(fullname@),
                    ".new"@,
                )),
            r matches Err(e) ==> (e.kind == crate::error::ErrorKind::NameError || e.kind
                == crate::error::ErrorKind::TypeError || e.kind
                == crate::error::ErrorKind::ProgramError),
    {
        if has_new(fullname) {
            if !self.class_dict.class_exists(fullname.0.as_str()) {
                return Err(program_error("the class vanished"));
            }
            let m = match self.create_new(fullname) {
                Ok(m) => m,
                Err(e) => {
                    return Err(e);
                },
            };
            self.method_dict.push(m);
            proof {
                assert(self.method_dict@[self.method_dict@.len() - 1] == m);
            }
        }
        Ok(())
    }

    /// Process the definitions of one class body: the initializer
    /// first (it defines the instance variables), then `.new`, then
    /// the remaining methods, constants and nested classes.
    #[verifier::rlimit(100)]
    #[verifier::spinoff_prover]
    fn process_defs(&mut self, defs: &Vec<ast::Definition>, fullname: &ClassFullname) -> (r:
        Result<(), Error>)
        requires
            old(self).wf(),
        ensures
            final(self).wf(),
            methods_preserved(old(self).method_dict@, final(self).method_dict@),
            sigs_stable(old(self).class_dict.sk_classes@, final(self).class_dict.sk_classes@),
            consts_preserved(old(self).constants@, final(self).constants@),
            r matches Err(e) ==> (e.kind == crate::error::ErrorKind::NameError || e.kind
                == crate::error::ErrorKind::TypeError || e.kind
                == crate::error::ErrorKind::ProgramError),
            r is Ok ==> has_class_name(old(self).class_dict.sk_classes@, fullname@),
            r is Ok ==> (!(fullname@ == "Int"@ || fullname@ == "Float"@) ==> exists|q: int|
                0 <= q < final(self).method_dict@.len() && (#[trigger] final(self).method_dict@[q]).signature.fullname@ == crate::names::method_fullname_of(
                    crate::names::meta_name_of(fullname@),
                    ".new"@,
                )),
            r is Ok ==> forall|j: int|
                0 <= j < defs@.len() ==> ((#[trigger] defs@[j])
                    matches ast::Definition::InstanceMethodDefinition { sig, .. }
                    ==> dict_method_compiled(
                    old(self).class_dict.sk_classes@,
                    final(self).method_dict@,
                    fullname@,
                    sig.name@,
                )),
            r is Ok ==> forall|j: int|
                0 <= j < defs@.len() ==> ((#[trigger] defs@[j])
                    matches ast::Definition::ClassMethodDefinition { sig, .. }
                    ==> dict_method_compiled(
                    old(self).class_dict.sk_classes@,
                    final(self).method_dict@,
                    crate::names::meta_name_of(fullname@),
                    sig.name@,
                )),
            r is Ok ==> final(self).ctx_stack@ == old(self).ctx_stack@,
            r is Ok ==> class_consts_registered(
                final(self).constants@,
                fullname@,
                defs@,
                defs@.len() as int,
            ),
            r is Ok ==> nested_news_present(
                final(self).method_dict@,
                fullname@,
                defs@,
                defs@.len() as int,
            ),
        decreases defs@, 0int,
    {
        let ghost entry_classes = self.class_dict.sk_classes@;
        if !self.class_dict.class_exists(fullname.0.as_str()) {
            return Err(program_error("processing an unregistered class"));
        }
        // the class frame scopes the namespace for constant definitions
        let class_ctx = HirMakerContext {
            namespace: fullname.0.clone(),
            self_ty: None,
            is_initializer: false,
            locals: Vec::new(),
            iivars: Vec::new(),
        };
        self.ctx_stack.push(class_ctx);
        let ghost stack_in = self.ctx_stack@;
        match self.commit_class_ivars(defs, fullname) {
            Ok(u) => u,
            Err(e) => {
                return Err(e);
            },
        }
        match self.synthesize_new(fullname) {
            Ok(u) => u,
            Err(e) => {
                return Err(e);
            },
        }
        // the initializer was handled by the head; find it to skip it
        let ghost after_head = *self;
        let n = defs.len();
        let mut init_idx: usize = n;
        let mut i: usize = 0;
        while i < n
            invariant
                n == defs@.len(),
                0 <= i <= n,
                *self == after_head,
                init_idx == n || (init_idx < n && defs@[init_idx as int]
                    is InitializerDefinition),
            decreases n - i,
        {
            if init_idx == n {
                match &defs[i] {
                    ast::Definition::InitializerDefinition { .. } => {
                        init_idx = i;
                    },
                    _ => {},
                }
            }
            i = i + 1;
        }
        // the remaining definitions
        proof {
            reveal(class_consts_registered);
            reveal(nested_news_present);
        }
        let mut j: usize = 0;
        while j < n
            invariant
                self.wf(),
                n == defs@.len(),
                0 <= j <= n,
                init_idx <= n,
                init_idx < n ==> defs@[init_idx as int] is InitializerDefinition,
                entry_classes == old(self).class_dict.sk_classes@,
                crate::class_dict::wf_classes(entry_classes),
                has_class_name(entry_classes, fullname@),
                methods_preserved(old(self).method_dict@, self.method_dict@),
                consts_preserved(old(self).constants@, self.constants@),
                sigs_stable(entry_classes, self.class_dict.sk_classes@),
                self.ctx_stack@ == stack_in,
                stack_in.len() == old(self).ctx_stack@.len() + 1,
                forall|ii: int|
                    0 <= ii < old(self).ctx_stack@.len() ==> (#[trigger] stack_in[ii]) == old(self).ctx_stack@[ii],
                stack_in[stack_in.len() - 1].namespace@ == fullname@,
                !stack_in[stack_in.len() - 1].is_initializer,
                class_consts_registered(self.constants@, fullname@, defs@, j as int),
                nested_news_present(self.method_dict@, fullname@, defs@, j as int),
                !(fullname@ == "Int"@ || fullname@ == "Float"@) ==> exists|q: int|
                    0 <= q < self.method_dict@.len() && (#[trigger] self.method_dict@[q]).signature.fullname@ == crate::names::method_fullname_of(
                    crate::names::meta_name_of(fullname@),
                    ".new"@,
                ),
                forall|jj: int|
                    0 <= jj < j ==> ((#[trigger] defs@[jj])
                        matches ast::Definition::InstanceMethodDefinition { sig, .. }
                        ==> dict_method_compiled(
                        entry_classes,
                        self.method_dict@,
                        fullname@,
                        sig.name@,
                    )),
                forall|jj: int|
                    0 <= jj < j ==> ((#[trigger] defs@[jj])
                        matches ast::Definition::ClassMethodDefinition { sig, .. }
                        ==> dict_method_compiled(
                        entry_classes,
                        self.method_dict@,
                        crate::names::meta_name_of(fullname@),
                        sig.name@,
                    )),
            decreases n - j,
        {
            let ghost dict_at_entry = self.method_dict@;
            let ghost classes_at_entry = self.class_dict.sk_classes@;
            let ghost dict_consts_prev = self.constants@;
            proof {
                reveal(class_consts_registered);
                reveal(nested_news_present);
            }
            if j != init_idx {
                match &defs[j] {
                    ast::Definition::InstanceMethodDefinition { sig, body_exprs } => {
                        let m = match self.convert_method_def(fullname, &sig.name, body_exprs) {
                            Ok(m) => m,
                            Err(e) => {
                                return Err(e);
                            },
                        };
                        self.method_dict.push(m);
                        proof {
                            reveal(dict_method_compiled);
                            assert(defs@[j as int]->InstanceMethodDefinition_sig == *sig);
                            lemma_sigs_stable_class_named(
                                entry_classes,
                                classes_at_entry,
                                fullname@,
                            );
                            assert(self.method_dict@[self.method_dict@.len() - 1] == m);
                            assert(dict_method_compiled(
                                entry_classes,
                                self.method_dict@,
                                fullname@,
                                sig.name@,
                            ));
                        }
                    },
                    ast::Definition::ClassMethodDefinition { sig, body_exprs } => {
                        let meta = fullname.meta_name();
                        let m = match self.convert_method_def(&meta, &sig.name, body_exprs) {
                            Ok(m) => m,
                            Err(e) => {
                                return Err(e);
                            },
                        };
                        self.method_dict.push(m);
                        proof {
                            reveal(dict_method_compiled);
                            assert(defs@[j as int]->ClassMethodDefinition_sig == *sig);
                            let i = choose|i: int|
                                0 <= i < classes_at_entry.len()
                                    && classes_at_entry[i].fullname@ == meta@;
                            assert(entry_classes[i].fullname@ == meta@);
                            assert(has_class_name(entry_classes, meta@));
                            lemma_sigs_stable_class_named(entry_classes, classes_at_entry, meta@);
                            assert(self.method_dict@[self.method_dict@.len() - 1] == m);
                            assert(dict_method_compiled(
                                entry_classes,
                                self.method_dict@,
                                crate::names::meta_name_of(fullname@),
                                sig.name@,
                            ));
                        }
                    },
                    ast::Definition::ConstDefinition { name, expr } => {
                        let ghost consts_in = self.constants@;
                        match self.register_const(name, expr) {
                            Ok(_fullname) => {},
                            Err(e) => {
                                return Err(e);
                            },
                        }
                        proof {
                            assert(self.constants@[consts_in.len() as int].0@
                                == crate::names::const_fullname_of(fullname@, name@));
                        }
                    },
                    ast::Definition::ClassDefinition {
                        name,
                        superclass_name: _,
                        defs: inner_defs,
                    } => {
                        let full = name.add_namespace(fullname.0.as_str());
                        proof {
                            assert(decreases_to!(defs@ => defs@[j as int]));
                            assert(defs@[j as int]->ClassDefinition_defs == *inner_defs);
                            assert(decreases_to!(defs@[j as int] => inner_defs@));
                            assert(decreases_to!(defs@ => inner_defs@));
                        }
                        match self.collect_sk_methods(&full, inner_defs) {
                            Ok(u) => u,
                            Err(e) => {
                                return Err(e);
                            },
                        }
                        proof {
                            assert(full@ == crate::names::namespaced(fullname@, name@));
                        }
                    },
                    ast::Definition::InitializerDefinition { .. } => {
                        // a second initializer is rejected
                        return Err(program_error("a class has two initializers"));
                    },
                }
            }
            let ghost consts_at_entry = self.constants@;
            proof {
                if !(fullname@ == "Int"@ || fullname@ == "Float"@) {
                    let q0 = choose|q: int|
                        0 <= q < dict_at_entry.len() && (#[trigger] dict_at_entry[q]).signature.fullname@ == crate::names::method_fullname_of(
                            crate::names::meta_name_of(fullname@),
                            ".new"@,
                        );
                    assert(self.method_dict@[q0] == dict_at_entry[q0]);
                }
                assert(class_consts_registered(
                    self.constants@,
                    fullname@,
                    defs@,
                    j + 1,
                )) by {
                    reveal(class_consts_registered);
                    assert forall|jj: int|
                        0 <= jj < j + 1 && jj < defs@.len() && (#[trigger] defs@[jj])
                            is ConstDefinition implies exists|q: int|
                        0 <= q < self.constants@.len() && (#[trigger] self.constants@[q]).0@
                            == crate::names::const_fullname_of(
                            fullname@,
                            defs@[jj]->ConstDefinition_name@,
                        ) by {
                        if jj < j {
                            let q0 = choose|q: int|
                                0 <= q < dict_consts_prev.len()
                                    && (#[trigger] dict_consts_prev[q]).0@
                                    == crate::names::const_fullname_of(
                                    fullname@,
                                    defs@[jj]->ConstDefinition_name@,
                                );
                            assert(self.constants@[q0] == dict_consts_prev[q0]);
                        }
                    }
                }
                assert(nested_news_present(
                    self.method_dict@,
                    fullname@,
                    defs@,
                    j + 1,
                )) by {
                    reveal(nested_news_present);
                    assert forall|jj: int|
                        0 <= jj < j + 1 && jj < defs@.len() && (#[trigger] defs@[jj])
                            is ClassDefinition && !(crate::names::namespaced(
                        fullname@,
                        defs@[jj]->ClassDefinition_name@,
                    ) == "Int"@ || crate::names::namespaced(
                        fullname@,
                        defs@[jj]->ClassDefinition_name@,
                    ) == "Float"@) implies exists|q: int|
                        0 <= q < self.method_dict@.len() && (#[trigger] self.method_dict@[q]).signature.fullname@ == crate::names::method_fullname_of(
                            crate::names::meta_name_of(
                                crate::names::namespaced(
                                    fullname@,
                                    defs@[jj]->ClassDefinition_name@,
                                ),
                            ),
                            ".new"@,
                        ) by {
                        let nested = crate::names::namespaced(
                            fullname@,
                            defs@[jj]->ClassDefinition_name@,
                        );
                        if jj < j {
                            let q0 = choose|q: int|
                                0 <= q < dict_at_entry.len()
                                    && (#[trigger] dict_at_entry[q]).signature.fullname@
                                    == crate::names::method_fullname_of(
                                    crate::names::meta_name_of(nested),
                                    ".new"@,
                                );
                            assert(self.method_dict@[q0] == dict_at_entry[q0]);
                        }
                    }
                }
                assert forall|jj: int|
                    0 <= jj < j && (#[trigger] defs@[jj])
                        is InstanceMethodDefinition implies dict_method_compiled(
                    entry_classes,
                    self.method_dict@,
                    fullname@,
                    defs@[jj]->InstanceMethodDefinition_sig.name@,
                ) by {
                    reveal(dict_method_compiled);
                    let mname = defs@[jj]->InstanceMethodDefinition_sig.name@;
                    assert(dict_method_compiled(entry_classes, dict_at_entry, fullname@, mname));
                    let s0 = find_sig(
                        crate::class_dict::class_named(entry_classes, fullname@).method_sigs@,
                        mname,
                    )->Some_0;
                    let q = choose|q: int|
                        0 <= q < dict_at_entry.len()
                            && (#[trigger] dict_at_entry[q]).signature.fullname == s0.fullname
                            && dict_at_entry[q].signature.first_name == s0.first_name
                            && dict_at_entry[q].signature.ret_ty == s0.ret_ty
                            && dict_at_entry[q].signature.params@ == s0.params@;
                    assert(self.method_dict@[q] == dict_at_entry[q]);
                }
                assert forall|jj: int|
                    0 <= jj < j && (#[trigger] defs@[jj])
                        is ClassMethodDefinition implies dict_method_compiled(
                    entry_classes,
                    self.method_dict@,
                    crate::names::meta_name_of(fullname@),
                    defs@[jj]->ClassMethodDefinition_sig.name@,
                ) by {
                    reveal(dict_method_compiled);
                    let mname = defs@[jj]->ClassMethodDefinition_sig.name@;
                    assert(dict_method_compiled(
                        entry_classes,
                        dict_at_entry,
                        crate::names::meta_name_of(fullname@),
                        mname,
                    ));
                    let s0 = find_sig(
                        crate::class_dict::class_named(
                            entry_classes,
                            crate::names::meta_name_of(fullname@),
                        ).method_sigs@,
                        mname,
                    )->Some_0;
                    let q = choose|q: int|
                        0 <= q < dict_at_entry.len()
                            && (#[trigger] dict_at_entry[q]).signature.fullname == s0.fullname
                            && dict_at_entry[q].signature.first_name == s0.first_name
                            && dict_at_entry[q].signature.ret_ty == s0.ret_ty
                            && dict_at_entry[q].signature.params@ == s0.params@;
                    assert(self.method_dict@[q] == dict_at_entry[q]);
                }
            }
            j = j + 1;
        }
        let _ = self.ctx_stack.pop();
        proof {
            assert(self.ctx_stack@ =~= old(self).ctx_stack@);
        }
        Ok(())
    }

    /// Process one class: its metaclass's `name` ivar, then its body.
    fn collect_sk_methods(&mut self, fullname: &ClassFullname, defs: &Vec<ast::Definition>) -> (r:
        Result<(), Error>)
        requires
            old(self).wf(),
        ensures
            final(self).wf(),
            methods_preserved(old(self).method_dict@, final(self).method_dict@),
            sigs_stable(old(self).class_dict.sk_classes@, final(self).class_dict.sk_classes@),
            consts_preserved(old(self).constants@, final(self).constants@),
            r matches Err(e) ==> (e.kind == crate::error::ErrorKind::NameError || e.kind
                == crate::error::ErrorKind::TypeError || e.kind
                == crate::error::ErrorKind::ProgramError),
            r is Ok ==> final(self).ctx_stack@ == old(self).ctx_stack@,
            r is Ok ==> (!(fullname@ == "Int"@ || fullname@ == "Float"@) ==> exists|q: int|
                0 <= q < final(self).method_dict@.len() && (#[trigger] final(self).method_dict@[q]).signature.fullname@ == crate::names::method_fullname_of(
                    crate::names::meta_name_of(fullname@),
                    ".new"@,
                )),
            r is Ok ==> forall|j: int|
                0 <= j < defs@.len() ==> ((#[trigger] defs@[j])
                    matches ast::Definition::InstanceMethodDefinition { sig, .. }
                    ==> dict_method_compiled(
                    old(self).class_dict.sk_classes@,
                    final(self).method_dict@,
                    fullname@,
                    sig.name@,
                )),
        decreases defs@, 1int,
    {
        let ghost entry_classes = self.class_dict.sk_classes@;
        match self.register_meta_ivar(fullname) {
            Ok(u) => u,
            Err(e) => {
                return Err(e);
            },
        }
        let ghost mid_classes = self.class_dict.sk_classes@;
        let r = self.process_defs(defs, fullname);
        proof {
            if r is Ok {
                reveal(dict_method_compiled);
                // the class's stored signatures did not change between
                // this function's entry and the body processing
                let i = choose|i: int|
                    0 <= i < mid_classes.len() && mid_classes[i].fullname@ == fullname@;
                assert(entry_classes[i].fullname@ == fullname@);
                assert(has_class_name(entry_classes, fullname@));
                lemma_sigs_stable_class_named(entry_classes, mid_classes, fullname@);
            }
        }
        r
    }

    /// Lower one top-level item: a class, a constant, or a method of
    /// `Object`.
    fn process_toplevel_def(&mut self, def: &ast::Definition) -> (r: Result<(), Error>)
        requires
            old(self).wf(),
        ensures
            final(self).wf(),
            methods_preserved(old(self).method_dict@, final(self).method_dict@),
            sigs_stable(old(self).class_dict.sk_classes@, final(self).class_dict.sk_classes@),
            consts_preserved(old(self).constants@, final(self).constants@),
            (old(self).ctx_stack@.len() > 0 && !old(self).ctx_stack@[old(self).ctx_stack@.len()
                - 1].is_initializer) ==> (r is Ok ==> final(self).ctx_stack@ == old(self).ctx_stack@),
            r matches Err(e) ==> (e.kind == crate::error::ErrorKind::NameError || e.kind
                == crate::error::ErrorKind::TypeError || e.kind
                == crate::error::ErrorKind::ProgramError),
            r is Ok ==> (def matches ast::Definition::InstanceMethodDefinition { sig, .. }
                ==> dict_method_compiled(
                old(self).class_dict.sk_classes@,
                final(self).method_dict@,
                crate::class_dict::object_name(),
                sig.name@,
            )),
            r is Ok ==> (def matches ast::Definition::ClassMethodDefinition { sig, .. }
                ==> dict_method_compiled(
                old(self).class_dict.sk_classes@,
                final(self).method_dict@,
                crate::names::meta_name_of(crate::class_dict::object_name()),
                sig.name@,
            )),
            r is Ok ==> (def is InitializerDefinition ==> dict_method_compiled(
                old(self).class_dict.sk_classes@,
                final(self).method_dict@,
                crate::class_dict::object_name(),
                "initialize"@,
            )),
            r is Ok ==> (def is ConstDefinition ==> final(self).constants@.len() == old(
                self,
            ).constants@.len() + 1),
            r is Ok ==> (def matches ast::Definition::ClassDefinition { name, .. } ==> (!(name@
                == "Int"@ || name@ == "Float"@) ==> exists|q: int|
                0 <= q < final(self).method_dict@.len() && (#[trigger] final(self).method_dict@[q]).signature.fullname@ == crate::names::method_fullname_of(
                    crate::names::meta_name_of(name@),
                    ".new"@,
                ))),
    {
        match def {
            ast::Definition::ClassDefinition { name, superclass_name: _, defs } => {
                let full = name.add_namespace("");
                proof {
                    reveal_strlit("");
                    assert(full@ == name@);
                }
                self.collect_sk_methods(&full, defs)
            },
            ast::Definition::ConstDefinition { name, expr } => {
                match self.register_const(name, expr) {
                    Ok(_f) => Ok(()),
                    Err(e) => Err(e),
                }
            },
            ast::Definition::InstanceMethodDefinition { sig, body_exprs } => {
                let obj = ClassFullname(String::from_str("Object"));
                proof {
                    reveal_strlit("Object");
                    assert(obj@ =~= crate::class_dict::object_name());
                }
                let m = match self.convert_method_def(&obj, &sig.name, body_exprs) {
                    Ok(m) => m,
                    Err(e) => {
                        return Err(e);
                    },
                };
                self.method_dict.push(m);
                proof {
                    reveal(dict_method_compiled);
                    assert(self.method_dict@[self.method_dict@.len() - 1] == m);
                }
                Ok(())
            },
            ast::Definition::InitializerDefinition { sig: _, body_exprs } => {
                let obj = ClassFullname(String::from_str("Object"));
                let init_name = MethodFirstname(String::from_str("initialize"));
                proof {
                    reveal_strlit("Object");
                    assert(obj@ =~= crate::class_dict::object_name());
                }
                let m = match self.convert_method_def(&obj, &init_name, body_exprs) {
                    Ok(m) => m,
                    Err(e) => {
                        return Err(e);
                    },
                };
                self.method_dict.push(m);
                proof {
                    reveal(dict_method_compiled);
                    assert(self.method_dict@[self.method_dict@.len() - 1] == m);
                }
                Ok(())
            },
            ast::Definition::ClassMethodDefinition { sig, body_exprs } => {
                let obj = ClassFullname(String::from_str("Object"));
                let meta = obj.meta_name();
                proof {
                    reveal_strlit("Object");
                    assert(obj@ =~= crate::class_dict::object_name());
                    assert(meta@ == crate::names::meta_name_of(crate::class_dict::object_name()));
                }
                let m = match self.convert_method_def(&meta, &sig.name, body_exprs) {
                    Ok(m) => m,
                    Err(e) => {
                        return Err(e);
                    },
                };
                self.method_dict.push(m);
                proof {
                    reveal(dict_method_compiled);
                    assert(self.method_dict@[self.method_dict@.len() - 1] == m);
                }
                Ok(())
            },
        }
    }

    /// Lower every top-level item under a fresh top-level frame; the
    /// result is the program's main expressions.
    fn convert_toplevel_items(&mut self, prog: &ast::Program) -> (r: Result<HirExpressions, Error>)
        requires
            old(self).wf(),
        ensures
            final(self).wf(),
            sigs_stable(old(self).class_dict.sk_classes@, final(self).class_dict.sk_classes@),
            consts_preserved(old(self).constants@, final(self).constants@),
            methods_preserved(old(self).method_dict@, final(self).method_dict@),
            r matches Err(e) ==> (e.kind == crate::error::ErrorKind::NameError || e.kind
                == crate::error::ErrorKind::TypeError || e.kind
                == crate::error::ErrorKind::ProgramError),
            r is Ok ==> final(self).ctx_stack@ == old(self).ctx_stack@,
            r matches Ok(b) ==> b.exprs@.len() == prog.exprs@.len(),
            r matches Ok(b) ==> forall|k: int|
                0 <= k < prog.exprs@.len() ==> lowered_matches(
                    final(self).class_dict.sk_classes@,
                    prog.exprs@[k],
                    #[trigger] b.exprs@[k],
                ),
            prog.toplevel_defs@.len() == 0 && prog.exprs@.len() == 0 && has_class_name(
                old(self).class_dict.sk_classes@,
                "Void"@,
            ) ==> r is Ok,
    {
        let ctx = HirMakerContext {
            namespace: String::new(),
            self_ty: None,
            is_initializer: false,
            locals: Vec::new(),
            iivars: Vec::new(),
        };
        self.ctx_stack.push(ctx);
        let ghost stack_in = self.ctx_stack@;
        let n = prog.toplevel_defs.len();
        let mut i: usize = 0;
        while i < n
            invariant
                self.wf(),
                n == prog.toplevel_defs@.len(),
                0 <= i <= n,
                sigs_stable(old(self).class_dict.sk_classes@, self.class_dict.sk_classes@),
                consts_preserved(old(self).constants@, self.constants@),
                methods_preserved(old(self).method_dict@, self.method_dict@),
                self.ctx_stack@ == stack_in,
                stack_in.len() == old(self).ctx_stack@.len() + 1,
                forall|ii: int|
                    0 <= ii < old(self).ctx_stack@.len() ==> (#[trigger] stack_in[ii]) == old(self).ctx_stack@[ii],
                !stack_in[stack_in.len() - 1].is_initializer,
                n == 0 ==> self.class_dict == old(self).class_dict,
            decreases n - i,
        {
            match self.process_toplevel_def(&prog.toplevel_defs[i]) {
                Ok(u) => u,
                Err(e) => {
                    return Err(e);
                },
            }
            i = i + 1;
        }
        let main_exprs = match self.convert_exprs(&prog.exprs) {
            Ok(b) => b,
            Err(e) => {
                return Err(e);
            },
        };
        let _ = self.ctx_stack.pop();
        proof {
            assert(self.ctx_stack@ =~= old(self).ctx_stack@);
        }
        Ok(main_exprs)
    }
}

/// Clone an ivar list, checking that every held type still names a
/// class (the builder and the maker only store such types).
fn clone_ivars_checked(dict: &ClassDict, ivars: &Vec<SkIVar>) -> (r: Result<Vec<SkIVar>, Error>)
    requires
        dict.wf(),
        forall|k: int| 0 <= k < ivars@.len() ==> (#[trigger] ivars@[k]).idx == k,
        forall|k: int, l: int|
            0 <= k < l < ivars@.len() ==> (#[trigger] ivars@[k]).name@ != (
            #[trigger] ivars@[l]).name@,
    ensures
        r matches Ok(v) ==> v@ == ivars@ && (forall|k: int|
            0 <= k < v@.len() ==> ty_exists(dict.sk_classes@, (#[trigger] v@[k]).ty)),
        r matches Err(e) ==> e.kind == crate::error::ErrorKind::NameError,
{
    let mut out: Vec<SkIVar> = Vec::new();
    let n = ivars.len();
    let mut i: usize = 0;
    while i < n
        invariant
            dict.wf(),
            n == ivars@.len(),
            0 <= i <= n,
            out@.len() == i as int,
            forall|k: int| 0 <= k < i ==> out@[k] == ivars@[k],
            forall|k: int|
                0 <= k < i ==> ty_exists(dict.sk_classes@, (#[trigger] out@[k]).ty),
        decreases n - i,
    {
        let full = ivars[i].ty.fullname();
        if !dict.class_exists(full.0.as_str()) {
            return Err(name_error("an instance variable has an unknown type"));
        }
        out.push(ivars[i].clone());
        i = i + 1;
    }
    proof {
        assert(out@ =~= ivars@);
    }
    Ok(out)
}

/// Lower a parsed program against a class dictionary.
fn convert_program(class_dict: ClassDict, prog: &ast::Program) -> (r: Result<Hir, Error>)
    requires
        class_dict.wf(),
    ensures
        r matches Ok(h) ==> crate::class_dict::wf_classes(h.sk_classes@),
        r matches Ok(h) ==> h.main_exprs.exprs@.len() == prog.exprs@.len(),
        r matches Ok(h) ==> forall|k: int|
            0 <= k < prog.exprs@.len() ==> lowered_matches(
                h.sk_classes@,
                prog.exprs@[k],
                #[trigger] h.main_exprs.exprs@[k],
            ),
        r matches Ok(h) ==> h.constants@.len() >= 1 && (h.constants@[h.constants@.len() - 1].0@
            == crate::names::const_fullname_of(Seq::<char>::empty(), "Void"@) && crate::ty::is_raw_named(
            h.constants@[h.constants@.len() - 1].1,
            "Void"@,
        )),
        r matches Ok(h) ==> forall|i: int|
            0 <= i < class_dict.sk_classes@.len() && !crate::names::is_meta_name(
                (#[trigger] class_dict.sk_classes@[i]).fullname@,
            ) && !class_dict.sk_classes@[i].const_is_obj && has_class_name(
                class_dict.sk_classes@,
                crate::names::meta_name_of(class_dict.sk_classes@[i].fullname@),
            ) ==> has_class_const(h.constants@, class_dict.sk_classes@[i].fullname@),
        prog.toplevel_defs@.len() == 0 && prog.exprs@.len() == 0 && has_class_name(
            class_dict.sk_classes@,
            "Void"@,
        ) ==> r is Ok,
        r matches Err(e) ==> (e.kind == crate::error::ErrorKind::NameError || e.kind
            == crate::error::ErrorKind::TypeError || e.kind
            == crate::error::ErrorKind::ProgramError),
        r matches Ok(h) ==> forall|n: Seq<char>|
            has_class_name(class_dict.sk_classes@, n) ==> has_class_name(h.sk_classes@, n),
{
    let ghost in_classes = class_dict.sk_classes@;
    let mut hir_maker = HirMaker::new(class_dict);
    hir_maker.register_class_consts();
    let ghost consts_after_reg = hir_maker.constants@;
    let main_exprs = match hir_maker.convert_toplevel_items(prog) {
        Ok(b) => b,
        Err(e) => {
            return Err(e);
        },
    };
    proof {
        assert forall|i: int|
            0 <= i < class_dict.sk_classes@.len() && !crate::names::is_meta_name(
                (#[trigger] class_dict.sk_classes@[i]).fullname@,
            ) && !class_dict.sk_classes@[i].const_is_obj && has_class_name(
                class_dict.sk_classes@,
                crate::names::meta_name_of(class_dict.sk_classes@[i].fullname@),
            ) implies has_class_const(hir_maker.constants@, class_dict.sk_classes@[i].fullname@) by {
            assert(has_class_const(consts_after_reg, class_dict.sk_classes@[i].fullname@));
            let q = choose|q: int|
                0 <= q < consts_after_reg.len() && (#[trigger] consts_after_reg[q]).0@
                    == crate::names::const_fullname_of(
                    Seq::<char>::empty(),
                    class_dict.sk_classes@[i].fullname@,
                ) && crate::ty::is_meta_named(
                    consts_after_reg[q].1,
                    class_dict.sk_classes@[i].fullname@,
                );
            assert(hir_maker.constants@[q] == consts_after_reg[q]);
        }
    }
    let ghost consts_final = hir_maker.constants@;
    proof {
        crate::class_dict::builder::lemma_same_names_has_class(
            in_classes,
            hir_maker.class_dict.sk_classes@,
        );
    }
    let h = hir_maker.extract_hir(main_exprs);
    proof {
        assert forall|i: int|
            0 <= i < class_dict.sk_classes@.len() && !crate::names::is_meta_name(
                (#[trigger] class_dict.sk_classes@[i]).fullname@,
            ) && !class_dict.sk_classes@[i].const_is_obj && has_class_name(
                class_dict.sk_classes@,
                crate::names::meta_name_of(class_dict.sk_classes@[i].fullname@),
            ) implies has_class_const(h.constants@, class_dict.sk_classes@[i].fullname@) by {
            assert(has_class_const(consts_final, class_dict.sk_classes@[i].fullname@));
            let q = choose|q: int|
                0 <= q < consts_final.len() && (#[trigger] consts_final[q]).0@
                    == crate::names::const_fullname_of(
                    Seq::<char>::empty(),
                    class_dict.sk_classes@[i].fullname@,
                ) && crate::ty::is_meta_named(
                    consts_final[q].1,
                    class_dict.sk_classes@[i].fullname@,
                );
            assert(h.constants@[q] == consts_final[q]);
        }
    }
    Ok(h)
}

/// Compile a parsed program with a core library: build the class
/// dictionary, lower everything, then append the core-library methods.
pub fn make_hir(prog: &ast::Program, corelib: Corelib) -> (r: Result<Hir, Error>)
    requires
        corelib.sk_classes.wf(),
    ensures
        r matches Ok(h) ==> crate::class_dict::wf_classes(h.sk_classes@),
        r matches Ok(h) ==> h.main_exprs.exprs@.len() == prog.exprs@.len(),
        r matches Ok(h) ==> forall|k: int|
            0 <= k < prog.exprs@.len() ==> lowered_matches(
                h.sk_classes@,
                prog.exprs@[k],
                #[trigger] h.main_exprs.exprs@[k],
            ),
        r matches Ok(h) ==> h.constants@.len() >= 1 && (h.constants@[h.constants@.len() - 1].0@
            == crate::names::const_fullname_of(Seq::<char>::empty(), "Void"@) && crate::ty::is_raw_named(
            h.constants@[h.constants@.len() - 1].1,
            "Void"@,
        )),
        r matches Ok(h) ==> h.sk_methods@.len() >= corelib.sk_methods@.len() && h.sk_methods@.skip(
            h.sk_methods@.len() - corelib.sk_methods@.len(),
        ) == corelib.sk_methods@,
        prog.toplevel_defs@.len() == 0 && prog.exprs@.len() == 0 && has_class_name(
            corelib.sk_classes.sk_classes@,
            "Void"@,
        ) ==> r is Ok,
        r matches Err(e) ==> (e.kind == crate::error::ErrorKind::NameError || e.kind
            == crate::error::ErrorKind::TypeError || e.kind
            == crate::error::ErrorKind::ProgramError),
        r matches Ok(h) ==> forall|n: Seq<char>|
            has_class_name(corelib.sk_classes.sk_classes@, n) ==> has_class_name(h.sk_classes@, n),
{
    let ghost core_methods = corelib.sk_methods@;
    let ghost core_classes = corelib.sk_classes.sk_classes@;
    let class_dict = match ClassDict::create(prog, corelib.sk_classes) {
        Ok(d) => d,
        Err(e) => {
            return Err(e);
        },
    };
    let mut hir = match convert_program(class_dict, prog) {
        Ok(h) => h,
        Err(e) => {
            return Err(e);
        },
    };
    // while the core classes are in the dictionary, the core methods
    // are not compiled from source; they are appended here
    hir.add_methods(corelib.sk_methods);
    proof {
        assert(hir.sk_methods@.skip(hir.sk_methods@.len() - core_methods.len())
            =~= core_methods);
        assert forall|n: Seq<char>|
            has_class_name(core_classes, n) implies has_class_name(hir.sk_classes@, n) by {
            assert(has_class_name(class_dict.sk_classes@, n));
            assert(has_class_name(hir.sk_classes@, n));
        }
    }
    Ok(hir)
}

/// Clone a parameter list.
fn clone_params(params: &Vec<MethodParam>) -> (r: Vec<MethodParam>)
    ensures
        r@ == params@,
{
    let mut out: Vec<MethodParam> = Vec::new();
    let n = params.len();
    let mut i: usize = 0;
    while i < n
        invariant
            n == params@.len(),
            0 <= i <= n,
            out@.len() == i as int,
            forall|k: int| 0 <= k < i ==> out@[k] == params@[k],
        decreases n - i,
    {
        out.push(params[i].clone());
        i = i + 1;
    }
    proof {
        assert(out@ =~= params@);
    }
    out
}

/// Whether the class gets a synthesized `.new`: every class but the
/// primitive `Int` and `Float`, whose instances arise from literals.
pub fn has_new(fullname: &ClassFullname) -> (r: bool)
    ensures
        r == !(fullname@ == "Int"@ || fullname@ == "Float"@),
{
    let is_int = fullname.0 == "Int".to_owned();
    let is_float = fullname.0 == "Float".to_owned();
    !(is_int || is_float)
}

} // verus!
