//! Building the class dictionary: registration of classes (with their
//! metaclasses), then collection of resolved method signatures.

use vstd::prelude::*;
use crate::ast;
use crate::class_dict::{
    ClassDict, MethodParam, MethodSignature, SkClass, SkIVar, class_index, class_named,
    has_class_name, lemma_class_index, object_name, sig_resolved, unique_class_names, wf_classes,
};
use crate::error::{Error, name_error, program_error};
use crate::names::{ClassFullname, MethodFirstname, method_fullname, method_fullname_of};
use crate::ty;
use crate::ty::{TermTy, is_raw_named, ty_class_name};

verus! {

/// A name present in `classes` is present in `classes.push(c)`.
pub proof fn lemma_has_class_push(classes: Seq<SkClass>, c: SkClass, n: Seq<char>)
    requires
        has_class_name(classes, n),
    ensures
        has_class_name(classes.push(c), n),
{
    let i = choose|i: int| 0 <= i < classes.len() && classes[i].fullname@ == n;
    assert(classes.push(c)[i] == classes[i]);
}

/// Two class sequences with the same names elementwise hold the same
/// names.
pub proof fn lemma_same_names_has_class(a: Seq<SkClass>, b: Seq<SkClass>)
    requires
        a.len() == b.len(),
        forall|i: int| 0 <= i < a.len() ==> (#[trigger] a[i]).fullname@ == b[i].fullname@,
    ensures
        forall|n: Seq<char>| has_class_name(a, n) == has_class_name(b, n),
{
    assert forall|n: Seq<char>| has_class_name(a, n) == has_class_name(b, n) by {
        if has_class_name(a, n) {
            let i = choose|i: int| 0 <= i < a.len() && a[i].fullname@ == n;
            assert(b[i].fullname@ == n);
        }
        if has_class_name(b, n) {
            let i = choose|i: int| 0 <= i < b.len() && b[i].fullname@ == n;
            assert(a[i].fullname@ == n);
        }
    }
}

/// The class list keeps its length, names and superclasses (signature
/// collection only appends signatures).
pub open spec fn supers_stable(before: Seq<SkClass>, after: Seq<SkClass>) -> bool {
    &&& before.len() == after.len()
    &&& forall|i: int|
        0 <= i < before.len() ==> (#[trigger] after[i]).fullname@ == before[i].fullname@
            && after[i].superclass_fullname == before[i].superclass_fullname
}

/// Under stability, a class keeps its index and superclass.
proof fn lemma_supers_stable_class_named(before: Seq<SkClass>, after: Seq<SkClass>, x: Seq<char>)
    requires
        unique_class_names(before),
        has_class_name(before, x),
        supers_stable(before, after),
    ensures
        has_class_name(after, x),
        class_named(after, x).superclass_fullname == class_named(before, x).superclass_fullname,
{
    lemma_class_index(before, x);
    let i = class_index(before, x);
    assert(after[i].fullname@ == x);
    assert(has_class_name(after, x));
    let j = class_index(after, x);
    assert(0 <= j < after.len() && after[j].fullname@ == x);
    assert(before[j].fullname@ == x);
    assert(j == i);
}

/// The class list is only extended: existing records keep their index.
pub open spec fn classes_extended(before: Seq<SkClass>, after: Seq<SkClass>) -> bool {
    &&& before.len() <= after.len()
    &&& forall|i: int| 0 <= i < before.len() ==> (#[trigger] after[i]) == before[i]
}

/// Under extension, a class keeps its index and record.
proof fn lemma_classes_extended_class_named(before: Seq<SkClass>, after: Seq<SkClass>, x: Seq<char>)
    requires
        unique_class_names(after),
        has_class_name(before, x),
        classes_extended(before, after),
    ensures
        has_class_name(after, x),
        class_named(after, x) == class_named(before, x),
{
    let i = choose|i: int| 0 <= i < before.len() && before[i].fullname@ == x;
    assert(after[i] == before[i]);
    assert(has_class_name(after, x));
    lemma_class_index(after, x);
    assert(class_index(after, x) == i);
    let j = choose|j: int| 0 <= j < before.len() && before[j].fullname@ == x;
    assert forall|j2: int|
        0 <= j2 < before.len() && before[j2].fullname@ == x implies j2 == i by {
        assert(after[j2] == before[j2]);
    }
    assert(class_named(before, x) == before[class_index(before, x)]);
    assert(after[class_index(before, x)] == before[class_index(before, x)]);
    assert(0 <= class_index(before, x) < before.len() && before[class_index(
        before,
        x,
    )].fullname@ == x);
    assert(class_index(before, x) == i);
}

impl ClassDict {
    /// The empty dictionary.
    pub fn empty() -> (r: ClassDict)
        ensures
            r.wf(),
            r.sk_classes@.len() == 0,
    {
        ClassDict { sk_classes: Vec::new() }
    }

    /// Register a new class. Its superclass must already be present (so
    /// registration order keeps superclasses at earlier indexes).
    pub fn add_class(&mut self, c: SkClass)
        requires
            old(self).wf(),
            !has_class_name(old(self).sk_classes@, c.fullname@),
            c.superclass_fullname matches Some(s) ==> has_class_name(old(self).sk_classes@, s@),
            c.superclass_fullname is None <==> c.fullname@ == object_name(),
            c.method_sigs@.len() == 0,
            c.ivars@.len() == 0,
        ensures
            final(self).wf(),
            final(self).sk_classes@ == old(self).sk_classes@.push(c),
            forall|n: Seq<char>|
                has_class_name(old(self).sk_classes@, n) ==> has_class_name(
                    final(self).sk_classes@,
                    n,
                ),
            has_class_name(final(self).sk_classes@, c.fullname@),
    {
        proof {
            let classes = self.sk_classes@;
            let new = classes.push(c);
            assert(new[classes.len() as int] == c);
            assert forall|n: Seq<char>|
                has_class_name(classes, n) implies has_class_name(new, n) by {
                lemma_has_class_push(classes, c, n);
            }
            assert forall|i: int, j: int|
                0 <= i < j < new.len() implies new[i].fullname@ != new[j].fullname@ by {
                if j < classes.len() {
                    assert(new[i] == classes[i] && new[j] == classes[j]);
                } else {
                    assert(new[j] == c);
                    assert(new[i] == classes[i]);
                    if classes[i].fullname@ == c.fullname@ {
                        assert(has_class_name(classes, c.fullname@));
                    }
                }
            }
            assert forall|i: int|
                0 <= i < new.len() implies ((#[trigger] new[i].superclass_fullname) matches Some(s)
                ==> exists|j: int| 0 <= j < i && new[j].fullname@ == s@) by {
                if i < classes.len() {
                    assert(new[i] == classes[i]);
                    match classes[i].superclass_fullname {
                        Some(s) => {
                            let j = choose|j: int| 0 <= j < i && classes[j].fullname@ == s@;
                            assert(new[j] == classes[j]);
                            assert(new[j].fullname@ == s@);
                        },
                        None => {},
                    }
                } else {
                    assert(new[i] == c);
                    match c.superclass_fullname {
                        Some(s) => {
                            let j = choose|j: int|
                                0 <= j < classes.len() && classes[j].fullname@ == s@;
                            assert(new[j] == classes[j]);
                            assert(new[j].fullname@ == s@);
                        },
                        None => {},
                    }
                }
            }
            assert forall|i: int|
                0 <= i < new.len() implies ((#[trigger] new[i].superclass_fullname) is None
                <==> new[i].fullname@ == object_name()) by {
                if i < classes.len() {
                    assert(new[i] == classes[i]);
                } else {
                    assert(new[i] == c);
                }
            }
            assert forall|i: int, k: int|
                0 <= i < new.len() && 0 <= k < new[i].ivars@.len() implies (
            #[trigger] new[i].ivars@[k]).idx == k by {
                assert(i < classes.len() && new[i] == classes[i]);
            }
            assert forall|i: int, k: int, l: int|
                0 <= i < new.len() && 0 <= k < l < new[i].ivars@.len() implies (
            #[trigger] new[i].ivars@[k]).name@ != (#[trigger] new[i].ivars@[l]).name@ by {
                assert(i < classes.len() && new[i] == classes[i]);
            }
            assert forall|i: int, k: int|
                0 <= i < new.len() && 0 <= k < new[i].method_sigs@.len() implies sig_resolved(
                new,
                #[trigger] new[i].method_sigs@[k],
            ) by {
                assert(i < classes.len());
                assert(new[i] == classes[i]);
                assert(sig_resolved(classes, classes[i].method_sigs@[k]));
                lemma_has_class_push(classes, c, ty_class_name(classes[i].method_sigs@[k].ret_ty));
                assert forall|p: int|
                    0 <= p < new[i].method_sigs@[k].params@.len() implies has_class_name(
                    new,
                    ty_class_name(#[trigger] new[i].method_sigs@[k].params@[p].ty),
                ) by {
                    lemma_has_class_push(
                        classes,
                        c,
                        ty_class_name(classes[i].method_sigs@[k].params@[p].ty),
                    );
                }
            }
        }
        self.sk_classes.push(c);
    }

    /// Append a resolved signature to the named class's own signatures.
    pub fn add_method_sig(&mut self, class_fullname: &ClassFullname, sig: MethodSignature)
        requires
            old(self).wf(),
            has_class_name(old(self).sk_classes@, class_fullname@),
            sig_resolved(old(self).sk_classes@, sig),
        ensures
            final(self).wf(),
            final(self).sk_classes@.len() == old(self).sk_classes@.len(),
            forall|j: int|
                0 <= j < old(self).sk_classes@.len() && j != class_index(
                    old(self).sk_classes@,
                    class_fullname@,
                ) ==> final(self).sk_classes@[j] == old(self).sk_classes@[j],
            forall|j: int|
                0 <= j < old(self).sk_classes@.len() ==> (#[trigger] final(self).sk_classes@[j]).fullname@ == old(self).sk_classes@[j].fullname@ && final(self).sk_classes@[j].superclass_fullname == old(self).sk_classes@[j].superclass_fullname
                    && final(self).sk_classes@[j].ivars == old(self).sk_classes@[j].ivars,
            class_named(final(self).sk_classes@, class_fullname@).method_sigs@ == class_named(
                old(self).sk_classes@,
                class_fullname@,
            ).method_sigs@.push(sig),
            forall|n: Seq<char>|
                has_class_name(old(self).sk_classes@, n) == has_class_name(
                    final(self).sk_classes@,
                    n,
                ),
    {
        let ghost classes = self.sk_classes@;
        proof {
            lemma_class_index(classes, class_fullname@);
        }
        let i = self.index_of(class_fullname);
        let mut c = self.sk_classes.remove(i);
        c.method_sigs.push(sig);
        self.sk_classes.insert(i, c);
        proof {
            let new = self.sk_classes@;
            assert forall|j: int| 0 <= j < classes.len() && j != i implies new[j] == classes[j] by {
                if j < i {
                    assert(new[j] == classes.remove(i as int).insert(i as int, new[i as int])[j]);
                } else {
                    assert(new[j] == classes.remove(i as int).insert(i as int, new[i as int])[j]);
                }
            }
            assert(new.len() == classes.len());
            assert(new[i as int].fullname@ == classes[i as int].fullname@);
            assert(new[i as int].method_sigs@ == classes[i as int].method_sigs@.push(sig));
            lemma_same_names_has_class(classes, new);
            // well-formedness: only the sig list of class i changed
            assert forall|p: int, k: int|
                0 <= p < new.len() && 0 <= k < new[p].method_sigs@.len() implies sig_resolved(
                new,
                #[trigger] new[p].method_sigs@[k],
            ) by {
                let s = new[p].method_sigs@[k];
                if p == i && k == classes[p].method_sigs@.len() {
                    assert(s == sig);
                } else {
                    assert(s == classes[p].method_sigs@[k]);
                }
                assert(sig_resolved(classes, s));
                assert(has_class_name(new, ty_class_name(s.ret_ty)));
            }
            assert(wf_classes(new));
            lemma_class_index(new, class_fullname@);
            assert(class_index(new, class_fullname@) == i);
        }
    }

    /// Replace the named class's instance variables.
    pub fn define_ivars(&mut self, clsname: &ClassFullname, ivars: Vec<SkIVar>)
        requires
            old(self).wf(),
            has_class_name(old(self).sk_classes@, clsname@),
            forall|k: int| 0 <= k < ivars@.len() ==> (#[trigger] ivars@[k]).idx == k,
            forall|k: int, l: int|
                0 <= k < l < ivars@.len() ==> (#[trigger] ivars@[k]).name@ != (
                #[trigger] ivars@[l]).name@,
        ensures
            final(self).wf(),
            final(self).sk_classes@.len() == old(self).sk_classes@.len(),
            forall|j: int|
                0 <= j < old(self).sk_classes@.len() && j != class_index(
                    old(self).sk_classes@,
                    clsname@,
                ) ==> final(self).sk_classes@[j] == old(self).sk_classes@[j],
            forall|j: int|
                0 <= j < old(self).sk_classes@.len() ==> (#[trigger] final(self).sk_classes@[j]).fullname@ == old(self).sk_classes@[j].fullname@ && final(self).sk_classes@[j].superclass_fullname == old(self).sk_classes@[j].superclass_fullname
                    && final(self).sk_classes@[j].method_sigs == old(self).sk_classes@[j].method_sigs,
            class_named(final(self).sk_classes@, clsname@).ivars@ == ivars@,
            forall|n: Seq<char>|
                has_class_name(old(self).sk_classes@, n) == has_class_name(
                    final(self).sk_classes@,
                    n,
                ),
    {
        let ghost classes = self.sk_classes@;
        proof {
            lemma_class_index(classes, clsname@);
        }
        let i = self.index_of(clsname);
        let mut c = self.sk_classes.remove(i);
        c.ivars = ivars;
        self.sk_classes.insert(i, c);
        proof {
            let new = self.sk_classes@;
            assert forall|j: int| 0 <= j < classes.len() && j != i implies new[j] == classes[j] by {
                assert(new[j] == classes.remove(i as int).insert(i as int, new[i as int])[j]);
            }
            assert(new.len() == classes.len());
            lemma_same_names_has_class(classes, new);
            assert forall|p: int, k: int|
                0 <= p < new.len() && 0 <= k < new[p].method_sigs@.len() implies sig_resolved(
                new,
                #[trigger] new[p].method_sigs@[k],
            ) by {
                assert(new[p].method_sigs@[k] == classes[p].method_sigs@[k]);
                assert(sig_resolved(classes, classes[p].method_sigs@[k]));
            }
            assert(wf_classes(new));
            lemma_class_index(new, clsname@);
            assert(class_index(new, clsname@) == i);
        }
    }

    /// Build the dictionary for a program: add every user class (and its
    /// metaclass) to the core-library dictionary, then resolve and store
    /// every method signature. Top-level method definitions become
    /// methods of `Object`.
    pub fn create(prog: &crate::ast::Program, corelib: ClassDict) -> (r: Result<ClassDict, Error>)
        requires
            corelib.wf(),
        ensures
            r matches Ok(d) ==> d.wf() && (forall|n: Seq<char>|
                has_class_name(corelib.sk_classes@, n) ==> has_class_name(d.sk_classes@, n)),
            r matches Ok(d) ==> forall|j: int|
                0 <= j < prog.toplevel_defs@.len() ==> ((#[trigger] prog.toplevel_defs@[j])
                    matches crate::ast::Definition::ClassDefinition { name, .. } ==> (
                has_class_name(d.sk_classes@, name@) && has_class_name(
                    d.sk_classes@,
                    crate::names::meta_name_of(name@),
                ))),
            r matches Ok(d) ==> forall|j: int|
                0 <= j < prog.toplevel_defs@.len() ==> ((#[trigger] prog.toplevel_defs@[j])
                    matches crate::ast::Definition::ClassDefinition {
                    name,
                    superclass_name,
                    ..
                } ==> (class_named(d.sk_classes@, name@).superclass_fullname matches Some(sc)
                    && sc@ == (match superclass_name {
                    Some(sn) => sn@,
                    None => object_name(),
                }))),
            prog.toplevel_defs@.len() == 0 ==> (r matches Ok(d) && d.sk_classes@
                == corelib.sk_classes@),
            r matches Err(e) ==> (e.kind == crate::error::ErrorKind::ProgramError || e.kind
                == crate::error::ErrorKind::NameError),
    {
        let mut dict = corelib;
        match register_classes(&mut dict, &prog.toplevel_defs, "") {
            Ok(u) => u,
            Err(e) => {
                return Err(e);
            },
        }
        let ghost after_pass1 = dict.sk_classes@;
        let object_cls = ClassFullname(String::from_str("Object"));
        match collect_sigs(&mut dict, &prog.toplevel_defs, "", &object_cls) {
            Ok(u) => u,
            Err(e) => {
                return Err(e);
            },
        }
        let ghost after_pass2 = dict.sk_classes@;
        match register_new_sigs(&mut dict, &prog.toplevel_defs, "") {
            Ok(u) => u,
            Err(e) => {
                return Err(e);
            },
        }
        proof {
            reveal_strlit("");
            assert forall|j: int|
                0 <= j < prog.toplevel_defs@.len() && (#[trigger] prog.toplevel_defs@[j])
                    is ClassDefinition implies (has_class_name(
                dict.sk_classes@,
                prog.toplevel_defs@[j]->ClassDefinition_name@,
            ) && has_class_name(
                dict.sk_classes@,
                crate::names::meta_name_of(prog.toplevel_defs@[j]->ClassDefinition_name@),
            )) by {
                let nm = prog.toplevel_defs@[j]->ClassDefinition_name@;
                assert(crate::names::namespaced(""@, nm) == nm);
            }
            assert forall|j: int|
                0 <= j < prog.toplevel_defs@.len() && (#[trigger] prog.toplevel_defs@[j])
                    is ClassDefinition implies (class_named(
                dict.sk_classes@,
                prog.toplevel_defs@[j]->ClassDefinition_name@,
            ).superclass_fullname matches Some(sc) && sc@ == (match prog.toplevel_defs@[j]->ClassDefinition_superclass_name {
                Some(sn) => sn@,
                None => object_name(),
            })) by {
                let nm = prog.toplevel_defs@[j]->ClassDefinition_name@;
                assert(crate::names::namespaced(""@, nm) == nm);
                assert(has_class_name(after_pass1, nm));
                lemma_supers_stable_class_named(after_pass1, after_pass2, nm);
                lemma_supers_stable_class_named(after_pass2, dict.sk_classes@, nm);
            }
        }
        Ok(dict)
    }

    /// The index of the named class in registration order.
    fn index_of(&self, class_fullname: &ClassFullname) -> (i: usize)
        requires
            self.wf(),
            has_class_name(self.sk_classes@, class_fullname@),
        ensures
            i == class_index(self.sk_classes@, class_fullname@),
    {
        proof {
            lemma_class_index(self.sk_classes@, class_fullname@);
        }
        let n = self.sk_classes.len();
        let mut i: usize = 0;
        while i < n
            invariant
                self.wf(),
                has_class_name(self.sk_classes@, class_fullname@),
                n == self.sk_classes@.len(),
                0 <= i <= n,
                forall|k: int| 0 <= k < i ==> self.sk_classes@[k].fullname@ != class_fullname@,
            decreases n - i,
        {
            if self.sk_classes[i].fullname == *class_fullname {
                proof {
                    lemma_class_index(self.sk_classes@, class_fullname@);
                }
                return i;
            }
            i = i + 1;
        }
        proof {
            assert(false);
        }
        0
    }
}

/// Resolve a written type name against the dictionary: `Ok` iff a class
/// of that name exists.
fn resolve_typ(dict: &ClassDict, typ_name: &str) -> (r: Result<TermTy, Error>)
    requires
        dict.wf(),
    ensures
        r matches Ok(t) ==> is_raw_named(t, typ_name@) && crate::class_dict::ty_exists(
            dict.sk_classes@,
            t,
        ),
        r is Ok <==> has_class_name(dict.sk_classes@, typ_name@),
        r matches Err(e) ==> e.kind == crate::error::ErrorKind::NameError,
{
    if dict.class_exists(typ_name) {
        Ok(ty::raw(typ_name))
    } else {
        Err(name_error("unknown class in a signature"))
    }
}

/// First pass: register every class definition (and its metaclass),
/// depth first. Duplicates are rejected; a superclass must already be
/// registered; the default superclass is `Object`.
fn register_classes(dict: &mut ClassDict, defs: &Vec<ast::Definition>, namespace: &str) -> (r:
    Result<(), Error>)
    requires
        old(dict).wf(),
    ensures
        final(dict).wf(),
        forall|n: Seq<char>|
            has_class_name(old(dict).sk_classes@, n) ==> has_class_name(final(dict).sk_classes@, n),
        classes_extended(old(dict).sk_classes@, final(dict).sk_classes@),
        r is Ok ==> forall|j: int|
            0 <= j < defs@.len() ==> ((#[trigger] defs@[j])
                matches ast::Definition::ClassDefinition { name, .. } ==> (has_class_name(
                final(dict).sk_classes@,
                crate::names::namespaced(namespace@, name@),
            ) && has_class_name(
                final(dict).sk_classes@,
                crate::names::meta_name_of(crate::names::namespaced(namespace@, name@)),
            ))),
        r is Ok ==> forall|j: int|
            0 <= j < defs@.len() ==> ((#[trigger] defs@[j])
                matches ast::Definition::ClassDefinition { name, superclass_name, .. } ==> (
            class_named(
                final(dict).sk_classes@,
                crate::names::namespaced(namespace@, name@),
            ).superclass_fullname matches Some(sc) && sc@ == (match superclass_name {
                Some(sn) => sn@,
                None => object_name(),
            }))),
        r matches Err(e) ==> (e.kind == crate::error::ErrorKind::ProgramError || e.kind
            == crate::error::ErrorKind::NameError),
        defs@.len() == 0 ==> (r is Ok && final(dict).sk_classes@ == old(dict).sk_classes@),
    decreases defs@,
{
    let ghost entry = dict.sk_classes@;
    let n = defs.len();
    let mut i: usize = 0;
    while i < n
        invariant
            n == defs@.len(),
            0 <= i <= n,
            dict.wf(),
            entry == old(dict).sk_classes@,
            n == 0 ==> dict.sk_classes@ == entry,
            classes_extended(entry, dict.sk_classes@),
            forall|m: Seq<char>| has_class_name(entry, m) ==> has_class_name(dict.sk_classes@, m),
            forall|j: int|
                0 <= j < i ==> ((#[trigger] defs@[j])
                    matches ast::Definition::ClassDefinition { name, .. } ==> (has_class_name(
                    dict.sk_classes@,
                    crate::names::namespaced(namespace@, name@),
                ) && has_class_name(
                    dict.sk_classes@,
                    crate::names::meta_name_of(crate::names::namespaced(namespace@, name@)),
                ))),
            forall|j: int|
                0 <= j < i ==> ((#[trigger] defs@[j])
                    matches ast::Definition::ClassDefinition { name, superclass_name, .. } ==> (
                class_named(
                    dict.sk_classes@,
                    crate::names::namespaced(namespace@, name@),
                ).superclass_fullname matches Some(sc) && sc@ == (match superclass_name {
                    Some(sn) => sn@,
                    None => object_name(),
                }))),
        decreases n - i,
    {
        let ghost classes_at_iter = dict.sk_classes@;
        match &defs[i] {
            ast::Definition::ClassDefinition { name, superclass_name, defs: inner_defs } => {
                let fullname = name.add_namespace(namespace);
                if dict.class_exists(fullname.0.as_str()) {
                    return Err(program_error("class defined twice"));
                }
                let meta = fullname.meta_name();
                if dict.class_exists(meta.0.as_str()) {
                    return Err(program_error("metaclass name already taken"));
                }
                let super_full = match superclass_name {
                    Some(sn) => sn.add_namespace(""),
                    None => ClassFullname(String::from_str("Object")),
                };
                if !dict.class_exists(super_full.0.as_str()) {
                    return Err(name_error("unknown superclass"));
                }
                let meta_super = super_full.meta_name();
                if !dict.class_exists(meta_super.0.as_str()) {
                    return Err(name_error("superclass has no metaclass"));
                }
                proof {
                    // the new class cannot be `Object`: the dictionary is
                    // non-empty, and its first class is the root `Object`,
                    // which the duplicate check has excluded
                    if fullname@ == object_name() {
                        let classes = dict.sk_classes@;
                        assert(classes.len() > 0);
                        match classes[0].superclass_fullname {
                            Some(s0) => {
                                assert(false);
                            },
                            None => {},
                        }
                        assert(classes[0].fullname@ == object_name());
                        assert(has_class_name(classes, fullname@));
                    }
                }
                proof {
                    reveal_strlit("");
                    match superclass_name {
                        Some(sn) => {
                            assert(crate::names::namespaced(""@, sn@) == sn@);
                        },
                        None => {},
                    }
                }
                let ghost before = dict.sk_classes@;
                dict.add_class(
                    SkClass {
                        fullname: fullname.clone(),
                        superclass_fullname: Some(super_full),
                        method_sigs: Vec::new(),
                        ivars: Vec::new(),
                        const_is_obj: false,
                    },
                );
                let ghost after_first = dict.sk_classes@;
                proof {
                    reveal_strlit("Object");
                    assert("Object"@ =~= object_name());
                    assert(after_first[before.len() as int].fullname@ == fullname@);
                    lemma_class_index(after_first, fullname@);
                    assert(class_index(after_first, fullname@) == before.len());
                    assert(class_named(after_first, fullname@).superclass_fullname matches Some(
                        sc,
                    ) && sc@ == (match superclass_name {
                        Some(sn) => sn@,
                        None => object_name(),
                    }));
                }
                proof {
                    // the metaclass name is still free: it differs from the
                    // class name just added (it is longer)
                    if has_class_name(dict.sk_classes@, meta@) {
                        let j = choose|j: int|
                            0 <= j < dict.sk_classes@.len() && dict.sk_classes@[j].fullname@
                                == meta@;
                        if j < before.len() {
                            assert(has_class_name(before, meta@));
                        }
                        assert(false);
                    }
                    // and it is not `Object` (it starts with `M`)
                    assert(meta@[0] == 'M');
                    assert(meta@ != object_name());
                }
                dict.add_class(
                    SkClass {
                        fullname: meta,
                        superclass_fullname: Some(meta_super),
                        method_sigs: Vec::new(),
                        ivars: Vec::new(),
                        const_is_obj: false,
                    },
                );
                proof {
                    assert(decreases_to!(defs@ => defs@[i as int]));
                    assert(defs@[i as int]->ClassDefinition_defs == *inner_defs);
                    assert(decreases_to!(defs@[i as int] => inner_defs@));
                    assert(decreases_to!(defs@ => inner_defs@));
                }
                match register_classes(dict, inner_defs, fullname.0.as_str()) {
                    Ok(u) => u,
                    Err(e) => {
                        return Err(e);
                    },
                }
                proof {
                    assert(classes_extended(after_first, dict.sk_classes@));
                    lemma_classes_extended_class_named(after_first, dict.sk_classes@, fullname@);
                }
            },
            _ => {},
        }
        proof {
            assert forall|j: int|
                0 <= j < i + 1 && (#[trigger] defs@[j]) is ClassDefinition implies (class_named(
                dict.sk_classes@,
                crate::names::namespaced(namespace@, defs@[j]->ClassDefinition_name@),
            ).superclass_fullname matches Some(sc) && sc@ == (match defs@[j]->ClassDefinition_superclass_name {
                Some(sn) => sn@,
                None => object_name(),
            })) by {
                if j < i {
                    let cn = crate::names::namespaced(
                        namespace@,
                        defs@[j]->ClassDefinition_name@,
                    );
                    assert(has_class_name(classes_at_iter, cn));
                    assert(classes_extended(classes_at_iter, dict.sk_classes@));
                    lemma_classes_extended_class_named(classes_at_iter, dict.sk_classes@, cn);
                }
            }
        }
        i = i + 1;
    }
    Ok(())
}

/// Second pass: resolve and store the signature of every method
/// definition, under the class that owns it (`owner` at the top level is
/// `Object`; class methods go to the owner's metaclass; an initializer
/// becomes `initialize` with return type `Void`).
fn collect_sigs(
    dict: &mut ClassDict,
    defs: &Vec<ast::Definition>,
    namespace: &str,
    owner: &ClassFullname,
) -> (r: Result<(), Error>)
    requires
        old(dict).wf(),
    ensures
        final(dict).wf(),
        forall|n: Seq<char>|
            has_class_name(old(dict).sk_classes@, n) ==> has_class_name(final(dict).sk_classes@, n),
        r matches Err(e) ==> (e.kind == crate::error::ErrorKind::ProgramError || e.kind
            == crate::error::ErrorKind::NameError),
        supers_stable(old(dict).sk_classes@, final(dict).sk_classes@),
        defs@.len() == 0 ==> (r is Ok && final(dict).sk_classes@ == old(dict).sk_classes@),
    decreases defs@,
{
    let ghost entry = dict.sk_classes@;
    let n = defs.len();
    let mut i: usize = 0;
    while i < n
        invariant
            n == defs@.len(),
            0 <= i <= n,
            dict.wf(),
            entry == old(dict).sk_classes@,
            n == 0 ==> dict.sk_classes@ == entry,
            supers_stable(entry, dict.sk_classes@),
            forall|m: Seq<char>| has_class_name(entry, m) ==> has_class_name(dict.sk_classes@, m),
        decreases n - i,
    {
        match &defs[i] {
            ast::Definition::InstanceMethodDefinition { sig, body_exprs: _ } => {
                if !dict.class_exists(owner.0.as_str()) {
                    return Err(program_error("owner class vanished"));
                }
                let rsig = match resolve_sig(dict, owner, sig) {
                    Ok(s) => s,
                    Err(e) => {
                        return Err(e);
                    },
                };
                dict.add_method_sig(owner, rsig);
            },
            ast::Definition::ClassMethodDefinition { sig, body_exprs: _ } => {
                let meta = owner.meta_name();
                if !dict.class_exists(meta.0.as_str()) {
                    return Err(program_error("owner metaclass vanished"));
                }
                let rsig = match resolve_sig(dict, &meta, sig) {
                    Ok(s) => s,
                    Err(e) => {
                        return Err(e);
                    },
                };
                dict.add_method_sig(&meta, rsig);
            },
            ast::Definition::InitializerDefinition { sig, body_exprs: _ } => {
                if !dict.class_exists(owner.0.as_str()) {
                    return Err(program_error("owner class vanished"));
                }
                let rsig = match resolve_initializer_sig(dict, owner, sig) {
                    Ok(s) => s,
                    Err(e) => {
                        return Err(e);
                    },
                };
                dict.add_method_sig(owner, rsig);
            },
            ast::Definition::ClassDefinition { name, superclass_name: _, defs: inner_defs } => {
                let fullname = name.add_namespace(namespace);
                proof {
                    assert(decreases_to!(defs@ => defs@[i as int]));
                    assert(defs@[i as int]->ClassDefinition_defs == *inner_defs);
                    assert(decreases_to!(defs@[i as int] => inner_defs@));
                    assert(decreases_to!(defs@ => inner_defs@));
                }
                match collect_sigs(dict, inner_defs, fullname.0.as_str(), &fullname) {
                    Ok(u) => u,
                    Err(e) => {
                        return Err(e);
                    },
                }
            },
            ast::Definition::ConstDefinition { .. } => {},
        }
        i = i + 1;
    }
    Ok(())
}

/// Third pass: every non-primitive user class `C` with an `initialize`
/// (own or inherited) gets the synthesized `new` signature on its
/// metaclass: `Meta:C#.new(initialize's params) -> C`.
/// Enter the synthesized `new` signature for one class, if it can be
/// synthesized (a non-primitive registered class whose chain has an
/// `initialize`) and is not already present.
fn add_new_sig_for(dict: &mut ClassDict, fullname: &ClassFullname)
    requires
        old(dict).wf(),
    ensures
        final(dict).wf(),
        forall|n: Seq<char>|
            has_class_name(old(dict).sk_classes@, n) == has_class_name(final(dict).sk_classes@, n),
        supers_stable(old(dict).sk_classes@, final(dict).sk_classes@),
{
    if !(crate::hir_maker::has_new(fullname) && dict.class_exists(fullname.0.as_str())) {
        return ;
    }
    let meta = fullname.meta_name();
    if !dict.class_exists(meta.0.as_str()) {
        return ;
    }
    let new_name = MethodFirstname(String::from_str("new"));
    let already = match dict.find_method(&meta, &new_name) {
        Some(_s) => true,
        None => false,
    };
    if already {
        return ;
    }
    let init_name = MethodFirstname(String::from_str("initialize"));
    let new_sig = match dict.lookup_method(fullname, &init_name) {
        Ok((sig, _owner)) => {
            proof {
                crate::class_dict::query::lemma_lookup_sig_resolved(
                    dict.sk_classes@,
                    fullname@,
                    init_name@,
                );
            }
            let mut params: Vec<MethodParam> = Vec::new();
            let np = sig.params.len();
            let mut k: usize = 0;
            while k < np
                invariant
                    dict.wf(),
                    np == sig.params@.len(),
                    0 <= k <= np,
                    params@.len() == k as int,
                    forall|q: int| 0 <= q < k ==> params@[q] == sig.params@[q],
                    forall|q: int|
                        0 <= q < sig.params@.len() ==> crate::class_dict::ty_exists(
                            dict.sk_classes@,
                            (#[trigger] sig.params@[q]).ty,
                        ),
                decreases np - k,
            {
                params.push(sig.params[k].clone());
                k = k + 1;
            }
            MethodSignature {
                fullname: method_fullname(&meta, ".new"),
                first_name: new_name,
                ret_ty: TermTy::Raw { fullname: fullname.clone() },
                params,
            }
        },
        Err(_e) => {
            // no initialize anywhere on the chain: no `new` either
            return ;
        },
    };
    proof {
        assert(crate::class_dict::ty_exists(dict.sk_classes@, new_sig.ret_ty));
    }
    dict.add_method_sig(&meta, new_sig);
}

/// Third pass: every non-primitive user class `C` with an `initialize`
/// (own or inherited) gets the synthesized `new` signature on its
/// metaclass: `Meta:C#.new(initialize's params) -> C`.
fn register_new_sigs(dict: &mut ClassDict, defs: &Vec<ast::Definition>, namespace: &str) -> (r:
    Result<(), Error>)
    requires
        old(dict).wf(),
    ensures
        final(dict).wf(),
        forall|n: Seq<char>|
            has_class_name(old(dict).sk_classes@, n) ==> has_class_name(final(dict).sk_classes@, n),
        r matches Err(e) ==> (e.kind == crate::error::ErrorKind::ProgramError || e.kind
            == crate::error::ErrorKind::NameError),
        supers_stable(old(dict).sk_classes@, final(dict).sk_classes@),
        defs@.len() == 0 ==> (r is Ok && final(dict).sk_classes@ == old(dict).sk_classes@),
    decreases defs@,
{
    let ghost entry = dict.sk_classes@;
    let n = defs.len();
    let mut i: usize = 0;
    while i < n
        invariant
            n == defs@.len(),
            0 <= i <= n,
            dict.wf(),
            entry == old(dict).sk_classes@,
            n == 0 ==> dict.sk_classes@ == entry,
            supers_stable(entry, dict.sk_classes@),
            forall|m: Seq<char>| has_class_name(entry, m) ==> has_class_name(dict.sk_classes@, m),
        decreases n - i,
    {
        match &defs[i] {
            ast::Definition::ClassDefinition { name, superclass_name: _, defs: inner_defs } => {
                let fullname = name.add_namespace(namespace);
                add_new_sig_for(dict, &fullname);
                proof {
                    assert(decreases_to!(defs@ => defs@[i as int]));
                    assert(defs@[i as int]->ClassDefinition_defs == *inner_defs);
                    assert(decreases_to!(defs@[i as int] => inner_defs@));
                    assert(decreases_to!(defs@ => inner_defs@));
                }
                match register_new_sigs(dict, inner_defs, fullname.0.as_str()) {
                    Ok(u) => u,
                    Err(e) => {
                        return Err(e);
                    },
                }
            },
            _ => {},
        }
        i = i + 1;
    }
    Ok(())
}

/// Resolve a written method signature against the dictionary.
fn resolve_sig(dict: &ClassDict, owner: &ClassFullname, sig: &ast::MethodSignature) -> (r: Result<
    MethodSignature,
    Error,
>)
    requires
        dict.wf(),
    ensures
        r matches Err(e) ==> e.kind == crate::error::ErrorKind::NameError,
        r matches Ok(s) ==> sig_resolved(dict.sk_classes@, s) && s.first_name@ == sig.name@
            && s.fullname@ == method_fullname_of(owner@, sig.name@) && is_raw_named(
            s.ret_ty,
            sig.ret_typ.name@,
        ) && s.params@.len() == sig.params@.len() && (forall|k: int|
            0 <= k < s.params@.len() ==> (#[trigger] s.params@[k]).name@ == sig.params@[k].name@
                && is_raw_named(s.params@[k].ty, sig.params@[k].typ.name@)),
{
    let mut params: Vec<MethodParam> = Vec::new();
    let n = sig.params.len();
    let mut i: usize = 0;
    while i < n
        invariant
            dict.wf(),
            n == sig.params@.len(),
            0 <= i <= n,
            params@.len() == i as int,
            forall|k: int|
                0 <= k < i ==> (#[trigger] params@[k]).name@ == sig.params@[k].name@
                    && is_raw_named(params@[k].ty, sig.params@[k].typ.name@)
                    && crate::class_dict::ty_exists(dict.sk_classes@, params@[k].ty),
        decreases n - i,
    {
        let t = match resolve_typ(dict, sig.params[i].typ.name.as_str()) {
            Ok(t) => t,
            Err(e) => {
                return Err(e);
            },
        };
        params.push(MethodParam { name: sig.params[i].name.clone(), ty: t });
        i = i + 1;
    }
    let ret_ty = match resolve_typ(dict, sig.ret_typ.name.as_str()) {
        Ok(t) => t,
        Err(e) => {
            return Err(e);
        },
    };
    Ok(
        MethodSignature {
            fullname: method_fullname(owner, sig.name.0.as_str()),
            first_name: MethodFirstname(sig.name.0.clone()),
            ret_ty,
            params,
        },
    )
}

/// Resolve an initializer signature: the method is named `initialize`
/// and returns `Void`.
fn resolve_initializer_sig(dict: &ClassDict, owner: &ClassFullname, sig: &ast::InitializerSig) -> (
    r: Result<MethodSignature, Error>)
    requires
        dict.wf(),
    ensures
        r matches Err(e) ==> e.kind == crate::error::ErrorKind::NameError,
        r matches Ok(s) ==> sig_resolved(dict.sk_classes@, s) && s.first_name@ ==
            "initialize"@ && s.fullname@ == method_fullname_of(owner@, "initialize"@)
            && s.params@.len() == sig.params@.len() && (forall|k: int|
            0 <= k < s.params@.len() ==> (#[trigger] s.params@[k]).name@ == sig.params@[k].name@
                && is_raw_named(s.params@[k].ty, sig.params@[k].typ.name@)),
{
    let mut params: Vec<MethodParam> = Vec::new();
    let n = sig.params.len();
    let mut i: usize = 0;
    while i < n
        invariant
            dict.wf(),
            n == sig.params@.len(),
            0 <= i <= n,
            params@.len() == i as int,
            forall|k: int|
                0 <= k < i ==> (#[trigger] params@[k]).name@ == sig.params@[k].name@
                    && is_raw_named(params@[k].ty, sig.params@[k].typ.name@)
                    && crate::class_dict::ty_exists(dict.sk_classes@, params@[k].ty),
        decreases n - i,
    {
        let t = match resolve_typ(dict, sig.params[i].typ.name.as_str()) {
            Ok(t) => t,
            Err(e) => {
                return Err(e);
            },
        };
        params.push(MethodParam { name: sig.params[i].name.clone(), ty: t });
        i = i + 1;
    }
    let ret_ty = match resolve_typ(dict, "Void") {
        Ok(t) => t,
        Err(e) => {
            return Err(e);
        },
    };
    Ok(
        MethodSignature {
            fullname: method_fullname(owner, "initialize"),
            first_name: MethodFirstname(String::from_str("initialize")),
            ret_ty,
            params,
        },
    )
}

} // verus!
