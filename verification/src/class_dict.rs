//! The class dictionary: every class known to a compilation, with its
//! superclass, resolved method signatures and instance variables.
//!
//! The dictionary is a vector in registration order. Its well-formedness
//! invariant keeps every superclass at an earlier index than its
//! subclasses, so walks up an inheritance chain terminate; `Object` is
//! the unique root (the one class without a superclass).

pub mod builder;
pub mod query;

use vstd::prelude::*;
use crate::names::{ClassFullname, MethodFirstname, MethodFullname};
use crate::ty::{TermTy, ty_class_name};

verus! {

/// An instance variable: name, zero-based slot index, type, and whether
/// it may only be read.
#[derive(Debug, PartialEq)]
pub struct SkIVar {
    pub name: String,
    pub idx: usize,
    pub ty: TermTy,
    pub readonly: bool,
}

impl Clone for SkIVar {
    fn clone(&self) -> (r: Self)
        ensures
            r == *self,
    {
        SkIVar {
            name: self.name.clone(),
            idx: self.idx,
            ty: self.ty.clone(),
            readonly: self.readonly,
        }
    }
}

/// A resolved method parameter.
#[derive(Debug, PartialEq)]
pub struct MethodParam {
    pub name: String,
    pub ty: TermTy,
}

impl Clone for MethodParam {
    fn clone(&self) -> (r: Self)
        ensures
            r == *self,
    {
        MethodParam { name: self.name.clone(), ty: self.ty.clone() }
    }
}

/// A resolved method signature: every type references a class of the
/// dictionary (see [`sig_resolved`]).
#[derive(Debug, PartialEq)]
pub struct MethodSignature {
    pub fullname: MethodFullname,
    pub first_name: MethodFirstname,
    pub ret_ty: TermTy,
    pub params: Vec<MethodParam>,
}

impl Clone for MethodSignature {
    fn clone(&self) -> (r: Self)
        ensures
            r.fullname == self.fullname,
            r.first_name == self.first_name,
            r.ret_ty == self.ret_ty,
            r.params@ == self.params@,
    {
        let mut params: Vec<MethodParam> = Vec::new();
        let mut i: usize = 0;
        while i < self.params.len()
            invariant
                0 <= i <= self.params.len(),
                params@.len() == i as int,
                forall|k: int| 0 <= k < i ==> params@[k] == self.params@[k],
            decreases self.params.len() - i,
        {
            params.push(self.params[i].clone());
            i = i + 1;
        }
        proof {
            assert(params@ =~= self.params@);
        }
        MethodSignature {
            fullname: self.fullname.clone(),
            first_name: self.first_name.clone(),
            ret_ty: self.ret_ty.clone(),
            params,
        }
    }
}

/// One class record.
#[derive(Debug, PartialEq)]
pub struct SkClass {
    pub fullname: ClassFullname,
    /// `None` iff the class is `Object`.
    pub superclass_fullname: Option<ClassFullname>,
    pub method_sigs: Vec<MethodSignature>,
    /// All instance variables, inherited first, in slot order.
    pub ivars: Vec<SkIVar>,
    /// True iff the class is a singleton whose constant binding is the
    /// unique instance.
    pub const_is_obj: bool,
}

/// The dictionary itself.
#[derive(Debug)]
pub struct ClassDict {
    pub sk_classes: Vec<SkClass>,
}

/// The name of the root class.
pub open spec fn object_name() -> Seq<char> {
    seq!['O', 'b', 'j', 'e', 'c', 't']
}

/// Whether some class in `classes` bears the full name `n`.
pub open spec fn has_class_name(classes: Seq<SkClass>, n: Seq<char>) -> bool {
    exists|i: int| 0 <= i < classes.len() && classes[i].fullname@ == n
}

/// The index of the class named `n` (unique under [`unique_class_names`]).
pub open spec fn class_index(classes: Seq<SkClass>, n: Seq<char>) -> int {
    choose|i: int| 0 <= i < classes.len() && classes[i].fullname@ == n
}

/// The class record named `n`.
pub open spec fn class_named(classes: Seq<SkClass>, n: Seq<char>) -> SkClass {
    classes[class_index(classes, n)]
}

/// No two classes share a full name.
pub open spec fn unique_class_names(classes: Seq<SkClass>) -> bool {
    forall|i: int, j: int|
        0 <= i < j < classes.len() ==> classes[i].fullname@ != classes[j].fullname@
}

/// Every superclass stands at an earlier index than its subclass, so
/// inheritance is acyclic and every reachable superclass exists.
pub open spec fn supers_before(classes: Seq<SkClass>) -> bool {
    forall|i: int|
        0 <= i < classes.len() ==> (#[trigger] classes[i].superclass_fullname matches Some(s)
            ==> exists|j: int| 0 <= j < i && classes[j].fullname@ == s@)
}

/// A class has no superclass iff it is `Object`.
pub open spec fn root_is_object(classes: Seq<SkClass>) -> bool {
    forall|i: int|
        0 <= i < classes.len() ==> ((#[trigger] classes[i].superclass_fullname) is None
            <==> classes[i].fullname@ == object_name())
}

/// A type references a class present in the dictionary.
pub open spec fn ty_exists(classes: Seq<SkClass>, t: TermTy) -> bool {
    has_class_name(classes, ty_class_name(t))
}

/// Every parameter type and the return type of `sig` name classes of the
/// dictionary.
pub open spec fn sig_resolved(classes: Seq<SkClass>, sig: MethodSignature) -> bool {
    &&& ty_exists(classes, sig.ret_ty)
    &&& forall|k: int| 0 <= k < sig.params@.len() ==> ty_exists(classes, sig.params@[k].ty)
}

/// Every method signature stored anywhere in the dictionary is resolved.
pub open spec fn sigs_resolved(classes: Seq<SkClass>) -> bool {
    forall|i: int, k: int|
        0 <= i < classes.len() && 0 <= k < classes[i].method_sigs@.len() ==> sig_resolved(
            classes,
            #[trigger] classes[i].method_sigs@[k],
        )
}

/// Instance-variable slots are contiguous from zero, in vector order.
pub open spec fn ivars_indexed(classes: Seq<SkClass>) -> bool {
    forall|i: int, k: int|
        0 <= i < classes.len() && 0 <= k < classes[i].ivars@.len() ==> (
        #[trigger] classes[i].ivars@[k]).idx == k
}

/// No class holds two instance variables of one name.
pub open spec fn ivars_unique(classes: Seq<SkClass>) -> bool {
    forall|i: int, k: int, l: int|
        0 <= i < classes.len() && 0 <= k < l < classes[i].ivars@.len() ==> (
        #[trigger] classes[i].ivars@[k]).name@ != (#[trigger] classes[i].ivars@[l]).name@
}

/// The dictionary's invariant, over its class sequence.
pub open spec fn wf_classes(classes: Seq<SkClass>) -> bool {
    &&& unique_class_names(classes)
    &&& supers_before(classes)
    &&& root_is_object(classes)
    &&& sigs_resolved(classes)
    &&& ivars_indexed(classes)
    &&& ivars_unique(classes)
}

impl ClassDict {
    /// The dictionary's invariant.
    pub open spec fn wf(&self) -> bool {
        wf_classes(self.sk_classes@)
    }
}

/// Under uniqueness, `class_index` is the one index bearing the name.
pub proof fn lemma_class_index(classes: Seq<SkClass>, n: Seq<char>)
    requires
        unique_class_names(classes),
        has_class_name(classes, n),
    ensures
        0 <= class_index(classes, n) < classes.len(),
        classes[class_index(classes, n)].fullname@ == n,
        forall|j: int|
            0 <= j < classes.len() && classes[j].fullname@ == n ==> j == class_index(classes, n),
{
    let ci = class_index(classes, n);
    assert(0 <= ci < classes.len() && classes[ci].fullname@ == n);
    assert forall|j: int|
        0 <= j < classes.len() && classes[j].fullname@ == n implies j == ci by {
        if j < ci {
            assert(classes[j].fullname@ != classes[ci].fullname@);
        } else if ci < j {
            assert(classes[ci].fullname@ != classes[j].fullname@);
        }
    }
}

} // verus!
