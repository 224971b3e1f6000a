//! Term types: nominal instance types and metaclass types.

use vstd::prelude::*;
use crate::names::{ClassFullname, is_meta_name, meta_name_of, meta_prefix};

verus! {

/// A term type. `Raw(C)` is the instance type of class `C`; `Meta(C)` is
/// the type of the class object of `C` (its full class name is `Meta:C`).
#[derive(Debug, PartialEq)]
pub enum TermTy {
    Raw { fullname: ClassFullname },
    Meta { base_fullname: ClassFullname },
}

/// Equality of term types: same variant, same name.
pub open spec fn ty_eq(a: TermTy, b: TermTy) -> bool {
    match (a, b) {
        (TermTy::Raw { fullname: x }, TermTy::Raw { fullname: y }) => x@ == y@,
        (TermTy::Meta { base_fullname: x }, TermTy::Meta { base_fullname: y }) => x@ == y@,
        _ => false,
    }
}

/// The full class name of a type: `C` for `Raw(C)`, `Meta:C` for `Meta(C)`.
pub open spec fn ty_class_name(t: TermTy) -> Seq<char> {
    match t {
        TermTy::Raw { fullname } => fullname@,
        TermTy::Meta { base_fullname } => meta_name_of(base_fullname@),
    }
}

/// Whether `t` is the instance type named `n`.
pub open spec fn is_raw_named(t: TermTy, n: Seq<char>) -> bool {
    t matches TermTy::Raw { fullname } && fullname@ == n
}

/// Whether `t` is the metaclass type of the class named `n`.
pub open spec fn is_meta_named(t: TermTy, n: Seq<char>) -> bool {
    t matches TermTy::Meta { base_fullname } && base_fullname@ == n
}

/// The instance type of the class named by `s`.
pub fn raw(name: &str) -> (t: TermTy)
    ensures
        is_raw_named(t, name@),
{
    TermTy::Raw { fullname: ClassFullname(name.to_owned()) }
}

/// The metaclass type of the class named by `s`.
pub fn meta(base_name: &str) -> (t: TermTy)
    ensures
        is_meta_named(t, base_name@),
{
    TermTy::Meta { base_fullname: ClassFullname(base_name.to_owned()) }
}

/// Rebuild a term type from a full class name: `Meta:C` becomes
/// `Meta(C)`, any other name `n` becomes `Raw(n)`.
pub fn ty_from_classname(n: &ClassFullname) -> (t: TermTy)
    ensures
        ty_class_name(t) == n@,
        t is Meta <==> is_meta_name(n@),
{
    if n.is_meta() {
        let s = n.0.as_str();
        let len = s.unicode_len();
        let base = s.substring_char(5, len).to_owned();
        let t = TermTy::Meta { base_fullname: ClassFullname(base) };
        proof {
            assert(forall|i: int| 0 <= i < 5 ==> n@.subrange(0, 5)[i] == n@[i]);
            assert(meta_prefix() == n@.subrange(0, 5));
            assert(ty_class_name(t) =~= n@);
        }
        t
    } else {
        TermTy::Raw { fullname: n.clone() }
    }
}

impl Clone for TermTy {
    fn clone(&self) -> (r: Self)
        ensures
            r == *self,
    {
        match self {
            TermTy::Raw { fullname } => TermTy::Raw { fullname: fullname.clone() },
            TermTy::Meta { base_fullname } => TermTy::Meta { base_fullname: base_fullname.clone() },
        }
    }
}

impl TermTy {
    /// Whether the two types are equal (same variant and name).
    pub fn equals(&self, other: &TermTy) -> (r: bool)
        ensures
            r == ty_eq(*self, *other),
    {
        match (self, other) {
            (TermTy::Raw { fullname: x }, TermTy::Raw { fullname: y }) => x == y,
            (TermTy::Meta { base_fullname: x }, TermTy::Meta { base_fullname: y }) => x == y,
            _ => false,
        }
    }

    /// The full class name of the type (`Meta:` prefixed for `Meta`).
    pub fn fullname(&self) -> (r: ClassFullname)
        ensures
            r@ == ty_class_name(*self),
    {
        match self {
            TermTy::Raw { fullname } => fullname.clone(),
            TermTy::Meta { base_fullname } => base_fullname.meta_name(),
        }
    }

    /// The metaclass type of an instance type.
    pub fn meta_ty(&self) -> (r: TermTy)
        requires
            self is Raw,
        ensures
            is_meta_named(r, self->Raw_fullname@),
    {
        match self {
            TermTy::Raw { fullname } => TermTy::Meta { base_fullname: fullname.clone() },
            TermTy::Meta { base_fullname } => TermTy::Meta { base_fullname: base_fullname.clone() },
        }
    }

    /// The instance type of a metaclass type.
    pub fn instance_ty(&self) -> (r: TermTy)
        requires
            self is Meta,
        ensures
            is_raw_named(r, self->Meta_base_fullname@),
    {
        match self {
            TermTy::Meta { base_fullname } => TermTy::Raw { fullname: base_fullname.clone() },
            TermTy::Raw { fullname } => TermTy::Raw { fullname: fullname.clone() },
        }
    }

    /// Whether this is the instance type of the class named `n`.
    pub fn is_raw_of(&self, n: &str) -> (r: bool)
        ensures
            r == is_raw_named(*self, n@),
    {
        match self {
            TermTy::Raw { fullname } => fullname.0 == n.to_owned(),
            TermTy::Meta { base_fullname: _ } => false,
        }
    }
}

} // verus!
