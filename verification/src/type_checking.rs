//! The type-checking rules: subtype conformance (return values,
//! arguments) and unification of `if` branches by nearest common
//! ancestor.

use vstd::prelude::*;
use crate::class_dict::query::{ancestor_chain, is_subtype_ty, lemma_chain_reaches_object};
use crate::class_dict::{ClassDict, MethodSignature, ty_exists};
use crate::error::{Error, ErrorKind, type_error};
use crate::names::is_meta_name;
use crate::ty::{TermTy, ty_class_name, ty_from_classname};

verus! {

/// The first name of `xs` that occurs in `ys`, if any: the nearest
/// common ancestor of two chains.
pub open spec fn first_common(xs: Seq<Seq<char>>, ys: Seq<Seq<char>>) -> Option<Seq<char>>
    decreases xs.len(),
{
    if xs.len() <= 0 {
        None
    } else if ys.contains(xs[0]) {
        Some(xs[0])
    } else {
        first_common(xs.drop_first(), ys)
    }
}

/// Skipping entries of `xs` that `ys` does not contain leaves the first
/// common name unchanged.
proof fn lemma_first_common_skip(xs: Seq<Seq<char>>, ys: Seq<Seq<char>>, i: int)
    requires
        0 <= i <= xs.len(),
        forall|k: int| 0 <= k < i ==> !ys.contains(xs[k]),
    ensures
        first_common(xs, ys) == first_common(xs.skip(i), ys),
    decreases i,
{
    if i > 0 {
        assert(xs.drop_first() =~= xs.skip(1));
        lemma_first_common_skip(xs.skip(1), ys, i - 1);
        assert(xs.skip(1).skip(i - 1) =~= xs.skip(i));
    } else {
        assert(xs.skip(0) =~= xs);
    }
}

/// The inheritance-chain names of a type, for unification.
pub open spec fn chain_of(classes: Seq<crate::class_dict::SkClass>, t: TermTy) -> Seq<Seq<char>> {
    ancestor_chain(classes, ty_class_name(t))
}

impl ClassDict {
    /// Whether a value of type `sub` is accepted where `sup` is
    /// expected: `sup`'s class stands on `sub`'s inheritance chain
    /// (subtyping is the reflexive-transitive closure of `supertype_of`).
    pub fn conforms(&self, sub: &TermTy, sup: &TermTy) -> (r: bool)
        requires
            self.wf(),
            ty_exists(self.sk_classes@, *sub),
        ensures
            r == is_subtype_ty(self.sk_classes@, *sub, *sup),
    {
        let ghost chain = ancestor_chain(self.sk_classes@, ty_class_name(*sub));
        let ancestors = self.ancestor_types(sub);
        let target = sup.fullname();
        let n = ancestors.len();
        let mut i: usize = 0;
        while i < n
            invariant
                chain == ancestor_chain(self.sk_classes@, ty_class_name(*sub)),
                n == ancestors@.len(),
                0 <= i <= n,
                chain.len() == n,
                forall|k: int|
                    0 <= k < n ==> ty_class_name(#[trigger] ancestors@[k]) == chain[k],
                target@ == ty_class_name(*sup),
                forall|k: int| 0 <= k < i ==> chain[k] != ty_class_name(*sup),
            decreases n - i,
        {
            let name = ancestors[i].fullname();
            if name == target {
                proof {
                    assert(chain[i as int] == ty_class_name(*sup));
                    assert(chain.contains(ty_class_name(*sup)));
                }
                return true;
            }
            i = i + 1;
        }
        proof {
            if chain.contains(ty_class_name(*sup)) {
                let k = choose|k: int| 0 <= k < chain.len() && chain[k] == ty_class_name(*sup);
                assert(false);
            }
        }
        false
    }

    /// The unified type of two `if` branches: walking up from `a`, the
    /// first ancestor that is also an ancestor of `b`. Both chains end
    /// at `Object`, so a common ancestor always exists.
    pub fn nearest_common_ancestor(&self, a: &TermTy, b: &TermTy) -> (r: TermTy)
        requires
            self.wf(),
            ty_exists(self.sk_classes@, *a),
            ty_exists(self.sk_classes@, *b),
        ensures
            first_common(chain_of(self.sk_classes@, *a), chain_of(self.sk_classes@, *b)) == Some(
                ty_class_name(r),
            ),
            r is Meta <==> is_meta_name(ty_class_name(r)),
            ty_exists(self.sk_classes@, r),
    {
        let ghost classes = self.sk_classes@;
        let ghost xs = chain_of(classes, *a);
        let ghost ys = chain_of(classes, *b);
        let chain_a = self.ancestor_types(a);
        let chain_b = self.ancestor_types(b);
        let na = chain_a.len();
        let mut i: usize = 0;
        while i < na
            invariant
                self.wf(),
                classes == self.sk_classes@,
                xs == chain_of(classes, *a),
                ys == chain_of(classes, *b),
                na == chain_a@.len(),
                0 <= i <= na,
                xs.len() == na,
                forall|k: int| 0 <= k < na ==> ty_class_name(#[trigger] chain_a@[k]) == xs[k],
                ys.len() == chain_b@.len(),
                forall|k: int| 0 <= k < ys.len() ==> ty_class_name(#[trigger] chain_b@[k]) == ys[k],
                forall|k: int| 0 <= k < i ==> !ys.contains(xs[k]),
                crate::class_dict::has_class_name(classes, ty_class_name(*a)),
                crate::class_dict::has_class_name(classes, ty_class_name(*b)),
            decreases na - i,
        {
            let name_a = chain_a[i].fullname();
            let nb = chain_b.len();
            let mut j: usize = 0;
            let mut found = false;
            while j < nb
                invariant
                    nb == chain_b@.len(),
                    0 <= j <= nb,
                    ys.len() == nb,
                    forall|k: int|
                        0 <= k < nb ==> ty_class_name(#[trigger] chain_b@[k]) == ys[k],
                    name_a@ == ty_class_name(chain_a@[i as int]),
                    !found ==> forall|k: int| 0 <= k < j ==> ys[k] != name_a@,
                    found ==> ys.contains(name_a@),
                decreases nb - j,
            {
                let name_b = chain_b[j].fullname();
                if name_b == name_a {
                    found = true;
                    proof {
                        assert(ys[j as int] == name_a@);
                    }
                    j = nb;
                } else {
                    j = j + 1;
                }
            }
            if found {
                proof {
                    lemma_first_common_skip(xs, ys, i as int);
                    assert(xs.skip(i as int)[0] == xs[i as int]);
                    assert(ys.contains(xs[i as int]));
                    assert(first_common(xs.skip(i as int), ys) == Some(xs[i as int]));
                }
                proof {
                    crate::class_dict::query::lemma_chain_elements_exist(
                        classes,
                        ty_class_name(*a),
                    );
                }
                // rebuild a term type from the common ancestor's class name
                let r = ty_from_classname(&name_a);
                return r;
            }
            proof {
                if ys.contains(xs[i as int]) {
                    let k = choose|k: int| 0 <= k < ys.len() && ys[k] == xs[i as int];
                    assert(ty_class_name(chain_b@[k]) == xs[i as int]);
                    assert(false);
                }
            }
            i = i + 1;
        }
        // unreachable: both chains contain `Object`
        proof {
            lemma_chain_reaches_object(classes, ty_class_name(*a));
            lemma_chain_reaches_object(classes, ty_class_name(*b));
            let k = choose|k: int|
                0 <= k < xs.len() && xs[k] == crate::class_dict::object_name();
            assert(ys.contains(xs[k]));
            assert(false);
        }
        crate::ty::raw("Object")
    }

    /// Check that a method body's type conforms to the declared return
    /// type: `Ok` iff it is a subtype, or the method returns `Void`
    /// (its value is discarded).
    pub fn check_return_value(&self, sig: &MethodSignature, body_ty: &TermTy) -> (r: Result<
        (),
        Error,
    >)
        requires
            self.wf(),
            ty_exists(self.sk_classes@, *body_ty),
        ensures
            r is Ok <==> (crate::ty::is_raw_named(sig.ret_ty, "Void"@) || is_subtype_ty(
                self.sk_classes@,
                *body_ty,
                sig.ret_ty,
            )),
            r matches Err(e) ==> e.kind == ErrorKind::TypeError,
    {
        if sig.ret_ty.is_raw_of("Void") {
            return Ok(());
        }
        if self.conforms(body_ty, &sig.ret_ty) {
            Ok(())
        } else {
            Err(type_error("the method body does not conform to the declared return type"))
        }
    }
}

} // verus!
