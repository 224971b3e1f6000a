//! Lookups on the class dictionary: classes, methods, instance
//! variables, supertypes and ancestor chains.

use vstd::prelude::*;
use crate::class_dict::{
    ClassDict, MethodSignature, SkClass, SkIVar, class_index, class_named, has_class_name,
    lemma_class_index, object_name, wf_classes,
};
use crate::error::{Error, ErrorKind, program_error};
use crate::names::{ClassFullname, MethodFirstname, is_meta_name};
use crate::ty::{TermTy, ty_class_name, ty_from_classname};

verus! {

/// The first signature named `m`, if any (earlier entries win).
pub open spec fn find_sig(sigs: Seq<MethodSignature>, m: Seq<char>) -> Option<MethodSignature>
    decreases sigs.len(),
{
    if sigs.len() <= 0 {
        None
    } else if sigs[0].first_name@ == m {
        Some(sigs[0])
    } else {
        find_sig(sigs.drop_first(), m)
    }
}

/// Skipping entries that do not bear the name leaves the result unchanged.
pub proof fn lemma_find_sig_skip(sigs: Seq<MethodSignature>, m: Seq<char>, i: int)
    requires
        0 <= i <= sigs.len(),
        forall|k: int| 0 <= k < i ==> sigs[k].first_name@ != m,
    ensures
        find_sig(sigs, m) == find_sig(sigs.skip(i), m),
    decreases i,
{
    if i > 0 {
        assert(sigs.drop_first() =~= sigs.skip(1));
        lemma_find_sig_skip(sigs.skip(1), m, i - 1);
        assert(sigs.skip(1).skip(i - 1) =~= sigs.skip(i));
    } else {
        assert(sigs.skip(0) =~= sigs);
    }
}

/// The first instance variable named `n`, if any.
pub open spec fn find_ivar_spec(ivars: Seq<SkIVar>, n: Seq<char>) -> Option<SkIVar>
    decreases ivars.len(),
{
    if ivars.len() <= 0 {
        None
    } else if ivars[0].name@ == n {
        Some(ivars[0])
    } else {
        find_ivar_spec(ivars.drop_first(), n)
    }
}

pub proof fn lemma_find_ivar_skip(ivars: Seq<SkIVar>, n: Seq<char>, i: int)
    requires
        0 <= i <= ivars.len(),
        forall|k: int| 0 <= k < i ==> ivars[k].name@ != n,
    ensures
        find_ivar_spec(ivars, n) == find_ivar_spec(ivars.skip(i), n),
    decreases i,
{
    if i > 0 {
        assert(ivars.drop_first() =~= ivars.skip(1));
        lemma_find_ivar_skip(ivars.skip(1), n, i - 1);
        assert(ivars.skip(1).skip(i - 1) =~= ivars.skip(i));
    } else {
        assert(ivars.skip(0) =~= ivars);
    }
}

/// The superclass name of the class named `n`, if any.
pub open spec fn super_name_of(classes: Seq<SkClass>, n: Seq<char>) -> Option<Seq<char>> {
    match class_named(classes, n).superclass_fullname {
        None => None,
        Some(s) => Some(s@),
    }
}

/// The inheritance chain starting at the class named `n`: the name
/// itself, then its superclasses, ending at `Object`.
pub open spec fn ancestor_chain(classes: Seq<SkClass>, n: Seq<char>) -> Seq<Seq<char>>
    decreases class_index(classes, n)
        when wf_classes(classes) && has_class_name(classes, n)
        via ancestor_chain_dec
{
    match super_name_of(classes, n) {
        None => seq![n],
        Some(s) => seq![n] + ancestor_chain(classes, s),
    }
}

#[via_fn]
proof fn ancestor_chain_dec(classes: Seq<SkClass>, n: Seq<char>) {
    lemma_class_index(classes, n);
    let ci = class_index(classes, n);
    match classes[ci].superclass_fullname {
        Some(s) => {
            let j = choose|j: int| 0 <= j < ci && classes[j].fullname@ == s@;
            assert(has_class_name(classes, s@));
            lemma_class_index(classes, s@);
        },
        None => {},
    }
}

/// A value of type `sub` is accepted wherever `sup` is expected:
/// `sup` stands somewhere on `sub`'s inheritance chain.
pub open spec fn is_subtype_name(classes: Seq<SkClass>, sub: Seq<char>, sup: Seq<char>) -> bool {
    ancestor_chain(classes, sub).contains(sup)
}

/// Subtyping on term types goes by their full class names (so
/// `Meta(C) <= Meta(D)` exactly mirrors `Raw(C) <= Raw(D)` in a
/// dictionary whose metaclass chain mirrors the class chain).
pub open spec fn is_subtype_ty(classes: Seq<SkClass>, a: TermTy, b: TermTy) -> bool {
    is_subtype_name(classes, ty_class_name(a), ty_class_name(b))
}

/// The method found by walking the chain from the class named `n`:
/// the first class of the chain whose own signatures hold `m`.
pub open spec fn lookup_method_spec(classes: Seq<SkClass>, n: Seq<char>, m: Seq<char>) -> Option<
    (MethodSignature, Seq<char>),
>
    decreases class_index(classes, n)
        when wf_classes(classes) && has_class_name(classes, n)
        via lookup_method_spec_dec
{
    match find_sig(class_named(classes, n).method_sigs@, m) {
        Some(sig) => Some((sig, n)),
        None => match super_name_of(classes, n) {
            None => None,
            Some(s) => lookup_method_spec(classes, s, m),
        },
    }
}

#[via_fn]
proof fn lookup_method_spec_dec(classes: Seq<SkClass>, n: Seq<char>, m: Seq<char>) {
    lemma_class_index(classes, n);
    let ci = class_index(classes, n);
    match classes[ci].superclass_fullname {
        Some(s) => {
            let j = choose|j: int| 0 <= j < ci && classes[j].fullname@ == s@;
            assert(has_class_name(classes, s@));
            lemma_class_index(classes, s@);
        },
        None => {},
    }
}

/// Every class chain reaches `Object`: a value of any class is accepted
/// where `Object` is expected.
pub proof fn lemma_chain_reaches_object(classes: Seq<SkClass>, n: Seq<char>)
    requires
        wf_classes(classes),
        has_class_name(classes, n),
    ensures
        is_subtype_name(classes, n, object_name()),
    decreases class_index(classes, n),
{
    lemma_class_index(classes, n);
    let ci = class_index(classes, n);
    match classes[ci].superclass_fullname {
        None => {
            assert(classes[ci].fullname@ == object_name());
            assert(ancestor_chain(classes, n) == seq![n]);
            assert(ancestor_chain(classes, n)[0] == object_name());
        },
        Some(s) => {
            let j = choose|j: int| 0 <= j < ci && classes[j].fullname@ == s@;
            assert(has_class_name(classes, s@));
            lemma_class_index(classes, s@);
            lemma_chain_reaches_object(classes, s@);
            let c = ancestor_chain(classes, s@);
            let k = choose|k: int| 0 <= k < c.len() && c[k] == object_name();
            assert(ancestor_chain(classes, n)[k + 1] == object_name());
        },
    }
}

/// Conversely, `Object` is a subtype of nothing but itself: its chain is
/// the single name `Object`.
pub proof fn lemma_object_subtype_only_itself(classes: Seq<SkClass>, n: Seq<char>)
    requires
        wf_classes(classes),
        has_class_name(classes, object_name()),
        is_subtype_name(classes, object_name(), n),
    ensures
        n == object_name(),
{
    lemma_class_index(classes, object_name());
    let ci = class_index(classes, object_name());
    assert(classes[ci].superclass_fullname is None);
    let chain = ancestor_chain(classes, object_name());
    assert(chain == seq![object_name()]);
    let k = choose|k: int| 0 <= k < chain.len() && chain[k] == n;
    assert(chain[k] == object_name());
}

/// A found signature is one of the sequence's members.
pub proof fn lemma_find_sig_member(sigs: Seq<MethodSignature>, m: Seq<char>)
    requires
        find_sig(sigs, m) is Some,
    ensures
        exists|k: int| 0 <= k < sigs.len() && sigs[k] == find_sig(sigs, m)->Some_0,
    decreases sigs.len(),
{
    if sigs.len() > 0 {
        if sigs[0].first_name@ == m {
            assert(sigs[0] == find_sig(sigs, m)->Some_0);
        } else {
            lemma_find_sig_member(sigs.drop_first(), m);
            let k = choose|k: int|
                0 <= k < sigs.drop_first().len() && sigs.drop_first()[k] == find_sig(
                    sigs.drop_first(),
                    m,
                )->Some_0;
            assert(sigs[k + 1] == sigs.drop_first()[k]);
        }
    }
}

/// A signature found by chain lookup is resolved: its parameter and
/// return types name classes of the dictionary.
pub proof fn lemma_lookup_sig_resolved(classes: Seq<SkClass>, n: Seq<char>, m: Seq<char>)
    requires
        wf_classes(classes),
        has_class_name(classes, n),
        lookup_method_spec(classes, n, m) is Some,
    ensures
        crate::class_dict::sig_resolved(classes, lookup_method_spec(classes, n, m)->Some_0.0),
    decreases class_index(classes, n),
{
    lemma_class_index(classes, n);
    let ci = class_index(classes, n);
    let sigs = class_named(classes, n).method_sigs@;
    match find_sig(sigs, m) {
        Some(sig) => {
            lemma_find_sig_member(sigs, m);
            let k = choose|k: int| 0 <= k < sigs.len() && sigs[k] == sig;
            assert(crate::class_dict::sig_resolved(classes, classes[ci].method_sigs@[k]));
        },
        None => {
            match classes[ci].superclass_fullname {
                Some(s) => {
                    let j = choose|j: int| 0 <= j < ci && classes[j].fullname@ == s@;
                    assert(has_class_name(classes, s@));
                    lemma_class_index(classes, s@);
                    lemma_lookup_sig_resolved(classes, s@, m);
                },
                None => {},
            }
        },
    }
}

/// Every name on an inheritance chain names a class of the dictionary.
pub proof fn lemma_chain_elements_exist(classes: Seq<SkClass>, n: Seq<char>)
    requires
        wf_classes(classes),
        has_class_name(classes, n),
    ensures
        forall|k: int|
            0 <= k < ancestor_chain(classes, n).len() ==> has_class_name(
                classes,
                #[trigger] ancestor_chain(classes, n)[k],
            ),
    decreases class_index(classes, n),
{
    lemma_class_index(classes, n);
    let ci = class_index(classes, n);
    match classes[ci].superclass_fullname {
        None => {
            assert(ancestor_chain(classes, n) == seq![n]);
        },
        Some(s) => {
            let j = choose|j: int| 0 <= j < ci && classes[j].fullname@ == s@;
            assert(has_class_name(classes, s@));
            lemma_class_index(classes, s@);
            lemma_chain_elements_exist(classes, s@);
            let sub = ancestor_chain(classes, s@);
            assert(ancestor_chain(classes, n) == seq![n] + sub);
            assert forall|k: int|
                0 <= k < ancestor_chain(classes, n).len() implies has_class_name(
                classes,
                #[trigger] ancestor_chain(classes, n)[k],
            ) by {
                if k == 0 {
                    assert(ancestor_chain(classes, n)[0] == n);
                } else {
                    assert(ancestor_chain(classes, n)[k] == sub[k - 1]);
                }
            }
        },
    }
}

/// Subtyping is reflexive: every chain starts with the class itself.
pub proof fn lemma_subtype_refl(classes: Seq<SkClass>, n: Seq<char>)
    requires
        wf_classes(classes),
        has_class_name(classes, n),
    ensures
        is_subtype_name(classes, n, n),
{
    assert(ancestor_chain(classes, n)[0] == n);
}

impl ClassDict {
    /// Find a class by full name.
    pub fn find_class(&self, class_fullname: &ClassFullname) -> (r: Option<&SkClass>)
        requires
            self.wf(),
        ensures
            r matches Some(c) ==> has_class_name(self.sk_classes@, class_fullname@) && *c
                == class_named(self.sk_classes@, class_fullname@),
            r is None ==> !has_class_name(self.sk_classes@, class_fullname@),
    {
        let n = self.sk_classes.len();
        let mut i: usize = 0;
        while i < n
            invariant
                n == self.sk_classes@.len(),
                0 <= i <= n,
                forall|k: int| 0 <= k < i ==> self.sk_classes@[k].fullname@ != class_fullname@,
                self.wf(),
            decreases n - i,
        {
            if self.sk_classes[i].fullname == *class_fullname {
                proof {
                    lemma_class_index(self.sk_classes@, class_fullname@);
                }
                return Some(&self.sk_classes[i]);
            }
            i = i + 1;
        }
        None
    }

    /// Find a class by full name; the class must exist.
    pub fn get_class(&self, class_fullname: &ClassFullname) -> (r: &SkClass)
        requires
            self.wf(),
            has_class_name(self.sk_classes@, class_fullname@),
        ensures
            *r == class_named(self.sk_classes@, class_fullname@),
    {
        match self.find_class(class_fullname) {
            Some(c) => c,
            None => {
                // unreachable: the class exists by precondition
                proof {
                    assert(false);
                }
                &self.sk_classes[0]
            },
        }
    }

    /// Return true if there is a class of the name.
    pub fn class_exists(&self, class_fullname: &str) -> (r: bool)
        ensures
            r == has_class_name(self.sk_classes@, class_fullname@),
    {
        let name = class_fullname.to_owned();
        let n = self.sk_classes.len();
        let mut i: usize = 0;
        while i < n
            invariant
                n == self.sk_classes@.len(),
                0 <= i <= n,
                name@ == class_fullname@,
                forall|k: int| 0 <= k < i ==> self.sk_classes@[k].fullname@ != class_fullname@,
            decreases n - i,
        {
            if self.sk_classes[i].fullname.0 == name {
                return true;
            }
            i = i + 1;
        }
        false
    }

    /// Find a method from class full name and method first name, in that
    /// class only (no superclass lookup).
    pub fn find_method(&self, class_fullname: &ClassFullname, method_name: &MethodFirstname) -> (r:
        Option<&MethodSignature>)
        requires
            self.wf(),
        ensures
            r matches Some(s) ==> has_class_name(self.sk_classes@, class_fullname@) && find_sig(
                class_named(self.sk_classes@, class_fullname@).method_sigs@,
                method_name@,
            ) == Some(*s),
            r is None ==> !has_class_name(self.sk_classes@, class_fullname@) || find_sig(
                class_named(self.sk_classes@, class_fullname@).method_sigs@,
                method_name@,
            ) is None,
    {
        match self.find_class(class_fullname) {
            None => None,
            Some(c) => {
                let n = c.method_sigs.len();
                let mut i: usize = 0;
                while i < n
                    invariant
                        self.wf(),
                        has_class_name(self.sk_classes@, class_fullname@),
                        *c == class_named(self.sk_classes@, class_fullname@),
                        n == c.method_sigs@.len(),
                        0 <= i <= n,
                        forall|k: int| 0 <= k < i ==> c.method_sigs@[k].first_name@ != method_name@,
                    decreases n - i,
                {
                    if c.method_sigs[i].first_name == *method_name {
                        proof {
                            lemma_find_sig_skip(c.method_sigs@, method_name@, i as int);
                            assert(c.method_sigs@.skip(i as int)[0] == c.method_sigs@[i as int]);
                            assert(c.method_sigs@.skip(i as int).len() > 0);
                            assert(find_sig(c.method_sigs@.skip(i as int), method_name@) == Some(
                                c.method_sigs@[i as int],
                            ));
                        }
                        return Some(&c.method_sigs[i]);
                    }
                    i = i + 1;
                }
                proof {
                    lemma_find_sig_skip(c.method_sigs@, method_name@, n as int);
                }
                None
            },
        }
    }

    /// Like `find_method`, but walk superclasses when the class itself
    /// lacks the method; `Err` (a program error) iff the whole chain
    /// lacks it.
    pub fn lookup_method(&self, class_fullname: &ClassFullname, method_name: &MethodFirstname) -> (
        r: Result<(&MethodSignature, ClassFullname), Error>)
        requires
            self.wf(),
            has_class_name(self.sk_classes@, class_fullname@),
        ensures
            r matches Ok(p) ==> lookup_method_spec(self.sk_classes@, class_fullname@, method_name@)
                matches Some(q) && q.0 == *p.0 && q.1 == p.1@,
            r matches Err(e) ==> lookup_method_spec(self.sk_classes@, class_fullname@, method_name@)
                is None && e.kind == ErrorKind::ProgramError,
    {
        self.lookup_method_(class_fullname, class_fullname, method_name)
    }

    fn lookup_method_(
        &self,
        receiver_class_fullname: &ClassFullname,
        class_fullname: &ClassFullname,
        method_name: &MethodFirstname,
    ) -> (r: Result<(&MethodSignature, ClassFullname), Error>)
        requires
            self.wf(),
            has_class_name(self.sk_classes@, class_fullname@),
        ensures
            r matches Ok(p) ==> lookup_method_spec(self.sk_classes@, class_fullname@, method_name@)
                matches Some(q) && q.0 == *p.0 && q.1 == p.1@,
            r matches Err(e) ==> lookup_method_spec(self.sk_classes@, class_fullname@, method_name@)
                is None && e.kind == ErrorKind::ProgramError,
        decreases class_index(self.sk_classes@, class_fullname@),
    {
        match self.find_method(class_fullname, method_name) {
            Some(sig) => Ok((sig, class_fullname.clone())),
            None => {
                let sk_class = self.get_class(class_fullname);
                proof {
                    lemma_class_index(self.sk_classes@, class_fullname@);
                }
                match &sk_class.superclass_fullname {
                    Some(super_name) => {
                        proof {
                            let classes = self.sk_classes@;
                            let ci = class_index(classes, class_fullname@);
                            let j = choose|j: int|
                                0 <= j < ci && classes[j].fullname@ == super_name@;
                            assert(has_class_name(classes, super_name@));
                            lemma_class_index(classes, super_name@);
                        }
                        self.lookup_method_(receiver_class_fullname, super_name, method_name)
                    },
                    None => Err(program_error("method not found on the receiver or any ancestor")),
                }
            },
        }
    }

    /// The superclass record of a class; `None` iff the class is
    /// `Object`.
    pub fn get_superclass(&self, classname: &ClassFullname) -> (r: Option<&SkClass>)
        requires
            self.wf(),
            has_class_name(self.sk_classes@, classname@),
        ensures
            r matches Some(c) ==> super_name_of(self.sk_classes@, classname@) matches Some(s)
                && has_class_name(self.sk_classes@, s) && *c == class_named(self.sk_classes@, s),
            r is None <==> super_name_of(self.sk_classes@, classname@) is None,
    {
        let cls = self.get_class(classname);
        proof {
            lemma_class_index(self.sk_classes@, classname@);
        }
        match &cls.superclass_fullname {
            None => None,
            Some(super_name) => {
                proof {
                    let classes = self.sk_classes@;
                    let ci = class_index(classes, classname@);
                    let j = choose|j: int| 0 <= j < ci && classes[j].fullname@ == super_name@;
                    assert(has_class_name(classes, super_name@));
                }
                Some(self.get_class(super_name))
            },
        }
    }

    /// The supertype of `ty`: the instance (or meta) type of the
    /// superclass of `ty`'s class; `None` iff that class is `Object`.
    pub fn supertype_of(&self, ty: &TermTy) -> (r: Option<TermTy>)
        requires
            self.wf(),
            crate::class_dict::ty_exists(self.sk_classes@, *ty),
        ensures
            r matches Some(t2) ==> super_name_of(self.sk_classes@, ty_class_name(*ty)) matches Some(
                n2,
            ) && ty_class_name(t2) == n2 && (t2 is Meta <==> is_meta_name(n2))
                && crate::class_dict::ty_exists(self.sk_classes@, t2),
            r is None <==> super_name_of(self.sk_classes@, ty_class_name(*ty)) is None,
    {
        let full = ty.fullname();
        match self.get_superclass(&full) {
            None => None,
            Some(c) => {
                proof {
                    let classes = self.sk_classes@;
                    let s = super_name_of(classes, ty_class_name(*ty))->Some_0;
                    lemma_class_index(classes, s);
                }
                Some(ty_from_classname(&c.fullname))
            },
        }
    }

    /// All ancestor types of `ty`, starting with `ty` itself, following
    /// the chain up to `Object`.
    pub fn ancestor_types(&self, ty: &TermTy) -> (r: Vec<TermTy>)
        requires
            self.wf(),
            crate::class_dict::ty_exists(self.sk_classes@, *ty),
        ensures
            r@.len() == ancestor_chain(self.sk_classes@, ty_class_name(*ty)).len(),
            r@.len() >= 1 && r@[0] == *ty,
            forall|i: int|
                0 <= i < r@.len() ==> ty_class_name(#[trigger] r@[i]) == ancestor_chain(
                    self.sk_classes@,
                    ty_class_name(*ty),
                )[i],
            forall|i: int|
                1 <= i < r@.len() ==> ((#[trigger] r@[i]) is Meta <==> is_meta_name(
                    ancestor_chain(self.sk_classes@, ty_class_name(*ty))[i],
                )),
    {
        let ghost classes = self.sk_classes@;
        let ghost chain0 = ancestor_chain(classes, ty_class_name(*ty));
        let mut v: Vec<TermTy> = Vec::new();
        let mut t: Option<TermTy> = Some(ty.clone());
        proof {
            assert(ancestor_chain(classes, ty_class_name(*ty)) =~= chain0.skip(0));
        }
        while t.is_some()
            invariant
                self.wf(),
                classes == self.sk_classes@,
                chain0 == ancestor_chain(classes, ty_class_name(*ty)),
                v@.len() <= chain0.len(),
                v@.len() > 0 ==> v@[0] == *ty,
                forall|i: int|
                    0 <= i < v@.len() ==> ty_class_name(#[trigger] v@[i]) == chain0[i],
                forall|i: int|
                    1 <= i < v@.len() ==> ((#[trigger] v@[i]) is Meta <==> is_meta_name(chain0[i])),
                t matches Some(tt) ==> crate::class_dict::ty_exists(classes, tt)
                    && v@.len() < chain0.len() && ancestor_chain(classes, ty_class_name(tt))
                    == chain0.skip(v@.len() as int),
                t matches Some(tt) ==> (v@.len() >= 1 ==> (tt is Meta <==> is_meta_name(
                    ty_class_name(tt),
                ))),
                t matches Some(tt) ==> (v@.len() == 0 ==> tt == *ty),
                t is None ==> v@.len() == chain0.len(),
            decreases (match t {
                Some(tt) => class_index(classes, ty_class_name(tt)) + 1,
                None => 0,
            }),
        {
            let tt = t.unwrap();
            proof {
                lemma_class_index(classes, ty_class_name(tt));
                assert(chain0.skip(v@.len() as int)[0] == chain0[v@.len() as int]);
            }
            let next = self.supertype_of(&tt);
            proof {
                let k = v@.len() as int;
                let cur_chain = ancestor_chain(classes, ty_class_name(tt));
                match super_name_of(classes, ty_class_name(tt)) {
                    None => {
                        assert(cur_chain == seq![ty_class_name(tt)]);
                        assert(chain0.skip(k) =~= seq![ty_class_name(tt)]);
                        assert(chain0.len() == k + 1);
                    },
                    Some(s) => {
                        assert(cur_chain == seq![ty_class_name(tt)] + ancestor_chain(classes, s));
                        assert((seq![ty_class_name(tt)] + ancestor_chain(classes, s)).skip(1)
                            =~= ancestor_chain(classes, s));
                        assert(chain0.skip(k).skip(1) =~= chain0.skip(k + 1));
                        assert(ancestor_chain(classes, s) =~= chain0.skip(k + 1));
                        let ci = class_index(classes, ty_class_name(tt));
                        let j = choose|j: int| 0 <= j < ci && classes[j].fullname@ == s;
                        assert(has_class_name(classes, s));
                        lemma_class_index(classes, s);
                    },
                }
                assert(cur_chain[0] == ty_class_name(tt));
            }
            v.push(tt);
            t = next;
        }
        v
    }

    /// Find an instance variable of a class (the class must exist).
    pub fn find_ivar(&self, classname: &ClassFullname, ivar_name: &str) -> (r: Option<&SkIVar>)
        requires
            self.wf(),
            has_class_name(self.sk_classes@, classname@),
        ensures
            r matches Some(v) ==> find_ivar_spec(
                class_named(self.sk_classes@, classname@).ivars@,
                ivar_name@,
            ) == Some(*v),
            r is None ==> find_ivar_spec(
                class_named(self.sk_classes@, classname@).ivars@,
                ivar_name@,
            ) is None,
    {
        let class = self.get_class(classname);
        let name = ivar_name.to_owned();
        let n = class.ivars.len();
        let mut i: usize = 0;
        while i < n
            invariant
                self.wf(),
                has_class_name(self.sk_classes@, classname@),
                *class == class_named(self.sk_classes@, classname@),
                n == class.ivars@.len(),
                0 <= i <= n,
                name@ == ivar_name@,
                forall|k: int| 0 <= k < i ==> class.ivars@[k].name@ != ivar_name@,
            decreases n - i,
        {
            if class.ivars[i].name == name {
                proof {
                    lemma_find_ivar_skip(class.ivars@, ivar_name@, i as int);
                    assert(class.ivars@.skip(i as int)[0] == class.ivars@[i as int]);
                    assert(class.ivars@.skip(i as int).len() > 0);
                    assert(find_ivar_spec(class.ivars@.skip(i as int), ivar_name@) == Some(
                        class.ivars@[i as int],
                    ));
                }
                return Some(&class.ivars[i]);
            }
            i = i + 1;
        }
        proof {
            lemma_find_ivar_skip(class.ivars@, ivar_name@, n as int);
        }
        None
    }
}

} // verus!
