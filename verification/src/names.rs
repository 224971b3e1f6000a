//! Identity values: wrapped strings naming classes, methods and constants.
//!
//! A class full name is *meta* iff it begins with `Meta:`; for every
//! non-meta class `C` the name `Meta:C` names its class-object type.

use vstd::prelude::*;

verus! {

/// The characters of the `Meta:` prefix that marks a metaclass name.
pub open spec fn meta_prefix() -> Seq<char> {
    seq!['M', 'e', 't', 'a', ':']
}

/// Whether a class full name names a metaclass.
pub open spec fn is_meta_name(s: Seq<char>) -> bool {
    s.len() >= 5 && s.subrange(0, 5) == meta_prefix()
}

/// The metaclass name of a class name: `Meta:` followed by the name.
pub open spec fn meta_name_of(s: Seq<char>) -> Seq<char> {
    meta_prefix() + s
}

/// A first name qualified by a namespace: `ns::n`, or `n` alone at the
/// top level (empty namespace).
pub open spec fn namespaced(ns: Seq<char>, n: Seq<char>) -> Seq<char> {
    if ns.len() == 0 {
        n
    } else {
        ns + seq![':', ':'] + n
    }
}

/// A method full name: owning class full name, `#`, method first name.
pub open spec fn method_fullname_of(c: Seq<char>, m: Seq<char>) -> Seq<char> {
    c + seq!['#'] + m
}

/// A constant full name under a namespace: `ns::n` (so `::n` at top level).
pub open spec fn const_fullname_of(ns: Seq<char>, n: Seq<char>) -> Seq<char> {
    ns + seq![':', ':'] + n
}

/// A single class name as written in the source (e.g. `Array`).
#[derive(Debug)]
pub struct ClassFirstname(pub String);

/// A fully-qualified class name (e.g. `A` or `Meta:A`).
#[derive(Debug)]
pub struct ClassFullname(pub String);

/// A method name as written (e.g. `initialize`, `+`).
#[derive(Debug)]
pub struct MethodFirstname(pub String);

/// A method name qualified by its owning class (e.g. `A#foo`).
#[derive(Debug)]
pub struct MethodFullname(pub String);

/// A constant name as written (e.g. `X`).
#[derive(Debug)]
pub struct ConstFirstname(pub String);

/// A fully-qualified constant name (e.g. `::X`).
#[derive(Debug)]
pub struct ConstFullname(pub String);

impl View for ClassFirstname {
    type V = Seq<char>;

    open spec fn view(&self) -> Seq<char> {
        self.0@
    }
}

impl View for ClassFullname {
    type V = Seq<char>;

    open spec fn view(&self) -> Seq<char> {
        self.0@
    }
}

impl View for MethodFirstname {
    type V = Seq<char>;

    open spec fn view(&self) -> Seq<char> {
        self.0@
    }
}

impl View for MethodFullname {
    type V = Seq<char>;

    open spec fn view(&self) -> Seq<char> {
        self.0@
    }
}

impl View for ConstFirstname {
    type V = Seq<char>;

    open spec fn view(&self) -> Seq<char> {
        self.0@
    }
}

impl View for ConstFullname {
    type V = Seq<char>;

    open spec fn view(&self) -> Seq<char> {
        self.0@
    }
}

impl Clone for ClassFirstname {
    fn clone(&self) -> (r: Self)
        ensures
            r == *self,
    {
        ClassFirstname(self.0.clone())
    }
}

impl Clone for ClassFullname {
    fn clone(&self) -> (r: Self)
        ensures
            r == *self,
    {
        ClassFullname(self.0.clone())
    }
}

impl Clone for MethodFirstname {
    fn clone(&self) -> (r: Self)
        ensures
            r == *self,
    {
        MethodFirstname(self.0.clone())
    }
}

impl Clone for MethodFullname {
    fn clone(&self) -> (r: Self)
        ensures
            r == *self,
    {
        MethodFullname(self.0.clone())
    }
}

impl Clone for ConstFirstname {
    fn clone(&self) -> (r: Self)
        ensures
            r == *self,
    {
        ConstFirstname(self.0.clone())
    }
}

impl Clone for ConstFullname {
    fn clone(&self) -> (r: Self)
        ensures
            r == *self,
    {
        ConstFullname(self.0.clone())
    }
}

impl PartialEq for ClassFullname {
    fn eq(&self, other: &Self) -> (r: bool) {
        self.0 == other.0
    }
}

impl vstd::std_specs::cmp::PartialEqSpecImpl for ClassFullname {
    open spec fn obeys_eq_spec() -> bool {
        true
    }

    open spec fn eq_spec(&self, other: &Self) -> bool {
        self@ == other@
    }
}

impl PartialEq for MethodFirstname {
    fn eq(&self, other: &Self) -> (r: bool) {
        self.0 == other.0
    }
}

impl vstd::std_specs::cmp::PartialEqSpecImpl for MethodFirstname {
    open spec fn obeys_eq_spec() -> bool {
        true
    }

    open spec fn eq_spec(&self, other: &Self) -> bool {
        self@ == other@
    }
}

impl PartialEq for MethodFullname {
    fn eq(&self, other: &Self) -> (r: bool) {
        self.0 == other.0
    }
}

impl vstd::std_specs::cmp::PartialEqSpecImpl for MethodFullname {
    open spec fn obeys_eq_spec() -> bool {
        true
    }

    open spec fn eq_spec(&self, other: &Self) -> bool {
        self@ == other@
    }
}

impl PartialEq for ClassFirstname {
    fn eq(&self, other: &Self) -> (r: bool) {
        self.0 == other.0
    }
}

impl vstd::std_specs::cmp::PartialEqSpecImpl for ClassFirstname {
    open spec fn obeys_eq_spec() -> bool {
        true
    }

    open spec fn eq_spec(&self, other: &Self) -> bool {
        self@ == other@
    }
}

impl PartialEq for ConstFirstname {
    fn eq(&self, other: &Self) -> (r: bool) {
        self.0 == other.0
    }
}

impl vstd::std_specs::cmp::PartialEqSpecImpl for ConstFirstname {
    open spec fn obeys_eq_spec() -> bool {
        true
    }

    open spec fn eq_spec(&self, other: &Self) -> bool {
        self@ == other@
    }
}

impl PartialEq for ConstFullname {
    fn eq(&self, other: &Self) -> (r: bool) {
        self.0 == other.0
    }
}

impl vstd::std_specs::cmp::PartialEqSpecImpl for ConstFullname {
    open spec fn obeys_eq_spec() -> bool {
        true
    }

    open spec fn eq_spec(&self, other: &Self) -> bool {
        self@ == other@
    }
}

impl ClassFullname {
    /// Whether this name begins with the `Meta:` prefix.
    pub fn is_meta(&self) -> (r: bool)
        ensures
            r == is_meta_name(self@),
    {
        let s = self.0.as_str();
        let n = s.unicode_len();
        if n < 5 {
            return false;
        }
        let r = s.get_char(0) == 'M' && s.get_char(1) == 'e' && s.get_char(2) == 't'
            && s.get_char(3) == 'a' && s.get_char(4) == ':';
        proof {
            if r {
                assert(self@.subrange(0, 5) =~= meta_prefix());
            } else if is_meta_name(self@) {
                assert(forall|i: int|
                    0 <= i < 5 ==> self@.subrange(0, 5)[i] == self@[i]);
            }
        }
        r
    }

    /// The metaclass name `Meta:` + this name.
    pub fn meta_name(&self) -> (r: ClassFullname)
        ensures
            r@ == meta_name_of(self@),
    {
        let mut s = String::from_str("Meta:");
        proof {
            reveal_strlit("Meta:");
            assert(s@ =~= meta_prefix());
        }
        s.append(self.0.as_str());
        let r = ClassFullname(s);
        proof {
            assert(r@ =~= meta_name_of(self@));
        }
        r
    }
}

impl ClassFirstname {
    /// Qualify this name with a namespace; an empty namespace leaves the
    /// name unchanged.
    pub fn add_namespace(&self, namespace: &str) -> (r: ClassFullname)
        ensures
            r@ == namespaced(namespace@, self@),
    {
        if namespace.unicode_len() == 0 {
            ClassFullname(self.0.clone())
        } else {
            let mut s = String::from_str(namespace);
            s.append("::");
            proof {
                reveal_strlit("::");
                assert(s@ =~= namespace@ + seq![':', ':']);
            }
            s.append(self.0.as_str());
            let r = ClassFullname(s);
            proof {
                assert(r@ =~= namespaced(namespace@, self@));
            }
            r
        }
    }
}

/// Build a method full name `class#method`.
pub fn method_fullname(class_name: &ClassFullname, first_name: &str) -> (r: MethodFullname)
    ensures
        r@ == method_fullname_of(class_name@, first_name@),
{
    let mut s = class_name.0.clone();
    s.append("#");
    proof {
        reveal_strlit("#");
        assert(s@ =~= class_name@ + seq!['#']);
    }
    s.append(first_name);
    let r = MethodFullname(s);
    proof {
        assert(r@ =~= method_fullname_of(class_name@, first_name@));
    }
    r
}

/// Build a constant full name `ns::name`.
pub fn const_fullname(namespace: &str, first_name: &str) -> (r: ConstFullname)
    ensures
        r@ == const_fullname_of(namespace@, first_name@),
{
    let mut s = String::from_str(namespace);
    s.append("::");
    proof {
        reveal_strlit("::");
        assert(s@ =~= namespace@ + seq![':', ':']);
    }
    s.append(first_name);
    let r = ConstFullname(s);
    proof {
        assert(r@ =~= const_fullname_of(namespace@, first_name@));
    }
    r
}

} // verus!
