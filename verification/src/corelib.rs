//! The bundled core library: pre-built classes (with their metaclasses)
//! merged into the class dictionary before user code, and methods whose
//! code the runtime provides.

use vstd::prelude::*;
use crate::class_dict::{
    ClassDict, MethodParam, MethodSignature, SkClass, has_class_name, object_name,
};
use crate::hir::{SkMethod, SkMethodBody};
use crate::names::{ClassFullname, MethodFirstname, meta_name_of, method_fullname};
use crate::ty;

verus! {

/// A caller-supplied core library: classes added to the dictionary
/// before user parsing, and methods appended after user lowering.
#[derive(Debug)]
pub struct Corelib {
    pub sk_classes: ClassDict,
    pub sk_methods: Vec<SkMethod>,
}

/// Register a class named `name` under `Object`, and its metaclass under
/// `Meta:Object`.
fn add_class_pair(dict: &mut ClassDict, name: &str, const_is_obj: bool)
    requires
        old(dict).wf(),
        !has_class_name(old(dict).sk_classes@, name@),
        !has_class_name(old(dict).sk_classes@, meta_name_of(name@)),
        name@ != object_name(),
        has_class_name(old(dict).sk_classes@, object_name()),
        has_class_name(old(dict).sk_classes@, meta_name_of(object_name())),
    ensures
        final(dict).wf(),
        forall|n: Seq<char>|
            has_class_name(old(dict).sk_classes@, n) ==> has_class_name(final(dict).sk_classes@, n),
        has_class_name(final(dict).sk_classes@, name@),
        has_class_name(final(dict).sk_classes@, meta_name_of(name@)),
        final(dict).sk_classes@.len() == old(dict).sk_classes@.len() + 2,
        forall|j: int|
            0 <= j < old(dict).sk_classes@.len() ==> final(dict).sk_classes@[j] == old(
                dict,
            ).sk_classes@[j],
        final(dict).sk_classes@[old(dict).sk_classes@.len() as int].fullname@ == name@,
        final(dict).sk_classes@[old(dict).sk_classes@.len() as int + 1].fullname@ == meta_name_of(name@),
{
    let fullname = ClassFullname(name.to_owned());
    let superclass = ClassFullname(String::from_str("Object"));
    proof {
        reveal_strlit("Object");
        assert(superclass@ =~= object_name());
    }
    let meta = fullname.meta_name();
    let meta_super = superclass.meta_name();
    let ghost before = dict.sk_classes@;
    dict.add_class(
        SkClass {
            fullname,
            superclass_fullname: Some(superclass),
            method_sigs: Vec::new(),
            ivars: Vec::new(),
            const_is_obj,
        },
    );
    proof {
        if has_class_name(dict.sk_classes@, meta@) {
            let j = choose|j: int|
                0 <= j < dict.sk_classes@.len() && dict.sk_classes@[j].fullname@ == meta@;
            if j < before.len() {
                assert(has_class_name(before, meta@));
            }
            assert(false);
        }
        assert(meta@[0] == 'M');
        assert(meta@ != object_name());
    }
    dict.add_class(
        SkClass {
            fullname: meta,
            superclass_fullname: Some(meta_super),
            method_sigs: Vec::new(),
            ivars: Vec::new(),
            const_is_obj: false,
        },
    );
}

/// A resolved binary-operator signature `owner#op(other: OperandTy) -> RetTy`.
fn binop_sig(owner: &ClassFullname, op: &str, operand: &str, ret: &str) -> (s: MethodSignature)
    ensures
        s.first_name@ == op@,
        s.fullname@ == crate::names::method_fullname_of(owner@, op@),
        crate::ty::is_raw_named(s.ret_ty, ret@),
        s.params@.len() == 1 && crate::ty::is_raw_named(s.params@[0].ty, operand@),
{
    let mut params: Vec<MethodParam> = Vec::new();
    params.push(MethodParam { name: String::from_str("other"), ty: ty::raw(operand) });
    MethodSignature {
        fullname: method_fullname(owner, op),
        first_name: MethodFirstname(op.to_owned()),
        ret_ty: ty::raw(ret),
        params,
    }
}

impl Corelib {
    /// The bundled core library: `Object`, `Int`, `Float`, `Bool`,
    /// `String` and `Void`, their metaclasses, and the arithmetic and
    /// comparison methods of the numeric classes (runtime-provided).
    pub fn create() -> (r: Corelib)
        ensures
            r.sk_classes.wf(),
            has_class_name(r.sk_classes.sk_classes@, object_name()),
            has_class_name(r.sk_classes.sk_classes@, "Void"@),
            has_class_name(r.sk_classes.sk_classes@, "Int"@),
            has_class_name(r.sk_classes.sk_classes@, "Float"@),
            has_class_name(r.sk_classes.sk_classes@, "Bool"@),
            has_class_name(r.sk_classes.sk_classes@, "String"@),
            has_class_name(r.sk_classes.sk_classes@, meta_name_of("Int"@)),
            has_class_name(r.sk_classes.sk_classes@, meta_name_of("Float"@)),
            has_class_name(r.sk_classes.sk_classes@, meta_name_of("Bool"@)),
            has_class_name(r.sk_classes.sk_classes@, meta_name_of("String"@)),
    {
        let mut dict = register_core_classes();
        let methods = add_core_methods(&mut dict);
        Corelib { sk_classes: dict, sk_methods: methods }
    }
}

/// The core classes and their metaclasses, `Object` first.
fn register_core_classes() -> (dict: ClassDict)
    ensures
        dict.wf(),
        has_class_name(dict.sk_classes@, object_name()),
        has_class_name(dict.sk_classes@, "Void"@),
        has_class_name(dict.sk_classes@, "Int"@),
        has_class_name(dict.sk_classes@, "Float"@),
        has_class_name(dict.sk_classes@, "Bool"@),
        has_class_name(dict.sk_classes@, "String"@),
        has_class_name(dict.sk_classes@, meta_name_of("Int"@)),
        has_class_name(dict.sk_classes@, meta_name_of("Float"@)),
        has_class_name(dict.sk_classes@, meta_name_of("Bool"@)),
        has_class_name(dict.sk_classes@, meta_name_of("String"@)),
{
    let mut dict = ClassDict::empty();
    let object = ClassFullname(String::from_str("Object"));
    proof {
        reveal_strlit("Object");
        assert(object@ =~= object_name());
    }
    let meta_object = object.meta_name();
    dict.add_class(
        SkClass {
            fullname: object,
            superclass_fullname: None,
            method_sigs: Vec::new(),
            ivars: Vec::new(),
            const_is_obj: false,
        },
    );
    proof {
        assert(meta_object@[0] == 'M');
        assert(meta_object@ != object_name());
        if has_class_name(dict.sk_classes@, meta_object@) {
            assert(dict.sk_classes@[0].fullname@ == object_name());
            assert(false);
        }
    }
    let object_again = ClassFullname(String::from_str("Object"));
    proof {
        reveal_strlit("Object");
        assert(object_again@ =~= object_name());
    }
    dict.add_class(
        SkClass {
            fullname: meta_object,
            superclass_fullname: Some(object_again),
            method_sigs: Vec::new(),
            ivars: Vec::new(),
            const_is_obj: false,
        },
    );
    proof {
        reveal_strlit("Void");
        reveal_strlit("Int");
        reveal_strlit("Float");
        reveal_strlit("Bool");
        reveal_strlit("String");
    }
    proof {
        assert(dict.sk_classes@.len() == 2);
        assert(dict.sk_classes@[0].fullname@ == object_name());
        assert(dict.sk_classes@[1].fullname@ == meta_name_of(object_name()));
        assert(!has_class_name(dict.sk_classes@, "Void"@)) by {
            if has_class_name(dict.sk_classes@, "Void"@) {
                let i = choose|i: int|
                    0 <= i < dict.sk_classes@.len() && dict.sk_classes@[i].fullname@ == "Void"@;
                assert(false);
            }
        }
        assert(!has_class_name(dict.sk_classes@, meta_name_of("Void"@))) by {
            if has_class_name(dict.sk_classes@, meta_name_of("Void"@)) {
                let i = choose|i: int|
                    0 <= i < dict.sk_classes@.len() && dict.sk_classes@[i].fullname@ == meta_name_of("Void"@);
                assert(false);
            }
        }
    }
    add_class_pair(&mut dict, "Void", true);
    proof {
        reveal_strlit("Object");
        reveal_strlit("Void");
        reveal_strlit("Int");
        assert(dict.sk_classes@.len() == 4);
        assert(dict.sk_classes@[2].fullname@ == "Void"@);
        assert(dict.sk_classes@[3].fullname@ == meta_name_of("Void"@));
        assert(!has_class_name(dict.sk_classes@, "Int"@)) by {
            if has_class_name(dict.sk_classes@, "Int"@) {
                let i = choose|i: int|
                    0 <= i < dict.sk_classes@.len() && dict.sk_classes@[i].fullname@ == "Int"@;
                assert(false);
            }
        }
        assert(!has_class_name(dict.sk_classes@, meta_name_of("Int"@))) by {
            if has_class_name(dict.sk_classes@, meta_name_of("Int"@)) {
                let i = choose|i: int|
                    0 <= i < dict.sk_classes@.len() && dict.sk_classes@[i].fullname@ == meta_name_of("Int"@);
                assert(false);
            }
        }
    }
    add_class_pair(&mut dict, "Int", false);
    proof {
        reveal_strlit("Object");
        reveal_strlit("Void");
        reveal_strlit("Int");
        reveal_strlit("Float");
        assert(dict.sk_classes@.len() == 6);
        assert(dict.sk_classes@[4].fullname@ == "Int"@);
        assert(dict.sk_classes@[5].fullname@ == meta_name_of("Int"@));
        assert(!has_class_name(dict.sk_classes@, "Float"@)) by {
            if has_class_name(dict.sk_classes@, "Float"@) {
                let i = choose|i: int|
                    0 <= i < dict.sk_classes@.len() && dict.sk_classes@[i].fullname@ == "Float"@;
                assert(false);
            }
        }
        assert(!has_class_name(dict.sk_classes@, meta_name_of("Float"@))) by {
            if has_class_name(dict.sk_classes@, meta_name_of("Float"@)) {
                let i = choose|i: int|
                    0 <= i < dict.sk_classes@.len() && dict.sk_classes@[i].fullname@ == meta_name_of("Float"@);
                assert(false);
            }
        }
    }
    add_class_pair(&mut dict, "Float", false);
    proof {
        reveal_strlit("Object");
        reveal_strlit("Void");
        reveal_strlit("Int");
        reveal_strlit("Float");
        reveal_strlit("Bool");
        assert(dict.sk_classes@.len() == 8);
        assert(dict.sk_classes@[6].fullname@ == "Float"@);
        assert(dict.sk_classes@[7].fullname@ == meta_name_of("Float"@));
        assert("Bool"@[0] != "Void"@[0]);
        assert(meta_name_of("Bool"@)[5] == 'B' && meta_name_of("Void"@)[5] == 'V');
        assert(!has_class_name(dict.sk_classes@, "Bool"@)) by {
            if has_class_name(dict.sk_classes@, "Bool"@) {
                let i = choose|i: int|
                    0 <= i < dict.sk_classes@.len() && dict.sk_classes@[i].fullname@ == "Bool"@;
                assert(false);
            }
        }
        assert(!has_class_name(dict.sk_classes@, meta_name_of("Bool"@))) by {
            if has_class_name(dict.sk_classes@, meta_name_of("Bool"@)) {
                let i = choose|i: int|
                    0 <= i < dict.sk_classes@.len() && dict.sk_classes@[i].fullname@ == meta_name_of("Bool"@);
                assert(false);
            }
        }
    }
    add_class_pair(&mut dict, "Bool", false);
    proof {
        reveal_strlit("Object");
        reveal_strlit("Void");
        reveal_strlit("Int");
        reveal_strlit("Float");
        reveal_strlit("Bool");
        reveal_strlit("String");
        assert(dict.sk_classes@.len() == 10);
        assert(dict.sk_classes@[8].fullname@ == "Bool"@);
        assert(dict.sk_classes@[9].fullname@ == meta_name_of("Bool"@));
        assert("String"@[0] != object_name()[0]);
        assert(meta_name_of("String"@)[5] == 'S' && meta_name_of(object_name())[5] == 'O');
        assert(!has_class_name(dict.sk_classes@, "String"@)) by {
            if has_class_name(dict.sk_classes@, "String"@) {
                let i = choose|i: int|
                    0 <= i < dict.sk_classes@.len() && dict.sk_classes@[i].fullname@ == "String"@;
                assert(false);
            }
        }
        assert(!has_class_name(dict.sk_classes@, meta_name_of("String"@))) by {
            if has_class_name(dict.sk_classes@, meta_name_of("String"@)) {
                let i = choose|i: int|
                    0 <= i < dict.sk_classes@.len() && dict.sk_classes@[i].fullname@ == meta_name_of("String"@);
                assert(false);
            }
        }
    }
    add_class_pair(&mut dict, "String", false);
    dict
}

/// Enter one runtime-provided binary operator `owner#op` into the
/// dictionary and the method list, if the three classes involved exist.
fn add_binop(
    dict: &mut ClassDict,
    methods: &mut Vec<SkMethod>,
    owner_lit: &str,
    op: &str,
    operand: &str,
    ret: &str,
)
    requires
        old(dict).wf(),
    ensures
        final(dict).wf(),
        forall|n: Seq<char>|
            has_class_name(old(dict).sk_classes@, n) == has_class_name(final(dict).sk_classes@, n),
{
    if dict.class_exists(owner_lit) && dict.class_exists(operand) && dict.class_exists(ret) {
        let owner = ClassFullname(owner_lit.to_owned());
        let s = binop_sig(&owner, op, operand, ret);
        proof {
            assert(crate::class_dict::ty_exists(dict.sk_classes@, s.ret_ty));
            assert(crate::class_dict::ty_exists(dict.sk_classes@, s.params@[0].ty));
        }
        dict.add_method_sig(&owner, s.clone());
        methods.push(SkMethod { signature: s, body: SkMethodBody::RustMethodBody });
    }
}

/// The runtime-provided methods of the numeric classes, with their
/// signatures entered into the dictionary.
fn add_core_methods(dict: &mut ClassDict) -> (methods: Vec<SkMethod>)
    requires
        old(dict).wf(),
    ensures
        final(dict).wf(),
        forall|n: Seq<char>|
            has_class_name(old(dict).sk_classes@, n) ==> has_class_name(final(dict).sk_classes@, n),
{
    let mut methods: Vec<SkMethod> = Vec::new();
    // the default initializer every `.new` can fall back to
    if dict.class_exists("Object") && dict.class_exists("Void") {
        let object_cls = ClassFullname(String::from_str("Object"));
        let init_sig = MethodSignature {
            fullname: method_fullname(&object_cls, "initialize"),
            first_name: MethodFirstname(String::from_str("initialize")),
            ret_ty: ty::raw("Void"),
            params: Vec::new(),
        };
        proof {
            reveal_strlit("Object");
        }
        dict.add_method_sig(&object_cls, init_sig.clone());
        methods.push(SkMethod { signature: init_sig, body: SkMethodBody::RustMethodBody });
    }
    add_binop(dict, &mut methods, "Int", "+", "Int", "Int");
    add_binop(dict, &mut methods, "Int", "-", "Int", "Int");
    add_binop(dict, &mut methods, "Int", "*", "Int", "Int");
    add_binop(dict, &mut methods, "Int", "<", "Int", "Bool");
    add_binop(dict, &mut methods, "Int", "==", "Int", "Bool");
    add_binop(dict, &mut methods, "Float", "+", "Float", "Float");
    methods
}

} // verus!
