//! Semantic front end of a statically-typed, class-based, Ruby-inspired
//! language: lexing, parsing, class-dictionary construction, HIR lowering
//! and type checking.

pub mod ast;
pub mod class_dict;
pub mod corelib;
pub mod error;
pub mod hir;
pub mod hir_maker;
pub mod lexer;
pub mod names;
pub mod parser;
pub mod token;
pub mod type_checking;
pub mod ty;

use vstd::prelude::*;

verus! {

/// Compile a source text with the bundled core library: parse it, then
/// lower it to a fully typed program. The resulting class table is
/// well-formed: names are unique, every superclass chain ends at
/// `Object`, and every stored signature references existing classes.
pub fn compile(src: &str) -> (r: Result<hir::Hir, error::Error>)
    ensures
        r matches Ok(h) ==> class_dict::wf_classes(h.sk_classes@),
        r matches Ok(h) ==> h.constants@.len() >= 1 && (h.constants@[h.constants@.len() - 1].0@
            == names::const_fullname_of(Seq::<char>::empty(), "Void"@) && ty::is_raw_named(
            h.constants@[h.constants@.len() - 1].1,
            "Void"@,
        )),
        src@.len() == 0 ==> r is Ok,
        src@.len() == 0 ==> (r matches Ok(h) && h.main_exprs.exprs@.len() == 0),
{
    let prog = match parser::Parser::parse(src) {
        Ok(p) => p,
        Err(e) => {
            return Err(e);
        },
    };
    let corelib = corelib::Corelib::create();
    hir_maker::make_hir(&prog, corelib)
}

} // verus!
