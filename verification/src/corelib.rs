//! The native word library: each submodule contributes its builtins, and
//! `new_dictionary` seeds a dictionary with all of them.

use vstd::prelude::*;
use crate::defs::{ActionSpec, BuiltinOp, DefSpec, Dictionary};

pub mod choice;
pub mod function;
pub mod logic;

verus! {

/// The model of a native definition.
pub open spec fn native_def(
    name: Seq<char>,
    consumes: Seq<Seq<char>>,
    produces: Seq<Seq<char>>,
    op: BuiltinOp,
) -> DefSpec {
    DefSpec { name, consumes, produces, action: ActionSpec::Builtin(op) }
}

/// Every word the core starts with, under its name.
pub open spec fn initial_dictionary() -> Map<Seq<char>, DefSpec> {
    Map::empty().insert("opt"@, native_def("opt"@, seq!["seq"@], Seq::empty(), BuiltinOp::Opt))
        .insert("do"@, native_def("do"@, seq!["quot"@], seq!["..."@], BuiltinOp::Do)).insert(
        "doin"@,
        native_def("doin"@, seq!["quot"@, "quot"@], seq!["quot"@], BuiltinOp::Doin),
    ).insert("def"@, native_def("def"@, seq!["quot"@, "s"@], Seq::empty(), BuiltinOp::Def)).insert(
        "def?"@,
        native_def("def?"@, seq!["s"@], seq!["bool"@], BuiltinOp::DefQuery),
    ).insert("undef"@, native_def("undef"@, seq!["s"@], Seq::empty(), BuiltinOp::Undef)).insert(
        "=="@,
        native_def("=="@, seq!["a"@, "b"@], seq!["bool"@], BuiltinOp::Equal),
    ).insert("!="@, native_def("!="@, seq!["a"@, "b"@], seq!["bool"@], BuiltinOp::NotEqual)).insert(
        "<"@,
        native_def("<"@, seq!["a"@, "b"@], seq!["bool"@], BuiltinOp::Less),
    ).insert("<="@, native_def("<="@, seq!["a"@, "b"@], seq!["bool"@], BuiltinOp::LessEq)).insert(
        ">"@,
        native_def(">"@, seq!["a"@, "b"@], seq!["bool"@], BuiltinOp::Greater),
    ).insert(">="@, native_def(">="@, seq!["a"@, "b"@], seq!["bool"@], BuiltinOp::GreaterEq)).insert(
        "not"@,
        native_def("not"@, seq!["bool"@], seq!["bool"@], BuiltinOp::Not),
    )
}

/// A dictionary holding every builtin.
pub fn new_dictionary() -> (r: Dictionary)
    ensures
        r@ == initial_dictionary(),
{
    let mut d = Dictionary::new();
    let mut v = choice::builtins();
    d = d.insert_def(v.remove(0));
    let mut v = function::builtins();
    d = d.insert_def(v.remove(0));
    d = d.insert_def(v.remove(0));
    d = d.insert_def(v.remove(0));
    d = d.insert_def(v.remove(0));
    d = d.insert_def(v.remove(0));
    let mut v = logic::builtins();
    d = d.insert_def(v.remove(0));
    d = d.insert_def(v.remove(0));
    d = d.insert_def(v.remove(0));
    d = d.insert_def(v.remove(0));
    d = d.insert_def(v.remove(0));
    d = d.insert_def(v.remove(0));
    d = d.insert_def(v.remove(0));
    d
}

} // verus!
