//! The branching word.

use vstd::prelude::*;
use crate::corelib::native_def;
use crate::defs::{BuiltinOp, RailDef};
use crate::errors::labels_view;

verus! {

/// The `opt` word: pattern-style branching over condition/action pairs.
pub fn builtins() -> (r: Vec<RailDef>)
    ensures
        r@.len() == 1,
        r@[0]@ == native_def("opt"@, seq!["seq"@], Seq::empty(), BuiltinOp::Opt),
{
    let mut consumes: Vec<&'static str> = Vec::new();
    consumes.push("seq");
    proof {
        assert(labels_view(consumes@) =~= seq!["seq"@]);
        assert(labels_view(Seq::empty()) =~= Seq::<Seq<char>>::empty());
    }
    let mut r: Vec<RailDef> = Vec::new();
    r.push(RailDef::on_state("opt", consumes, Vec::new(), BuiltinOp::Opt));
    r
}

} // verus!
