//! The function and dictionary words: inline calls, isolated calls, and
//! dynamic (re)definition.

use vstd::prelude::*;
use crate::corelib::native_def;
use crate::defs::{BuiltinOp, RailDef};
use crate::errors::labels_view;

verus! {

/// One type-name label as a singleton list.
fn one_label(l: &'static str) -> (r: Vec<&'static str>)
    ensures
        labels_view(r@) == seq![l@],
{
    let mut v: Vec<&'static str> = Vec::new();
    v.push(l);
    proof {
        assert(labels_view(v@) =~= seq![l@]);
    }
    v
}

/// Two type-name labels.
fn two_labels(a: &'static str, b: &'static str) -> (r: Vec<&'static str>)
    ensures
        labels_view(r@) == seq![a@, b@],
{
    let mut v: Vec<&'static str> = Vec::new();
    v.push(a);
    v.push(b);
    proof {
        assert(labels_view(v@) =~= seq![a@, b@]);
    }
    v
}

/// `do`, `doin`, `def`, `def?` and `undef`.
pub fn builtins() -> (r: Vec<RailDef>)
    ensures
        r@.len() == 5,
        r@[0]@ == native_def("do"@, seq!["quot"@], seq!["..."@], BuiltinOp::Do),
        r@[1]@ == native_def("doin"@, seq!["quot"@, "quot"@], seq!["quot"@], BuiltinOp::Doin),
        r@[2]@ == native_def("def"@, seq!["quot"@, "s"@], Seq::empty(), BuiltinOp::Def),
        r@[3]@ == native_def("def?"@, seq!["s"@], seq!["bool"@], BuiltinOp::DefQuery),
        r@[4]@ == native_def("undef"@, seq!["s"@], Seq::empty(), BuiltinOp::Undef),
{
    proof {
        assert(labels_view(Seq::empty()) =~= Seq::<Seq<char>>::empty());
    }
    let mut r: Vec<RailDef> = Vec::new();
    r.push(RailDef::on_state("do", one_label("quot"), one_label("..."), BuiltinOp::Do));
    r.push(
        RailDef::on_state("doin", two_labels("quot", "quot"), one_label("quot"), BuiltinOp::Doin),
    );
    r.push(RailDef::on_state("def", two_labels("quot", "s"), Vec::new(), BuiltinOp::Def));
    r.push(RailDef::on_state("def?", one_label("s"), one_label("bool"), BuiltinOp::DefQuery));
    r.push(RailDef::on_state("undef", one_label("s"), Vec::new(), BuiltinOp::Undef));
    r
}

} // verus!
