//! The equality, ordering and boolean words of the value model.

use vstd::prelude::*;
use crate::corelib::native_def;
use crate::defs::{BuiltinOp, RailDef};
use crate::errors::labels_view;

verus! {

/// One type-name label as a singleton list.
fn one_label(l: &'static str) -> (r: Vec<&'static str>)
    ensures
        labels_view(r@) == seq![l@],
{
    let mut v: Vec<&'static str> = Vec::new();
    v.push(l);
    proof {
        assert(labels_view(v@) =~= seq![l@]);
    }
    v
}

/// Two type-name labels.
fn two_labels(a: &'static str, b: &'static str) -> (r: Vec<&'static str>)
    ensures
        labels_view(r@) == seq![a@, b@],
{
    let mut v: Vec<&'static str> = Vec::new();
    v.push(a);
    v.push(b);
    proof {
        assert(labels_view(v@) =~= seq![a@, b@]);
    }
    v
}

/// `==`, `!=`, the four ordering words, and `not`.
pub fn builtins() -> (r: Vec<RailDef>)
    ensures
        r@.len() == 7,
        r@[0]@ == native_def("=="@, seq!["a"@, "b"@], seq!["bool"@], BuiltinOp::Equal),
        r@[1]@ == native_def("!="@, seq!["a"@, "b"@], seq!["bool"@], BuiltinOp::NotEqual),
        r@[2]@ == native_def("<"@, seq!["a"@, "b"@], seq!["bool"@], BuiltinOp::Less),
        r@[3]@ == native_def("<="@, seq!["a"@, "b"@], seq!["bool"@], BuiltinOp::LessEq),
        r@[4]@ == native_def(">"@, seq!["a"@, "b"@], seq!["bool"@], BuiltinOp::Greater),
        r@[5]@ == native_def(">="@, seq!["a"@, "b"@], seq!["bool"@], BuiltinOp::GreaterEq),
        r@[6]@ == native_def("not"@, seq!["bool"@], seq!["bool"@], BuiltinOp::Not),
{
    let mut r: Vec<RailDef> = Vec::new();
    r.push(RailDef::on_state("==", two_labels("a", "b"), one_label("bool"), BuiltinOp::Equal));
    r.push(RailDef::on_state("!=", two_labels("a", "b"), one_label("bool"), BuiltinOp::NotEqual));
    r.push(RailDef::on_state("<", two_labels("a", "b"), one_label("bool"), BuiltinOp::Less));
    r.push(RailDef::on_state("<=", two_labels("a", "b"), one_label("bool"), BuiltinOp::LessEq));
    r.push(RailDef::on_state(">", two_labels("a", "b"), one_label("bool"), BuiltinOp::Greater));
    r.push(RailDef::on_state(">=", two_labels("a", "b"), one_label("bool"), BuiltinOp::GreaterEq));
    r.push(RailDef::on_state("not", one_label("bool"), one_label("bool"), BuiltinOp::Not));
    r
}

} // verus!
