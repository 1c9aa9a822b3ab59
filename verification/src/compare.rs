//! Equality and ordering of values, as the language defines them: structural
//! and cross-variant for numerics. An integer and a float compare equal
//! exactly when the float equals the integer's nearest float; ordering
//! between mixed numeric pairs promotes the integer the same way; two quotes
//! are equal when they have the same length and pairwise-equal elements,
//! recursively.

use vstd::prelude::*;
use crate::values::{RailVal, Quote, ValSpec, lemma_vals_view_index};
use crate::numerics::{f_eq_spec, f_lt_spec, f_le_spec, f64_eq, f64_lt, f64_le, to_f64_bits, i64_to_bits};

verus! {

/// Value equality: structural, with integer/float pairs equal when the
/// promoted integer equals the float.
pub open spec fn val_eq_spec(a: ValSpec, b: ValSpec) -> bool
    decreases a,
{
    match (a, b) {
        (ValSpec::Boolean(x), ValSpec::Boolean(y)) => x == y,
        (ValSpec::I64(x), ValSpec::I64(y)) => x == y,
        (ValSpec::I64(x), ValSpec::F64(g)) => f_eq_spec(to_f64_bits(x), g),
        (ValSpec::F64(f), ValSpec::I64(y)) => f_eq_spec(f, to_f64_bits(y)),
        (ValSpec::F64(f), ValSpec::F64(g)) => f_eq_spec(f, g),
        (ValSpec::Command(c), ValSpec::Command(d)) => c == d,
        (ValSpec::String(s), ValSpec::String(t)) => s == t,
        (ValSpec::Quote(x), ValSpec::Quote(y)) => quote_eq_spec(x, y),
        _ => false,
    }
}

/// Quote equality: same length and pairwise-equal elements, taken from the
/// end.
pub open spec fn quote_eq_spec(x: Seq<ValSpec>, y: Seq<ValSpec>) -> bool
    decreases x,
{
    &&& x.len() == y.len()
    &&& (x.len() == 0 || (val_eq_spec(x.last(), y.last()) && quote_eq_spec(
        x.drop_last(),
        y.drop_last(),
    )))
}

/// Quote equality is the same as elementwise equality at every index.
pub proof fn lemma_quote_eq_pointwise(x: Seq<ValSpec>, y: Seq<ValSpec>)
    ensures
        quote_eq_spec(x, y) <==> (x.len() == y.len() && forall|i: int|
            0 <= i < x.len() ==> val_eq_spec(#[trigger] x[i], y[i])),
    decreases x,
{
    if x.len() == y.len() && x.len() > 0 {
        let xs = x.drop_last();
        let ys = y.drop_last();
        lemma_quote_eq_pointwise(xs, ys);
        if quote_eq_spec(x, y) {
            assert forall|i: int| 0 <= i < x.len() implies val_eq_spec(#[trigger] x[i], y[i]) by {
                if i < x.len() - 1 {
                    assert(xs[i] == x[i] && ys[i] == y[i]);
                    assert(val_eq_spec(xs[i], ys[i]));
                } else {
                    assert(x.last() == x[i] && y.last() == y[i]);
                }
            }
        }
        if forall|i: int| 0 <= i < x.len() ==> val_eq_spec(#[trigger] x[i], y[i]) {
            assert forall|i: int| 0 <= i < xs.len() implies val_eq_spec(#[trigger] xs[i], ys[i]) by {
                assert(xs[i] == x[i] && ys[i] == y[i]);
            }
            assert(val_eq_spec(x[x.len() - 1], y[x.len() - 1]));
            assert(x.last() == x[x.len() - 1] && y.last() == y[x.len() - 1]);
            assert(quote_eq_spec(xs, ys));
        }
    }
}

/// True of the two variants the ordering words accept.
pub open spec fn is_numeric(v: ValSpec) -> bool {
    v is I64 || v is F64
}

/// The float pattern a numeric value is compared as: a float is itself, an
/// integer is promoted to its nearest float.
pub open spec fn num_bits(v: ValSpec) -> u64 {
    match v {
        ValSpec::I64(n) => to_f64_bits(n),
        ValSpec::F64(f) => f,
        _ => 0u64,
    }
}

/// Strict numeric order: integer pairs compare as integers, any mixed or
/// float pair compares as floats after promotion.
pub open spec fn num_lt_spec(a: ValSpec, b: ValSpec) -> bool {
    match (a, b) {
        (ValSpec::I64(x), ValSpec::I64(y)) => x < y,
        _ => f_lt_spec(num_bits(a), num_bits(b)),
    }
}

/// Non-strict numeric order, promoted the same way.
pub open spec fn num_le_spec(a: ValSpec, b: ValSpec) -> bool {
    match (a, b) {
        (ValSpec::I64(x), ValSpec::I64(y)) => x <= y,
        _ => f_le_spec(num_bits(a), num_bits(b)),
    }
}

impl RailVal {
    /// Value equality as the language's `==` word computes it.
    pub fn val_eq(&self, other: &RailVal) -> (r: bool)
        ensures
            r == val_eq_spec(self@, other@),
        decreases *self,
    {
        match (self, other) {
            (RailVal::Boolean(x), RailVal::Boolean(y)) => *x == *y,
            (RailVal::I64(x), RailVal::I64(y)) => *x == *y,
            (RailVal::I64(x), RailVal::F64(g)) => f64_eq(i64_to_bits(*x), *g),
            (RailVal::F64(f), RailVal::I64(y)) => f64_eq(*f, i64_to_bits(*y)),
            (RailVal::F64(f), RailVal::F64(g)) => f64_eq(*f, *g),
            (RailVal::Command(c), RailVal::Command(d)) => c.eq(d),
            (RailVal::String(s), RailVal::String(t)) => s.eq(t),
            (RailVal::Quote(x), RailVal::Quote(y)) => x.quote_eq(y),
            _ => false,
        }
    }

    /// Strict numeric order on two numeric values.
    pub fn num_lt(&self, other: &RailVal) -> (r: bool)
        requires
            is_numeric(self@),
            is_numeric(other@),
        ensures
            r == num_lt_spec(self@, other@),
    {
        match (self, other) {
            (RailVal::I64(x), RailVal::I64(y)) => *x < *y,
            _ => f64_lt(self.num_to_bits(), other.num_to_bits()),
        }
    }

    /// Non-strict numeric order on two numeric values.
    pub fn num_le(&self, other: &RailVal) -> (r: bool)
        requires
            is_numeric(self@),
            is_numeric(other@),
        ensures
            r == num_le_spec(self@, other@),
    {
        match (self, other) {
            (RailVal::I64(x), RailVal::I64(y)) => *x <= *y,
            _ => f64_le(self.num_to_bits(), other.num_to_bits()),
        }
    }

    /// The float pattern a numeric value is compared as.
    fn num_to_bits(&self) -> (r: u64)
        requires
            is_numeric(self@),
        ensures
            r == num_bits(self@),
    {
        match self {
            RailVal::I64(n) => i64_to_bits(*n),
            RailVal::F64(f) => *f,
            _ => {
                proof {
                    assert(false);
                }
                0
            },
        }
    }
}

impl Quote {
    /// Elementwise equality of two quotes.
    pub fn quote_eq(&self, other: &Quote) -> (r: bool)
        ensures
            r == quote_eq_spec(self@, other@),
        decreases *self,
    {
        proof {
            lemma_vals_view_index(self.values@);
            lemma_vals_view_index(other.values@);
            lemma_quote_eq_pointwise(self@, other@);
        }
        let n = self.values.len();
        if n != other.values.len() {
            return false;
        }
        let mut i: usize = 0;
        while i < n
            invariant
                n == self.values@.len() && n == other.values@.len(),
                i <= n,
                forall|j: int| 0 <= j < i ==> val_eq_spec(#[trigger] self@[j], other@[j]),
            decreases n - i,
        {
            proof {
                lemma_vals_view_index(self.values@);
                lemma_vals_view_index(other.values@);
            }
            let same = self.values[i].val_eq(&other.values[i]);
            if !same {
                proof {
                    lemma_quote_eq_pointwise(self@, other@);
                }
                return false;
            }
            i = i + 1;
        }
        proof {
            lemma_quote_eq_pointwise(self@, other@);
        }
        true
    }
}

} // verus!

verus! {

impl RailVal {
    /// Whether this value is one of the two numeric variants.
    pub fn is_numeric_val(&self) -> (r: bool)
        ensures
            r == is_numeric(self@),
    {
        match self {
            RailVal::I64(_) => true,
            RailVal::F64(_) => true,
            _ => false,
        }
    }
}

} // verus!
