//! The value model: the tagged union every datum of the language lives in,
//! and the quote type that doubles as "a block of code" and "the contents of
//! a stack".
//!
//! A 64-bit float is carried as its IEEE-754 bit pattern, so that the numeric
//! rules of the language can be stated and checked over plain integers.

use vstd::prelude::*;
use crate::errors::{ErrSpec, RailErr};

verus! {

/// Mathematical model of a value: integers are unbounded, floats are their
/// bit patterns, text is its character sequence, a quote is the sequence of
/// the models of its elements.
pub enum ValSpec {
    Boolean(bool),
    I64(int),
    F64(u64),
    Command(Seq<char>),
    Quote(Seq<ValSpec>),
    String(Seq<char>),
}

/// A runtime value. A `Quote` owns its children outright; nesting is
/// unbounded and cycles are impossible by construction.
#[derive(Debug)]
pub enum RailVal {
    Boolean(bool),
    I64(i64),
    /// IEEE-754 bit pattern of a 64-bit float.
    F64(u64),
    /// A word name, resolved against the dictionary at evaluation time.
    Command(String),
    Quote(Quote),
    String(String),
}

/// An ordered sequence of values: both a code block and a stack.
#[derive(Debug)]
pub struct Quote {
    pub values: Vec<RailVal>,
}

/// The model of a sequence of runtime values, element by element.
pub open spec fn vals_view(s: Seq<RailVal>) -> Seq<ValSpec>
    decreases s,
{
    if s.len() == 0 {
        Seq::empty()
    } else {
        vals_view(s.drop_last()).push(s.last()@)
    }
}

impl View for RailVal {
    type V = ValSpec;

    open spec fn view(&self) -> ValSpec
        decreases self,
    {
        match self {
            RailVal::Boolean(b) => ValSpec::Boolean(*b),
            RailVal::I64(n) => ValSpec::I64(*n as int),
            RailVal::F64(bits) => ValSpec::F64(*bits),
            RailVal::Command(s) => ValSpec::Command(s@),
            RailVal::Quote(q) => ValSpec::Quote(vals_view(q.values@)),
            RailVal::String(s) => ValSpec::String(s@),
        }
    }
}

impl View for Quote {
    type V = Seq<ValSpec>;

    open spec fn view(&self) -> Seq<ValSpec> {
        vals_view(self.values@)
    }
}

pub proof fn lemma_vals_view_index(s: Seq<RailVal>)
    ensures
        vals_view(s).len() == s.len(),
        forall|i: int| 0 <= i < s.len() ==> vals_view(s)[i] == #[trigger] s[i]@,
    decreases s,
{
    if s.len() > 0 {
        lemma_vals_view_index(s.drop_last());
        let vd = vals_view(s.drop_last());
        let last = s.last()@;
        assert(vals_view(s) == vd.push(last));
        assert(vd.push(last).len() == vd.len() + 1);
        assert forall|i: int| 0 <= i < s.len() implies vals_view(s)[i] == #[trigger] s[i]@ by {
            if i < s.len() - 1 {
                assert(vd.push(last)[i] == vd[i]);
                assert(s.drop_last()[i] == s[i]);
            } else {
                assert(vd.push(last)[i] == last);
            }
        }
    }
}

pub proof fn lemma_vals_view_push(s: Seq<RailVal>, v: RailVal)
    ensures
        vals_view(s.push(v)) == vals_view(s).push(v@),
{
    assert(s.push(v).drop_last() =~= s);
    assert(s.push(v).last() == v);
}

pub proof fn lemma_vals_view_pop(s: Seq<RailVal>)
    requires
        s.len() > 0,
    ensures
        vals_view(s).len() == s.len(),
        vals_view(s).last() == s.last()@,
        vals_view(s).drop_last() == vals_view(s.drop_last()),
{
    lemma_vals_view_index(s);
    assert(vals_view(s.drop_last()).push(s.last()@).drop_last() =~= vals_view(s.drop_last()));
}

/// The label under which diagnostics name a value's variant.
pub open spec fn kind_name_of(v: ValSpec) -> Seq<char> {
    match v {
        ValSpec::Boolean(_) => "bool"@,
        ValSpec::I64(_) => "i64"@,
        ValSpec::F64(_) => "f64"@,
        ValSpec::Command(_) => "command"@,
        ValSpec::Quote(_) => "quote"@,
        ValSpec::String(_) => "string"@,
    }
}

impl RailVal {
    pub fn kind_name(&self) -> (r: &'static str)
        ensures
            r@ == kind_name_of(self@),
    {
        match self {
            RailVal::Boolean(_) => "bool",
            RailVal::I64(_) => "i64",
            RailVal::F64(_) => "f64",
            RailVal::Command(_) => "command",
            RailVal::Quote(_) => "quote",
            RailVal::String(_) => "string",
        }
    }
}

impl Quote {
    pub fn new() -> (r: Quote)
        ensures
            r@ == Seq::<ValSpec>::empty(),
    {
        Quote { values: Vec::new() }
    }

    pub fn len(&self) -> (r: usize)
        ensures
            r == self@.len(),
    {
        proof {
            lemma_vals_view_index(self.values@);
        }
        self.values.len()
    }

    pub fn is_empty(&self) -> (r: bool)
        ensures
            r == (self@.len() == 0),
    {
        proof {
            lemma_vals_view_index(self.values@);
        }
        self.values.is_empty()
    }

    pub fn push(self, term: RailVal) -> (r: Quote)
        ensures
            r@ == self@.push(term@),
    {
        let ghost gs = self.values@;
        let ghost gt = term@;
        let mut values = self.values;
        values.push(term);
        proof {
            lemma_vals_view_push(gs, values@.last());
            assert(values@ =~= gs.push(values@.last()));
        }
        Quote { values }
    }

    pub fn push_bool(self, b: bool) -> (r: Quote)
        ensures
            r@ == self@.push(ValSpec::Boolean(b)),
    {
        self.push(RailVal::Boolean(b))
    }

    pub fn push_i64(self, i: i64) -> (r: Quote)
        ensures
            r@ == self@.push(ValSpec::I64(i as int)),
    {
        self.push(RailVal::I64(i))
    }

    /// Pushes a float, given as its IEEE-754 bit pattern.
    pub fn push_f64(self, bits: u64) -> (r: Quote)
        ensures
            r@ == self@.push(ValSpec::F64(bits)),
    {
        self.push(RailVal::F64(bits))
    }

    pub fn push_command(self, op_name: &str) -> (r: Quote)
        ensures
            r@ == self@.push(ValSpec::Command(op_name@)),
    {
        self.push(RailVal::Command(op_name.to_owned()))
    }

    pub fn push_quote(self, quote: Quote) -> (r: Quote)
        ensures
            r@ == self@.push(ValSpec::Quote(quote@)),
    {
        self.push(RailVal::Quote(quote))
    }

    pub fn push_string(self, s: String) -> (r: Quote)
        ensures
            r@ == self@.push(ValSpec::String(s@)),
    {
        self.push(RailVal::String(s))
    }

    pub fn push_str(self, s: &str) -> (r: Quote)
        ensures
            r@ == self@.push(ValSpec::String(s@)),
    {
        self.push(RailVal::String(s.to_owned()))
    }

    /// Removes and returns the last element; underflow if the quote is empty.
    pub fn pop(self) -> (r: Result<(RailVal, Quote), RailErr>)
        ensures
            match r {
                Ok((v, q)) => self@.len() > 0 && v@ == self@.last() && q@ == self@.drop_last(),
                Err(e) => self@.len() == 0 && e@ == underflow_err("pop"@, 0),
            },
    {
        let ghost gs = self.values@;
        let mut values = self.values;
        match values.pop() {
            Some(v) => {
                proof {
                    lemma_vals_view_pop(gs);
                }
                Ok((v, Quote { values }))
            },
            None => {
                proof {
                    lemma_vals_view_index(gs);
                    assert(crate::errors::labels_view(Seq::empty()) =~= Seq::<Seq<char>>::empty());
                }
                Err(RailErr::StackUnderflow {
                    word: "pop".to_owned(),
                    consumes: Vec::new(),
                    produces: Vec::new(),
                    depth: 0,
                })
            },
        }
    }
}

/// The error an empty pop reports: an underflow at the named operation, with
/// no declared signature.
pub open spec fn underflow_err(word: Seq<char>, depth: int) -> ErrSpec {
    ErrSpec::StackUnderflow {
        word: word,
        consumes: Seq::empty(),
        produces: Seq::empty(),
        depth: depth,
    }
}

/// The error a typed pop reports when the top of the stack has the wrong
/// variant.
pub open spec fn mismatch_err(context: Seq<char>, expected: Seq<char>, actual: ValSpec) -> ErrSpec {
    ErrSpec::TypeMismatch { context: context, expected: expected, actual: kind_name_of(actual) }
}

impl Quote {
    /// Removes and returns the last element as a boolean.
    pub fn pop_bool(self, context: &'static str) -> (r: Result<(bool, Quote), RailErr>)
        ensures
            match r {
                Ok((b, q)) => self@.len() > 0 && self@.last() == ValSpec::Boolean(b) && q@
                    == self@.drop_last(),
                Err(e) => if self@.len() == 0 {
                    e@ == underflow_err(context@, 0)
                } else {
                    !(self@.last() is Boolean) && e@ == mismatch_err(context@, "bool"@, self@.last())
                },
            },
    {
        let ghost gs = self@;
        match self.pop_at(context) {
            Ok((v, q)) => match v {
                RailVal::Boolean(b) => Ok((b, q)),
                other => Err(RailErr::TypeMismatch {
                    context,
                    expected: "bool",
                    actual: other.kind_name(),
                }),
            },
            Err(e) => Err(e),
        }
    }

    /// Removes and returns the last element as an integer.
    pub fn pop_i64(self, context: &'static str) -> (r: Result<(i64, Quote), RailErr>)
        ensures
            match r {
                Ok((n, q)) => self@.len() > 0 && self@.last() == ValSpec::I64(n as int) && q@
                    == self@.drop_last(),
                Err(e) => if self@.len() == 0 {
                    e@ == underflow_err(context@, 0)
                } else {
                    !(self@.last() is I64) && e@ == mismatch_err(context@, "i64"@, self@.last())
                },
            },
    {
        match self.pop_at(context) {
            Ok((v, q)) => match v {
                RailVal::I64(n) => Ok((n, q)),
                other => Err(RailErr::TypeMismatch {
                    context,
                    expected: "i64",
                    actual: other.kind_name(),
                }),
            },
            Err(e) => Err(e),
        }
    }

    /// Removes and returns the last element as a float's bit pattern.
    pub fn pop_f64(self, context: &'static str) -> (r: Result<(u64, Quote), RailErr>)
        ensures
            match r {
                Ok((bits, q)) => self@.len() > 0 && self@.last() == ValSpec::F64(bits) && q@
                    == self@.drop_last(),
                Err(e) => if self@.len() == 0 {
                    e@ == underflow_err(context@, 0)
                } else {
                    !(self@.last() is F64) && e@ == mismatch_err(context@, "f64"@, self@.last())
                },
            },
    {
        match self.pop_at(context) {
            Ok((v, q)) => match v {
                RailVal::F64(bits) => Ok((bits, q)),
                other => Err(RailErr::TypeMismatch {
                    context,
                    expected: "f64",
                    actual: other.kind_name(),
                }),
            },
            Err(e) => Err(e),
        }
    }

    /// Removes and returns the last element as a quote.
    pub fn pop_quote(self, context: &'static str) -> (r: Result<(Quote, Quote), RailErr>)
        ensures
            match r {
                Ok((inner, q)) => self@.len() > 0 && self@.last() == ValSpec::Quote(inner@) && q@
                    == self@.drop_last(),
                Err(e) => if self@.len() == 0 {
                    e@ == underflow_err(context@, 0)
                } else {
                    !(self@.last() is Quote) && e@ == mismatch_err(context@, "quote"@, self@.last())
                },
            },
    {
        match self.pop_at(context) {
            Ok((v, q)) => match v {
                RailVal::Quote(inner) => Ok((inner, q)),
                other => Err(RailErr::TypeMismatch {
                    context,
                    expected: "quote",
                    actual: other.kind_name(),
                }),
            },
            Err(e) => Err(e),
        }
    }

    /// Removes and returns the last element as a string.
    pub fn pop_string(self, context: &'static str) -> (r: Result<(String, Quote), RailErr>)
        ensures
            match r {
                Ok((s, q)) => self@.len() > 0 && self@.last() == ValSpec::String(s@) && q@
                    == self@.drop_last(),
                Err(e) => if self@.len() == 0 {
                    e@ == underflow_err(context@, 0)
                } else {
                    !(self@.last() is String) && e@ == mismatch_err(
                        context@,
                        "string"@,
                        self@.last(),
                    )
                },
            },
    {
        match self.pop_at(context) {
            Ok((v, q)) => match v {
                RailVal::String(s) => Ok((s, q)),
                other => Err(RailErr::TypeMismatch {
                    context,
                    expected: "string",
                    actual: other.kind_name(),
                }),
            },
            Err(e) => Err(e),
        }
    }

    /// An untyped pop whose underflow diagnostic names the calling operation.
    pub(crate) fn pop_at(self, context: &'static str) -> (r: Result<(RailVal, Quote), RailErr>)
        ensures
            match r {
                Ok((v, q)) => self@.len() > 0 && v@ == self@.last() && q@ == self@.drop_last(),
                Err(e) => self@.len() == 0 && e@ == underflow_err(context@, 0),
            },
    {
        let ghost gs = self.values@;
        let mut values = self.values;
        match values.pop() {
            Some(v) => {
                proof {
                    lemma_vals_view_pop(gs);
                }
                Ok((v, Quote { values }))
            },
            None => {
                proof {
                    lemma_vals_view_index(gs);
                    assert(crate::errors::labels_view(Seq::empty()) =~= Seq::<Seq<char>>::empty());
                }
                Err(RailErr::StackUnderflow {
                    word: context.to_owned(),
                    consumes: Vec::new(),
                    produces: Vec::new(),
                    depth: 0,
                })
            },
        }
    }
}

} // verus!

verus! {

impl RailVal {
    /// A deep copy with the same model.
    pub fn duplicate(&self) -> (r: RailVal)
        ensures
            r@ == self@,
        decreases *self,
    {
        match self {
            RailVal::Boolean(b) => RailVal::Boolean(*b),
            RailVal::I64(n) => RailVal::I64(*n),
            RailVal::F64(bits) => RailVal::F64(*bits),
            RailVal::Command(s) => RailVal::Command(s.clone()),
            RailVal::Quote(q) => RailVal::Quote(q.duplicate()),
            RailVal::String(s) => RailVal::String(s.clone()),
        }
    }
}

impl Quote {
    /// A deep copy with the same model.
    pub fn duplicate(&self) -> (r: Quote)
        ensures
            r@ == self@,
        decreases *self,
    {
        let n = self.values.len();
        let mut values: Vec<RailVal> = Vec::new();
        let mut i: usize = 0;
        while i < n
            invariant
                i <= n,
                n == self.values@.len(),
                values@.len() == i,
                forall|j: int| 0 <= j < i ==> values@[j]@ == #[trigger] self.values@[j]@,
            decreases n - i,
        {
            values.push(self.values[i].duplicate());
            i = i + 1;
        }
        proof {
            lemma_vals_view_index(values@);
            lemma_vals_view_index(self.values@);
            assert forall|j: int| 0 <= j < n implies vals_view(values@)[j] == vals_view(
                self.values@,
            )[j] by {
                assert(values@[j]@ == self.values@[j]@);
            }
            assert(vals_view(values@) =~= vals_view(self.values@));
        }
        Quote { values }
    }
}

} // verus!

verus! {

impl Quote {
    /// The same elements in reverse order.
    pub fn reversed(self) -> (r: Quote)
        ensures
            r@ == self@.reverse(),
    {
        let n = self.values.len();
        let mut values: Vec<RailVal> = Vec::new();
        let mut i: usize = 0;
        while i < n
            invariant
                i <= n,
                n == self.values@.len(),
                values@.len() == i,
                forall|j: int| 0 <= j < i ==> values@[j]@ == #[trigger] self.values@[n - 1 - j]@,
            decreases n - i,
        {
            values.push(self.values[n - 1 - i].duplicate());
            i = i + 1;
        }
        proof {
            lemma_vals_view_index(values@);
            lemma_vals_view_index(self.values@);
            assert forall|j: int| 0 <= j < n implies vals_view(values@)[j] == vals_view(
                self.values@,
            ).reverse()[j] by {
                assert(values@[j]@ == self.values@[n - 1 - j]@);
            }
            assert(vals_view(values@) =~= vals_view(self.values@).reverse());
        }
        Quote { values }
    }
}

} // verus!
