//! The big-step semantics of the evaluator, indexed by a step budget. Every
//! nested run of a quotation (a user word's body, `do`, `doin`, and each
//! condition or action of `opt`) spends one step; with the budget gone the
//! outcome is `Spin` rather than a state, so the semantics is a total
//! function while a non-terminating program is still representable.

use vstd::prelude::*;
use vstd::seq_lib::*;
use crate::compare::{is_numeric, num_le_spec, num_lt_spec, val_eq_spec};
use crate::defs::{ActionSpec, BuiltinOp, DefSpec};
use crate::errors::{ErrSpec, RailErr};
use crate::rail_machine::{CtxSpec, RailState, StateSpec};
use crate::values::{mismatch_err, underflow_err, ValSpec};

verus! {

/// What a run comes to: a final state, a fatal error, or an exhausted step
/// budget.
pub enum OutcomeSpec {
    Done(StateSpec),
    Fault(ErrSpec),
    Spin,
}

/// How an evaluator result reads as an outcome.
pub open spec fn res_view(r: Result<RailState, RailErr>) -> OutcomeSpec {
    match r {
        Ok(st) => OutcomeSpec::Done(st@),
        Err(e) => match e@ {
            ErrSpec::OutOfSteps => OutcomeSpec::Spin,
            err => OutcomeSpec::Fault(err),
        },
    }
}

/// Popping the last value; an underflow names the operation.
pub open spec fn pop_any_s(stack: Seq<ValSpec>, ctx: Seq<char>) -> Result<
    (ValSpec, Seq<ValSpec>),
    ErrSpec,
> {
    if stack.len() == 0 {
        Err(underflow_err(ctx, 0))
    } else {
        Ok((stack.last(), stack.drop_last()))
    }
}

/// Popping the last value as a quote.
pub open spec fn pop_quote_s(stack: Seq<ValSpec>, ctx: Seq<char>) -> Result<
    (Seq<ValSpec>, Seq<ValSpec>),
    ErrSpec,
> {
    match pop_any_s(stack, ctx) {
        Err(e) => Err(e),
        Ok((v, rest)) => match v {
            ValSpec::Quote(q) => Ok((q, rest)),
            _ => Err(mismatch_err(ctx, "quote"@, v)),
        },
    }
}

/// Popping the last value as a boolean.
pub open spec fn pop_bool_s(stack: Seq<ValSpec>, ctx: Seq<char>) -> Result<
    (bool, Seq<ValSpec>),
    ErrSpec,
> {
    match pop_any_s(stack, ctx) {
        Err(e) => Err(e),
        Ok((v, rest)) => match v {
            ValSpec::Boolean(b) => Ok((b, rest)),
            _ => Err(mismatch_err(ctx, "bool"@, v)),
        },
    }
}

/// Popping the last value as a string.
pub open spec fn pop_string_s(stack: Seq<ValSpec>, ctx: Seq<char>) -> Result<
    (Seq<char>, Seq<ValSpec>),
    ErrSpec,
> {
    match pop_any_s(stack, ctx) {
        Err(e) => Err(e),
        Ok((v, rest)) => match v {
            ValSpec::String(t) => Ok((t, rest)),
            _ => Err(mismatch_err(ctx, "string"@, v)),
        },
    }
}

/// Folds a quote's elements over a state, left to right.
pub open spec fn run_seq_spec(q: Seq<ValSpec>, s: StateSpec, fuel: nat) -> OutcomeSpec
    decreases fuel, 3int, q.len(), 0int,
{
    if q.len() == 0 {
        OutcomeSpec::Done(s)
    } else {
        match run_val_spec(q[0], s, fuel) {
            OutcomeSpec::Done(s1) => run_seq_spec(q.skip(1), s1, fuel),
            o => o,
        }
    }
}

/// One element: a command is resolved and invoked, anything else is pushed
/// as a literal.
pub open spec fn run_val_spec(v: ValSpec, s: StateSpec, fuel: nat) -> OutcomeSpec
    decreases fuel, 2int, 0int, 0int,
{
    match v {
        ValSpec::Command(w) => if s.dictionary.contains_key(w) {
            apply_def_spec(s.dictionary[w], s, fuel)
        } else {
            OutcomeSpec::Fault(ErrSpec::UnknownWord { word: w })
        },
        _ => OutcomeSpec::Done(StateSpec { stack: s.stack.push(v), ..s }),
    }
}

/// Invoking a definition: the declared `consumes` arity is checked against
/// the live stack first, then the action runs.
pub open spec fn apply_def_spec(d: DefSpec, s: StateSpec, fuel: nat) -> OutcomeSpec
    decreases fuel, 1int, 0int, 0int,
{
    if s.stack.len() < d.consumes.len() {
        OutcomeSpec::Fault(
            ErrSpec::StackUnderflow {
                word: d.name,
                consumes: d.consumes,
                produces: d.produces,
                depth: s.stack.len() as int,
            },
        )
    } else {
        match d.action {
            ActionSpec::Quotation(body) => if fuel == 0 {
                OutcomeSpec::Spin
            } else {
                run_seq_spec(body, s, (fuel - 1) as nat)
            },
            ActionSpec::Builtin(op) => builtin_spec(op, s, fuel),
        }
    }
}

/// `==` / `!=`: two values popped, their (possibly negated) equality pushed.
pub open spec fn eq_step_spec(s: StateSpec, ctx: Seq<char>, negate: bool) -> OutcomeSpec {
    match pop_any_s(s.stack, ctx) {
        Err(e) => OutcomeSpec::Fault(e),
        Ok((b, rest)) => match pop_any_s(rest, ctx) {
            Err(e) => OutcomeSpec::Fault(e),
            Ok((a, rest2)) => OutcomeSpec::Done(
                StateSpec { stack: rest2.push(ValSpec::Boolean(val_eq_spec(a, b) != negate)), ..s },
            ),
        },
    }
}

/// The four ordering words: both operands must be numeric; integer pairs
/// compare as integers, any other pair after promotion to floats.
pub open spec fn ord_step_spec(s: StateSpec, ctx: Seq<char>, strict: bool, flip: bool) -> OutcomeSpec {
    match pop_any_s(s.stack, ctx) {
        Err(e) => OutcomeSpec::Fault(e),
        Ok((b, rest)) => match pop_any_s(rest, ctx) {
            Err(e) => OutcomeSpec::Fault(e),
            Ok((a, rest2)) => if !is_numeric(b) {
                OutcomeSpec::Fault(mismatch_err(ctx, "i64 or f64"@, b))
            } else if !is_numeric(a) {
                OutcomeSpec::Fault(mismatch_err(ctx, "i64 or f64"@, a))
            } else {
                let x = if flip {
                    b
                } else {
                    a
                };
                let y = if flip {
                    a
                } else {
                    b
                };
                OutcomeSpec::Done(
                    StateSpec {
                        stack: rest2.push(
                            ValSpec::Boolean(
                                if strict {
                                    num_lt_spec(x, y)
                                } else {
                                    num_le_spec(x, y)
                                },
                            ),
                        ),
                        ..s
                    },
                )
            },
        },
    }
}

/// One native builtin against a state.
pub open spec fn builtin_spec(op: BuiltinOp, s: StateSpec, fuel: nat) -> OutcomeSpec
    decreases fuel, 0int, 1int, 0int,
{
    match op {
        BuiltinOp::Do => match pop_quote_s(s.stack, "do"@) {
            Err(e) => OutcomeSpec::Fault(e),
            Ok((body, rest)) => if fuel == 0 {
                OutcomeSpec::Spin
            } else {
                run_seq_spec(body, StateSpec { stack: rest, ..s }, (fuel - 1) as nat)
            },
        },
        BuiltinOp::Doin => match pop_quote_s(s.stack, "call-in"@) {
            Err(e) => OutcomeSpec::Fault(e),
            Ok((body, rest)) => match pop_quote_s(rest, "call-in"@) {
                Err(e) => OutcomeSpec::Fault(e),
                Ok((working, rest2)) => if fuel == 0 {
                    OutcomeSpec::Spin
                } else {
                    match run_seq_spec(
                        body,
                        StateSpec {
                            stack: working,
                            dictionary: s.dictionary,
                            context: CtxSpec::Detached,
                        },
                        (fuel - 1) as nat,
                    ) {
                        OutcomeSpec::Done(sub) => OutcomeSpec::Done(
                            StateSpec { stack: rest2.push(ValSpec::Quote(sub.stack)), ..s },
                        ),
                        o => o,
                    }
                },
            },
        },
        BuiltinOp::Def => match pop_string_s(s.stack, "def"@) {
            Err(e) => OutcomeSpec::Fault(e),
            Ok((name, rest)) => match pop_quote_s(rest, "def"@) {
                Err(e) => OutcomeSpec::Fault(e),
                Ok((body, rest2)) => OutcomeSpec::Done(
                    StateSpec {
                        stack: rest2,
                        dictionary: s.dictionary.insert(
                            name,
                            DefSpec {
                                name: name,
                                consumes: Seq::empty(),
                                produces: Seq::empty(),
                                action: ActionSpec::Quotation(body),
                            },
                        ),
                        ..s
                    },
                ),
            },
        },
        BuiltinOp::DefQuery => match pop_string_s(s.stack, "def?"@) {
            Err(e) => OutcomeSpec::Fault(e),
            Ok((name, rest)) => OutcomeSpec::Done(
                StateSpec {
                    stack: rest.push(ValSpec::Boolean(s.dictionary.contains_key(name))),
                    ..s
                },
            ),
        },
        BuiltinOp::Undef => match pop_string_s(s.stack, "undef"@) {
            Err(e) => OutcomeSpec::Fault(e),
            Ok((name, rest)) => if s.dictionary.contains_key(name) {
                OutcomeSpec::Done(
                    StateSpec { stack: rest, dictionary: s.dictionary.remove(name), ..s },
                )
            } else {
                OutcomeSpec::Fault(ErrSpec::UnknownUndefineTarget { word: name })
            },
        },
        BuiltinOp::Equal => eq_step_spec(s, "=="@, false),
        BuiltinOp::NotEqual => eq_step_spec(s, "!="@, true),
        BuiltinOp::Less => ord_step_spec(s, "<"@, true, false),
        BuiltinOp::LessEq => ord_step_spec(s, "<="@, false, false),
        BuiltinOp::Greater => ord_step_spec(s, ">"@, true, true),
        BuiltinOp::GreaterEq => ord_step_spec(s, ">="@, false, true),
        BuiltinOp::Not => match pop_bool_s(s.stack, "not"@) {
            Err(e) => OutcomeSpec::Fault(e),
            Ok((b, rest)) => OutcomeSpec::Done(
                StateSpec { stack: rest.push(ValSpec::Boolean(!b)), ..s },
            ),
        },
        BuiltinOp::Opt => match pop_quote_s(s.stack, "opt"@) {
            Err(e) => OutcomeSpec::Fault(e),
            Ok((options, rest)) => opt_loop_spec(
                options.reverse(),
                StateSpec { stack: rest, ..s },
                fuel,
            ),
        },
    }
}

/// `opt`'s walk over its reversed condition/action pairs: each condition
/// runs against the current state; the first true one has its action run and
/// the walk stops; with no true condition the state passes through.
pub open spec fn opt_loop_spec(opts: Seq<ValSpec>, s: StateSpec, fuel: nat) -> OutcomeSpec
    decreases fuel, 0int, 0int, opts.len(),
{
    if opts.len() == 0 {
        OutcomeSpec::Done(s)
    } else {
        match pop_quote_s(opts, "opt"@) {
            Err(e) => OutcomeSpec::Fault(e),
            Ok((cond, opts1)) => match pop_quote_s(opts1, "opt"@) {
                Err(e) => OutcomeSpec::Fault(e),
                Ok((action, opts2)) => if fuel == 0 {
                    OutcomeSpec::Spin
                } else {
                    match run_seq_spec(cond, s, (fuel - 1) as nat) {
                        OutcomeSpec::Done(s1) => match pop_bool_s(s1.stack, "opt"@) {
                            Err(e) => OutcomeSpec::Fault(e),
                            Ok((success, rest)) => if success {
                                run_seq_spec(
                                    action,
                                    StateSpec { stack: rest, ..s1 },
                                    (fuel - 1) as nat,
                                )
                            } else {
                                opt_loop_spec(opts2, StateSpec { stack: rest, ..s1 }, fuel)
                            },
                        },
                        o => o,
                    }
                },
            },
        }
    }
}

} // verus!
