//! The evaluator: the sole execution entry point. `run_quote` folds a
//! quote's elements over a state, resolving commands through the dictionary
//! and pushing everything else as a literal; `act` guards each invocation
//! with the stack-underflow check and dispatches to the native builtins or
//! recurses into user quotations. Each function returns exactly what the
//! big-step semantics says, for the same step budget.

use vstd::prelude::*;
use crate::defs::{copy_labels, BuiltinOp, RailAction, RailDef};
use crate::errors::RailErr;
use crate::rail_machine::RailState;
use crate::semantics::{
    apply_def_spec, builtin_spec, eq_step_spec, opt_loop_spec, ord_step_spec, res_view,
    run_seq_spec, OutcomeSpec,
};
use crate::values::{lemma_vals_view_index, Quote, RailVal};

verus! {

impl RailDef {
    /// Invokes this definition against a state: fails with a stack underflow
    /// when the declared `consumes` arity exceeds the live depth, otherwise
    /// runs the native action or the stored quotation.
    pub fn act(&self, state: RailState, fuel: u64) -> (r: Result<RailState, RailErr>)
        ensures
            res_view(r) == apply_def_spec(self@, state@, fuel as nat),
        decreases fuel, 1int, 0int, 0int,
    {
        let depth = state.stack.len();
        if depth < self.consumes.len() {
            return Err(RailErr::StackUnderflow {
                word: self.name.clone(),
                consumes: copy_labels(&self.consumes),
                produces: copy_labels(&self.produces),
                depth,
            });
        }
        match &self.action {
            RailAction::Quotation(q) => {
                if fuel == 0 {
                    Err(RailErr::OutOfSteps)
                } else {
                    run_quote(q, state, fuel - 1)
                }
            },
            RailAction::Builtin(op) => builtin_step(*op, state, fuel),
        }
    }
}

/// Runs a quote against a state, left to right.
pub fn run_quote(quote: &Quote, state: RailState, fuel: u64) -> (r: Result<RailState, RailErr>)
    ensures
        res_view(r) == run_seq_spec(quote@, state@, fuel as nat),
    decreases fuel, 4int, 0int, 0int,
{
    proof {
        assert(quote@.skip(0) =~= quote@);
    }
    run_from(quote, 0, state, fuel)
}

/// Runs a quote's elements from the given index on.
fn run_from(quote: &Quote, i: usize, state: RailState, fuel: u64) -> (r: Result<
    RailState,
    RailErr,
>)
    requires
        i <= quote@.len(),
    ensures
        res_view(r) == run_seq_spec(quote@.skip(i as int), state@, fuel as nat),
    decreases fuel, 3int, quote@.len() - i, 0int,
{
    proof {
        lemma_vals_view_index(quote.values@);
    }
    let n = quote.values.len();
    if i == n {
        return Ok(state);
    }
    let ghost rest = quote@.skip(i as int);
    proof {
        assert(rest[0] == quote@[i as int]);
        assert(rest.skip(1) =~= quote@.skip(i as int + 1));
    }
    let ghost gst = state@;
    let elem = &quote.values[i];
    proof {
        assert(elem@ == rest[0]);
    }
    let step = match elem {
        RailVal::Command(w) => {
            match state.dictionary.get(w) {
                Some(d) => d.act(state, fuel),
                None => Err(RailErr::UnknownWord { word: w.clone() }),
            }
        },
        _ => {
            let dup = elem.duplicate();
            let RailState { stack, dictionary, context } = state;
            Ok(RailState { stack: stack.push(dup), dictionary, context })
        },
    };
    proof {
        assert(res_view(step) == crate::semantics::run_val_spec(rest[0], gst, fuel as nat));
    }
    match step {
        Ok(s1) => run_from(quote, i + 1, s1, fuel),
        Err(e) => Err(e),
    }
}

/// `==` and `!=`: two values popped, their (possibly negated) equality
/// pushed.
fn eq_step(state: RailState, ctx: &'static str, negate: bool) -> (r: Result<RailState, RailErr>)
    ensures
        res_view(r) == eq_step_spec(state@, ctx@, negate),
{
    let RailState { stack, dictionary, context } = state;
    match stack.pop_at(ctx) {
        Err(e) => Err(e),
        Ok((b, rest)) => match rest.pop_at(ctx) {
            Err(e) => Err(e),
            Ok((a, rest2)) => {
                let same = a.val_eq(&b);
                Ok(RailState { stack: rest2.push_bool(same != negate), dictionary, context })
            },
        },
    }
}

/// The four ordering words, parameterised by strictness and operand order.
fn ord_step(state: RailState, ctx: &'static str, strict: bool, flip: bool) -> (r: Result<
    RailState,
    RailErr,
>)
    ensures
        res_view(r) == ord_step_spec(state@, ctx@, strict, flip),
{
    let RailState { stack, dictionary, context } = state;
    match stack.pop_at(ctx) {
        Err(e) => Err(e),
        Ok((b, rest)) => match rest.pop_at(ctx) {
            Err(e) => Err(e),
            Ok((a, rest2)) => {
                if !b.is_numeric_val() {
                    Err(RailErr::TypeMismatch {
                        context: ctx,
                        expected: "i64 or f64",
                        actual: b.kind_name(),
                    })
                } else if !a.is_numeric_val() {
                    Err(RailErr::TypeMismatch {
                        context: ctx,
                        expected: "i64 or f64",
                        actual: a.kind_name(),
                    })
                } else {
                    let res = if flip {
                        if strict {
                            b.num_lt(&a)
                        } else {
                            b.num_le(&a)
                        }
                    } else {
                        if strict {
                            a.num_lt(&b)
                        } else {
                            a.num_le(&b)
                        }
                    };
                    Ok(RailState { stack: rest2.push_bool(res), dictionary, context })
                }
            },
        },
    }
}

/// One native builtin against a state.
fn builtin_step(op: BuiltinOp, state: RailState, fuel: u64) -> (r: Result<RailState, RailErr>)
    ensures
        res_view(r) == builtin_spec(op, state@, fuel as nat),
    decreases fuel, 0int, 1int, 0int,
{
    match op {
        BuiltinOp::Do => {
            let RailState { stack, dictionary, context } = state;
            match stack.pop_quote("do") {
                Err(e) => Err(e),
                Ok((body, rest)) => {
                    if fuel == 0 {
                        Err(RailErr::OutOfSteps)
                    } else {
                        run_quote(&body, RailState { stack: rest, dictionary, context }, fuel - 1)
                    }
                },
            }
        },
        BuiltinOp::Doin => {
            let RailState { stack, dictionary, context } = state;
            match stack.pop_quote("call-in") {
                Err(e) => Err(e),
                Ok((body, rest)) => match rest.pop_quote("call-in") {
                    Err(e) => Err(e),
                    Ok((working, rest2)) => {
                        if fuel == 0 {
                            Err(RailErr::OutOfSteps)
                        } else {
                            let outer = RailState { stack: rest2, dictionary, context };
                            let child = outer.contextless_child(working);
                            match run_quote(&body, child, fuel - 1) {
                                Ok(sub) => {
                                    let RailState {
                                        stack: substack,
                                        dictionary: _subd,
                                        context: _subc,
                                    } = sub;
                                    let RailState { stack: ostack, dictionary, context } = outer;
                                    Ok(
                                        RailState {
                                            stack: ostack.push_quote(substack),
                                            dictionary,
                                            context,
                                        },
                                    )
                                },
                                Err(e) => Err(e),
                            }
                        }
                    },
                },
            }
        },
        BuiltinOp::Def => {
            let RailState { stack, dictionary, context } = state;
            match stack.pop_string("def") {
                Err(e) => Err(e),
                Ok((name, rest)) => match rest.pop_quote("def") {
                    Err(e) => Err(e),
                    Ok((body, rest2)) => {
                        let def = RailDef::from_quote(name.as_str(), body);
                        let dictionary = dictionary.insert(name, def);
                        Ok(RailState { stack: rest2, dictionary, context })
                    },
                },
            }
        },
        BuiltinOp::DefQuery => {
            let RailState { stack, dictionary, context } = state;
            match stack.pop_string("def?") {
                Err(e) => Err(e),
                Ok((name, rest)) => {
                    let bound = dictionary.contains_key(&name);
                    Ok(RailState { stack: rest.push_bool(bound), dictionary, context })
                },
            }
        },
        BuiltinOp::Undef => {
            let RailState { stack, dictionary, context } = state;
            match stack.pop_string("undef") {
                Err(e) => Err(e),
                Ok((name, rest)) => {
                    let (dictionary, found) = dictionary.remove(&name);
                    if found {
                        Ok(RailState { stack: rest, dictionary, context })
                    } else {
                        Err(RailErr::UnknownUndefineTarget { word: name })
                    }
                },
            }
        },
        BuiltinOp::Equal => eq_step(state, "==", false),
        BuiltinOp::NotEqual => eq_step(state, "!=", true),
        BuiltinOp::Less => ord_step(state, "<", true, false),
        BuiltinOp::LessEq => ord_step(state, "<=", false, false),
        BuiltinOp::Greater => ord_step(state, ">", true, true),
        BuiltinOp::GreaterEq => ord_step(state, ">=", false, true),
        BuiltinOp::Not => {
            let RailState { stack, dictionary, context } = state;
            match stack.pop_bool("not") {
                Err(e) => Err(e),
                Ok((b, rest)) => Ok(
                    RailState { stack: rest.push_bool(!b), dictionary, context },
                ),
            }
        },
        BuiltinOp::Opt => {
            let RailState { stack, dictionary, context } = state;
            match stack.pop_quote("opt") {
                Err(e) => Err(e),
                Ok((options, rest)) => {
                    let options = options.reversed();
                    opt_step(options, RailState { stack: rest, dictionary, context }, fuel)
                },
            }
        },
    }
}

/// `opt`'s walk over its reversed condition/action pairs.
fn opt_step(options: Quote, state: RailState, fuel: u64) -> (r: Result<RailState, RailErr>)
    ensures
        res_view(r) == opt_loop_spec(options@, state@, fuel as nat),
    decreases fuel, 0int, 0int, options@.len(),
{
    if options.is_empty() {
        return Ok(state);
    }
    match options.pop_quote("opt") {
        Err(e) => Err(e),
        Ok((cond, opts1)) => match opts1.pop_quote("opt") {
            Err(e) => Err(e),
            Ok((action, opts2)) => {
                if fuel == 0 {
                    return Err(RailErr::OutOfSteps);
                }
                match run_quote(&cond, state, fuel - 1) {
                    Err(e) => Err(e),
                    Ok(s1) => {
                        let RailState { stack, dictionary, context } = s1;
                        match stack.pop_bool("opt") {
                            Err(e) => Err(e),
                            Ok((success, rest)) => {
                                let s2 = RailState { stack: rest, dictionary, context };
                                if success {
                                    run_quote(&action, s2, fuel - 1)
                                } else {
                                    opt_step(opts2, s2, fuel)
                                }
                            },
                        }
                    },
                }
            },
        },
    }
}

} // verus!
