//! The stated laws of the core, proved once and for all inputs: the numeric
//! equality and ordering rules of the value model, the lifecycle of
//! dictionary bindings, the isolation of `doin`, the short-circuit of `opt`,
//! and the round trip of nested quotation contexts.

use vstd::prelude::*;
use vstd::arithmetic::power2::{lemma2_to64_rest, pow2};
use crate::compare::{
    is_numeric, lemma_quote_eq_pointwise, num_le_spec, num_lt_spec, val_eq_spec,
};
use crate::defs::{ActionSpec, BuiltinOp, DefSpec};
use crate::errors::ErrSpec;
use crate::numerics::{
    f_eq_spec, f_is_nan, f_key, f_le_spec, f_lt_spec, lemma_to_bits_exact, lemma_to_bits_wf,
    to_f64_bits, TWO53,
};
use crate::rail_machine::{deeper_spec, higher_spec, CtxSpec, StateSpec};
use crate::semantics::{builtin_spec, opt_loop_spec, run_seq_spec, OutcomeSpec};
use crate::values::ValSpec;

verus! {

/// True when an integer value's payload fits the machine integer that
/// carries it at run time.
pub open spec fn in_i64_range(v: ValSpec) -> bool {
    v matches ValSpec::I64(n) ==> -0x8000_0000_0000_0000 <= n < 0x8000_0000_0000_0000
}

/// Cross-type numeric equality: an integer and a float are equal as values
/// exactly when the float equals the integer's nearest float, and the
/// comparison is symmetric.
pub proof fn lemma_cross_type_eq(n: int, f: u64)
    ensures
        val_eq_spec(ValSpec::I64(n), ValSpec::F64(f)) == f_eq_spec(to_f64_bits(n), f),
        val_eq_spec(ValSpec::F64(f), ValSpec::I64(n)) == f_eq_spec(to_f64_bits(n), f),
{
}

/// Within the exactly representable range the cross-type equality is pure
/// arithmetic: the integer, scaled to the float's unit, must be the float's
/// key.
pub proof fn lemma_cross_type_eq_exact(n: int, f: u64)
    requires
        -(TWO53 as int) <= n <= TWO53 as int,
        !f_is_nan(f),
    ensures
        val_eq_spec(ValSpec::I64(n), ValSpec::F64(f)) == (f_key(f) == n * pow2(1074)),
{
    lemma_to_bits_exact(n);
}

/// Quote structural equality: two quotes are equal values exactly when they
/// have the same length and pairwise-equal elements.
pub proof fn lemma_quote_structural_eq(x: Seq<ValSpec>, y: Seq<ValSpec>)
    ensures
        val_eq_spec(ValSpec::Quote(x), ValSpec::Quote(y)) <==> (x.len() == y.len() && forall|
            i: int,
        | 0 <= i < x.len() ==> val_eq_spec(#[trigger] x[i], y[i])),
{
    lemma_quote_eq_pointwise(x, y);
}

/// Boolean algebra of the words: `not` inverts its operand, and for every
/// pair of booleans the `==` and `!=` words push exact complements.
pub proof fn lemma_boolean_algebra(s: StateSpec, a: bool, b: bool, fuel: nat)
    ensures
        val_eq_spec(ValSpec::Boolean(a), ValSpec::Boolean(b)) == (a == b),
        builtin_spec(
            BuiltinOp::Equal,
            StateSpec {
                stack: s.stack.push(ValSpec::Boolean(a)).push(ValSpec::Boolean(b)),
                ..s
            },
            fuel,
        ) == OutcomeSpec::Done(
            StateSpec { stack: s.stack.push(ValSpec::Boolean(a == b)), ..s },
        ),
        builtin_spec(
            BuiltinOp::NotEqual,
            StateSpec {
                stack: s.stack.push(ValSpec::Boolean(a)).push(ValSpec::Boolean(b)),
                ..s
            },
            fuel,
        ) == OutcomeSpec::Done(
            StateSpec { stack: s.stack.push(ValSpec::Boolean(a != b)), ..s },
        ),
        builtin_spec(
            BuiltinOp::Not,
            StateSpec { stack: s.stack.push(ValSpec::Boolean(a)), ..s },
            fuel,
        ) == OutcomeSpec::Done(StateSpec { stack: s.stack.push(ValSpec::Boolean(!a)), ..s }),
{
    let two = s.stack.push(ValSpec::Boolean(a)).push(ValSpec::Boolean(b));
    assert(two.drop_last() =~= s.stack.push(ValSpec::Boolean(a)));
    assert(two.drop_last().drop_last() =~= s.stack);
    assert(s.stack.push(ValSpec::Boolean(a)).drop_last() =~= s.stack);
}

/// Ordering promotion: an integer pair orders as the integers do; a mixed
/// integer/float pair orders as floats after the integer is promoted; a
/// float pair orders as floats.
pub proof fn lemma_ordering_promotion(n: int, m: int, f: u64, g: u64)
    ensures
        num_lt_spec(ValSpec::I64(n), ValSpec::I64(m)) == (n < m),
        num_le_spec(ValSpec::I64(n), ValSpec::I64(m)) == (n <= m),
        num_lt_spec(ValSpec::I64(n), ValSpec::F64(f)) == f_lt_spec(to_f64_bits(n), f),
        num_lt_spec(ValSpec::F64(f), ValSpec::I64(n)) == f_lt_spec(f, to_f64_bits(n)),
        num_lt_spec(ValSpec::F64(f), ValSpec::F64(g)) == f_lt_spec(f, g),
        num_le_spec(ValSpec::I64(n), ValSpec::F64(f)) == f_le_spec(to_f64_bits(n), f),
        num_le_spec(ValSpec::F64(f), ValSpec::I64(n)) == f_le_spec(f, to_f64_bits(n)),
        num_le_spec(ValSpec::F64(f), ValSpec::F64(g)) == f_le_spec(f, g),
{
}

/// Within the exactly representable range the promoted order is the order
/// of the mathematical values.
pub proof fn lemma_ordering_promotion_exact(n: int, f: u64)
    requires
        -(TWO53 as int) <= n <= TWO53 as int,
        !f_is_nan(f),
    ensures
        num_lt_spec(ValSpec::I64(n), ValSpec::F64(f)) == (n * pow2(1074) < f_key(f)),
        num_le_spec(ValSpec::I64(n), ValSpec::F64(f)) == (n * pow2(1074) <= f_key(f)),
        num_lt_spec(ValSpec::F64(f), ValSpec::I64(n)) == (f_key(f) < n * pow2(1074)),
        num_le_spec(ValSpec::F64(f), ValSpec::I64(n)) == (f_key(f) <= n * pow2(1074)),
{
    lemma_to_bits_exact(n);
}

/// Reflexivity: for every numeric value that is not a NaN, `x <= x` and
/// `x >= x` hold; `x < x` and `x > x` fail for every numeric value, NaN
/// included.
pub proof fn lemma_ordering_reflexive(v: ValSpec)
    requires
        is_numeric(v),
        in_i64_range(v),
    ensures
        !num_lt_spec(v, v),
        (v matches ValSpec::F64(bits) ==> !f_is_nan(bits)) ==> num_le_spec(v, v),
{
    if v is I64 {
        let n = v->I64_0;
        lemma2_to64_rest();
        lemma_to_bits_wf(n);
    }
}

/// The strict and non-strict orders are complements on NaN-free numeric
/// pairs, so `<` agrees with `>=` and `>` with `<=`.
pub proof fn lemma_ordering_complement(a: ValSpec, b: ValSpec)
    requires
        is_numeric(a),
        is_numeric(b),
        in_i64_range(a),
        in_i64_range(b),
        a matches ValSpec::F64(bits) ==> !f_is_nan(bits),
        b matches ValSpec::F64(bits) ==> !f_is_nan(bits),
    ensures
        num_lt_spec(a, b) == !num_le_spec(b, a),
{
    lemma2_to64_rest();
    if a is I64 {
        lemma_to_bits_wf(a->I64_0);
    }
    if b is I64 {
        lemma_to_bits_wf(b->I64_0);
    }
}

/// `def` binds: with a quotation and a name on the stack, the word consumes
/// both and the dictionary afterwards holds the name, bound to that
/// quotation.
pub proof fn lemma_def_binds(s: StateSpec, name: Seq<char>, body: Seq<ValSpec>, fuel: nat)
    ensures
        builtin_spec(
            BuiltinOp::Def,
            StateSpec {
                stack: s.stack.push(ValSpec::Quote(body)).push(ValSpec::String(name)),
                ..s
            },
            fuel,
        ) == OutcomeSpec::Done(
            StateSpec {
                stack: s.stack,
                dictionary: s.dictionary.insert(
                    name,
                    DefSpec {
                        name: name,
                        consumes: Seq::empty(),
                        produces: Seq::empty(),
                        action: ActionSpec::Quotation(body),
                    },
                ),
                ..s
            },
        ),
        s.dictionary.insert(
            name,
            DefSpec {
                name: name,
                consumes: Seq::empty(),
                produces: Seq::empty(),
                action: ActionSpec::Quotation(body),
            },
        ).contains_key(name),
{
    let two = s.stack.push(ValSpec::Quote(body)).push(ValSpec::String(name));
    assert(two.drop_last() =~= s.stack.push(ValSpec::Quote(body)));
    assert(two.drop_last().drop_last() =~= s.stack);
}

/// `def?` reports exactly the dictionary's answer for the popped name.
pub proof fn lemma_defquery_reports(s: StateSpec, name: Seq<char>, fuel: nat)
    ensures
        builtin_spec(
            BuiltinOp::DefQuery,
            StateSpec { stack: s.stack.push(ValSpec::String(name)), ..s },
            fuel,
        ) == OutcomeSpec::Done(
            StateSpec {
                stack: s.stack.push(ValSpec::Boolean(s.dictionary.contains_key(name))),
                ..s
            },
        ),
{
    assert(s.stack.push(ValSpec::String(name)).drop_last() =~= s.stack);
}

/// `undef` removes a bound name, after which `def?` answers false; on an
/// unbound name it faults with the unknown-undefine-target error.
pub proof fn lemma_undef_removes(s: StateSpec, name: Seq<char>, fuel: nat)
    ensures
        s.dictionary.contains_key(name) ==> builtin_spec(
            BuiltinOp::Undef,
            StateSpec { stack: s.stack.push(ValSpec::String(name)), ..s },
            fuel,
        ) == OutcomeSpec::Done(
            StateSpec { stack: s.stack, dictionary: s.dictionary.remove(name), ..s },
        ) && !s.dictionary.remove(name).contains_key(name),
        !s.dictionary.contains_key(name) ==> builtin_spec(
            BuiltinOp::Undef,
            StateSpec { stack: s.stack.push(ValSpec::String(name)), ..s },
            fuel,
        ) == OutcomeSpec::Fault(ErrSpec::UnknownUndefineTarget { word: name }),
{
    assert(s.stack.push(ValSpec::String(name)).drop_last() =~= s.stack);
}

/// Closure isolation: whatever a `doin` body does, a completed `doin` has
/// left the caller's dictionary and context untouched, and its whole stack
/// effect is the two operands replaced by one quote.
pub proof fn lemma_doin_isolation(s: StateSpec, fuel: nat)
    ensures
        match builtin_spec(BuiltinOp::Doin, s, fuel) {
            OutcomeSpec::Done(s2) => {
                &&& s2.dictionary == s.dictionary
                &&& s2.context == s.context
                &&& s.stack.len() >= 2
                &&& exists|inner: Seq<ValSpec>|
                    s2.stack == s.stack.drop_last().drop_last().push(ValSpec::Quote(inner))
            },
            _ => true,
        },
{
    let out = builtin_spec(BuiltinOp::Doin, s, fuel);
    if out is Done {
        let body = match s.stack.last() {
            ValSpec::Quote(q) => q,
            _ => Seq::empty(),
        };
        let rest = s.stack.drop_last();
        let working = match rest.last() {
            ValSpec::Quote(q) => q,
            _ => Seq::empty(),
        };
        let child = StateSpec {
            stack: working,
            dictionary: s.dictionary,
            context: CtxSpec::Detached,
        };
        let sub = run_seq_spec(body, child, (fuel - 1) as nat);
        match sub {
            OutcomeSpec::Done(subs) => {
                assert(out == OutcomeSpec::Done(
                    StateSpec {
                        stack: rest.drop_last().push(ValSpec::Quote(subs.stack)),
                        ..s
                    },
                ));
            },
            _ => {},
        }
    }
}

/// `opt` short-circuits: when the first condition runs to completion and
/// leaves true on the stack, the outcome is exactly the run of the first
/// action, whatever the remaining pairs hold — they are never consulted.
pub proof fn lemma_opt_short_circuit(
    later_pairs: Seq<ValSpec>,
    cond: Seq<ValSpec>,
    action: Seq<ValSpec>,
    s: StateSpec,
    fuel: nat,
    s1: StateSpec,
)
    requires
        fuel > 0,
        run_seq_spec(cond, s, (fuel - 1) as nat) == OutcomeSpec::Done(s1),
        s1.stack.len() > 0,
        s1.stack.last() == ValSpec::Boolean(true),
    ensures
        opt_loop_spec(
            later_pairs.push(ValSpec::Quote(action)).push(ValSpec::Quote(cond)),
            s,
            fuel,
        ) == run_seq_spec(action, StateSpec { stack: s1.stack.drop_last(), ..s1 }, (fuel - 1) as nat),
{
    let opts = later_pairs.push(ValSpec::Quote(action)).push(ValSpec::Quote(cond));
    assert(opts.last() == ValSpec::Quote(cond));
    assert(opts.drop_last() =~= later_pairs.push(ValSpec::Quote(action)));
    assert(opts.drop_last().last() == ValSpec::Quote(action));
}

/// The `opt` word itself, with its options quote written in source order
/// `[ cond action ...later ]` on top of the stack: when the first condition
/// runs to completion leaving true, the word's outcome is exactly the run
/// of the first action; the later entries are never consulted.
pub proof fn lemma_opt_word_short_circuit(
    later: Seq<ValSpec>,
    cond: Seq<ValSpec>,
    action: Seq<ValSpec>,
    s: StateSpec,
    fuel: nat,
    s1: StateSpec,
)
    requires
        fuel > 0,
        run_seq_spec(cond, s, (fuel - 1) as nat) == OutcomeSpec::Done(s1),
        s1.stack.len() > 0,
        s1.stack.last() == ValSpec::Boolean(true),
    ensures
        builtin_spec(
            BuiltinOp::Opt,
            StateSpec {
                stack: s.stack.push(
                    ValSpec::Quote(
                        seq![ValSpec::Quote(cond), ValSpec::Quote(action)] + later,
                    ),
                ),
                ..s
            },
            fuel,
        ) == run_seq_spec(action, StateSpec { stack: s1.stack.drop_last(), ..s1 }, (fuel - 1) as nat),
{
    let full = seq![ValSpec::Quote(cond), ValSpec::Quote(action)] + later;
    let pushed = s.stack.push(ValSpec::Quote(full));
    assert(pushed.last() == ValSpec::Quote(full));
    assert(pushed.drop_last() =~= s.stack);
    let walked = later.reverse().push(ValSpec::Quote(action)).push(ValSpec::Quote(cond));
    assert forall|j: int| 0 <= j < full.len() implies full.reverse()[j] == walked[j] by {
        let n = later.len() as int;
        assert(full.reverse()[j] == full[n + 1 - j]);
        if j < n {
            assert(walked[j] == later.reverse()[j]);
            assert(later.reverse()[j] == later[n - 1 - j]);
            assert(full[n + 1 - j] == later[n - 1 - j]);
        } else if j == n {
            assert(full[1] == ValSpec::Quote(action));
        } else {
            assert(full[0] == ValSpec::Quote(cond));
        }
    }
    assert(full.reverse() =~= walked);
    assert(StateSpec { stack: pushed.drop_last(), ..s } == s);
    lemma_opt_short_circuit(later.reverse(), cond, action, s, fuel, s1);
}

/// A condition quote that is the single literal `false`.
pub open spec fn false_cond() -> Seq<ValSpec> {
    seq![ValSpec::Boolean(false)]
}

/// `opt` with no matching pair is a no-op: when every condition is the
/// literal `false`, the state (with the options already consumed) passes
/// through unchanged.
pub proof fn lemma_opt_no_match(opts: Seq<ValSpec>, s: StateSpec, fuel: nat)
    requires
        fuel > 0,
        opts.len() % 2 == 0,
        forall|i: int|
            0 <= i < opts.len() && (opts.len() - i) % 2 == 1 ==> #[trigger] opts[i]
                == ValSpec::Quote(false_cond()),
        forall|i: int|
            0 <= i < opts.len() && (opts.len() - i) % 2 == 0 ==> (#[trigger] opts[i]) is Quote,
    ensures
        opt_loop_spec(opts, s, fuel) == OutcomeSpec::Done(s),
    decreases opts.len(),
{
    if opts.len() > 0 {
        assert(opts[opts.len() - 1] == ValSpec::Quote(false_cond()));
        assert(opts[opts.len() - 2] is Quote);
        let opts1 = opts.drop_last();
        let opts2 = opts1.drop_last();
        assert(opts1.last() == opts[opts.len() - 2]);
        let pushed = StateSpec { stack: s.stack.push(ValSpec::Boolean(false)), ..s };
        assert(run_seq_spec(false_cond(), s, (fuel - 1) as nat) == OutcomeSpec::Done(pushed)) by {
            assert(false_cond().len() == 1);
            assert(false_cond()[0] == ValSpec::Boolean(false));
            assert(crate::semantics::run_val_spec(false_cond()[0], s, (fuel - 1) as nat)
                == OutcomeSpec::Done(pushed));
            assert(false_cond().skip(1) =~= Seq::<ValSpec>::empty());
            assert(run_seq_spec(false_cond().skip(1), pushed, (fuel - 1) as nat)
                == OutcomeSpec::Done(pushed));
        }
        assert(pushed.stack.drop_last() =~= s.stack);
        assert(StateSpec { stack: pushed.stack.drop_last(), ..pushed } == s);
        assert forall|i: int|
            0 <= i < opts2.len() && (opts2.len() - i) % 2 == 1 implies #[trigger] opts2[i]
            == ValSpec::Quote(false_cond()) by {
            assert(opts2[i] == opts[i]);
        }
        assert forall|i: int|
            0 <= i < opts2.len() && (opts2.len() - i) % 2 == 0 implies (#[trigger] opts2[i])
            is Quote by {
            assert(opts2[i] == opts[i]);
        }
        lemma_opt_no_match(opts2, s, fuel);
    }
}

/// The nested quote that n levels of quotation around some content build:
/// each outer level holds exactly one element.
pub open spec fn nested_quote(n: nat, inner: Seq<ValSpec>) -> Seq<ValSpec>
    decreases n,
{
    if n == 0 {
        inner
    } else {
        seq![ValSpec::Quote(nested_quote((n - 1) as nat, inner))]
    }
}

/// n entries into quotation mode, from the outside in.
pub open spec fn apply_deeper(s: StateSpec, n: nat) -> StateSpec
    decreases n,
{
    if n == 0 {
        s
    } else {
        deeper_spec(apply_deeper(s, (n - 1) as nat))
    }
}

/// n exits from quotation mode.
pub open spec fn apply_higher(s: StateSpec, n: nat) -> StateSpec
    decreases n,
{
    if n == 0 {
        s
    } else {
        apply_higher(higher_spec(s), (n - 1) as nat)
    }
}

proof fn lemma_nested_shift(k: nat, inner: Seq<ValSpec>)
    ensures
        nested_quote(k, seq![ValSpec::Quote(inner)]) == nested_quote((k + 1) as nat, inner),
    decreases k,
{
    let si = seq![ValSpec::Quote(inner)];
    if k == 0 {
        assert(nested_quote(0, si) == si);
        assert(nested_quote(0, inner) == inner);
        assert(nested_quote(1, inner) =~= si);
    } else {
        lemma_nested_shift((k - 1) as nat, inner);
        assert(nested_quote(k, si) =~= nested_quote((k + 1) as nat, inner));
    }
}

/// Context nesting round trip: enter n nested quotation levels, fill the
/// innermost stack with arbitrary content, and exit n levels; the result is
/// the original context and stack with exactly one new quote value of the
/// expected nested shape on top.
pub proof fn lemma_context_round_trip(s: StateSpec, n: nat, inner: Seq<ValSpec>)
    requires
        n >= 1,
    ensures
        apply_higher(StateSpec { stack: inner, ..apply_deeper(s, n) }, n) == (StateSpec {
            stack: s.stack.push(ValSpec::Quote(nested_quote((n - 1) as nat, inner))),
            dictionary: s.dictionary,
            context: s.context,
        }),
    decreases n,
{
    if n == 1 {
        assert(apply_deeper(s, 1) == deeper_spec(apply_deeper(s, 0)));
        assert(apply_deeper(s, 0) == s);
        let filled = StateSpec { stack: inner, ..apply_deeper(s, 1) };
        assert(apply_higher(filled, 1) == apply_higher(higher_spec(filled), 0));
        assert(higher_spec(filled).stack == s.stack.push(ValSpec::Quote(inner)));
        assert(nested_quote(0, inner) == inner);
    } else {
        let deep_prev = apply_deeper(s, (n - 1) as nat);
        let filled = StateSpec { stack: inner, ..apply_deeper(s, n) };
        assert(apply_deeper(s, n) == deeper_spec(deep_prev));
        let once = higher_spec(filled);
        assert(once == (StateSpec {
            stack: deep_prev.stack.push(ValSpec::Quote(inner)),
            dictionary: deep_prev.dictionary,
            context: deep_prev.context,
        }));
        assert(deep_prev.stack =~= Seq::<ValSpec>::empty());
        assert(once.stack =~= seq![ValSpec::Quote(inner)]);
        assert(once == (StateSpec { stack: seq![ValSpec::Quote(inner)], ..deep_prev }));
        lemma_context_round_trip(s, (n - 1) as nat, seq![ValSpec::Quote(inner)]);
        lemma_nested_shift((n - 2) as nat, inner);
        assert(apply_higher(filled, n) == apply_higher(once, (n - 1) as nat));
    }
}

} // verus!
