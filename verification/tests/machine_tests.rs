//! The control-flow builtins, the dictionary lifecycle, the error taxonomy,
//! and the lexical-mode state machine.

use dt_core::errors::RailErr;
use dt_core::eval::run_quote;
use dt_core::rail_machine::{Context, RailState};
use dt_core::values::{Quote, RailVal};

const FUEL: u64 = 1_000_000;

fn run_program(q: Quote) -> Result<RailState, RailErr> {
    run_quote(&q, RailState::default(), FUEL)
}

fn stack_of(q: Quote) -> Vec<RailVal> {
    run_program(q).expect("program faulted").stack.values
}

#[test]
fn do_runs_inline() {
    // [ 1 2 ] do leaves 1 2 on the caller's stack
    let body = Quote::new().push_i64(1).push_i64(2);
    let vals = stack_of(Quote::new().push_quote(body).push_command("do"));
    assert_eq!(vals.len(), 2);
    assert!(matches!(vals[0], RailVal::I64(1)));
    assert!(matches!(vals[1], RailVal::I64(2)));
}

#[test]
fn def_then_defquery_then_undef() {
    // "foo" [ 1 ] def; "foo" def? => true
    let program = Quote::new()
        .push_quote(Quote::new().push_i64(1))
        .push_str("foo")
        .push_command("def")
        .push_str("foo")
        .push_command("def?");
    let vals = stack_of(program);
    assert_eq!(vals.len(), 1);
    assert!(matches!(vals[0], RailVal::Boolean(true)));

    // after undef, def? => false
    let program = Quote::new()
        .push_quote(Quote::new().push_i64(1))
        .push_str("foo")
        .push_command("def")
        .push_str("foo")
        .push_command("undef")
        .push_str("foo")
        .push_command("def?");
    let vals = stack_of(program);
    assert_eq!(vals.len(), 1);
    assert!(matches!(vals[0], RailVal::Boolean(false)));
}

#[test]
fn defined_word_runs() {
    // "two" [ 2 ] def; two two leaves 2 2
    let program = Quote::new()
        .push_quote(Quote::new().push_i64(2))
        .push_str("two")
        .push_command("def")
        .push_command("two")
        .push_command("two");
    let vals = stack_of(program);
    assert_eq!(vals.len(), 2);
    assert!(matches!(vals[0], RailVal::I64(2)));
    assert!(matches!(vals[1], RailVal::I64(2)));
}

#[test]
fn redefinition_last_write_wins() {
    let program = Quote::new()
        .push_quote(Quote::new().push_i64(1))
        .push_str("w")
        .push_command("def")
        .push_quote(Quote::new().push_i64(9))
        .push_str("w")
        .push_command("def")
        .push_command("w");
    let vals = stack_of(program);
    assert_eq!(vals.len(), 1);
    assert!(matches!(vals[0], RailVal::I64(9)));
}

#[test]
fn undef_of_unknown_name_is_fatal() {
    let program = Quote::new().push_str("never-bound").push_command("undef");
    let err = run_program(program).expect_err("undef of an unbound name must fail");
    assert!(matches!(err, RailErr::UnknownUndefineTarget { .. }));
}

#[test]
fn unknown_word_is_fatal() {
    let program = Quote::new().push_command("no-such-word");
    let err = run_program(program).expect_err("unknown words must fail");
    match err {
        RailErr::UnknownWord { word } => assert_eq!(word, "no-such-word"),
        other => panic!("expected an unknown-word error, got {:?}", other),
    }
}

#[test]
fn stack_underflow_is_fatal() {
    // `<` declares two operands; an empty stack underflows.
    let program = Quote::new().push_command("<");
    let err = run_program(program).expect_err("underflow must fail");
    match err {
        RailErr::StackUnderflow { word, depth, .. } => {
            assert_eq!(word, "<");
            assert_eq!(depth, 0);
        },
        other => panic!("expected a stack underflow, got {:?}", other),
    }
}

#[test]
fn type_mismatch_is_fatal() {
    // `not` on an integer is a type mismatch naming both kinds.
    let program = Quote::new().push_i64(3).push_command("not");
    let err = run_program(program).expect_err("not on an integer must fail");
    match err {
        RailErr::TypeMismatch { context, expected, actual } => {
            assert_eq!(context, "not");
            assert_eq!(expected, "bool");
            assert_eq!(actual, "i64");
        },
        other => panic!("expected a type mismatch, got {:?}", other),
    }
}

#[test]
fn ordering_rejects_non_numeric() {
    let program = Quote::new().push_bool(true).push_i64(1).push_command("<");
    let err = run_program(program).expect_err("< on a boolean must fail");
    match err {
        RailErr::TypeMismatch { expected, actual, .. } => {
            assert_eq!(expected, "i64 or f64");
            assert_eq!(actual, "bool");
        },
        other => panic!("expected a type mismatch, got {:?}", other),
    }
}

#[test]
fn doin_returns_working_stack_as_quote() {
    // [ 10 ] [ 20 ] doin => [ 10 20 ] and nothing else
    let program = Quote::new()
        .push_quote(Quote::new().push_i64(10))
        .push_quote(Quote::new().push_i64(20))
        .push_command("doin");
    let vals = stack_of(program);
    assert_eq!(vals.len(), 1);
    match &vals[0] {
        RailVal::Quote(q) => {
            assert_eq!(q.values.len(), 2);
            assert!(matches!(q.values[0], RailVal::I64(10)));
            assert!(matches!(q.values[1], RailVal::I64(20)));
        },
        other => panic!("expected a quote, got {:?}", other),
    }
}

#[test]
fn doin_does_not_leak_definitions() {
    // a def inside the doin body is not visible afterwards
    let body = Quote::new()
        .push_quote(Quote::new().push_i64(1))
        .push_str("hidden")
        .push_command("def");
    let program = Quote::new()
        .push_quote(Quote::new())
        .push_quote(body)
        .push_command("doin")
        .push_str("hidden")
        .push_command("def?");
    let vals = stack_of(program);
    assert_eq!(vals.len(), 2);
    assert!(matches!(vals[1], RailVal::Boolean(false)));
}

#[test]
fn opt_takes_first_true_branch() {
    // [ [false] [1] [true] [2] [true] [3] ] opt => 2
    let options = Quote::new()
        .push_quote(Quote::new().push_bool(false))
        .push_quote(Quote::new().push_i64(1))
        .push_quote(Quote::new().push_bool(true))
        .push_quote(Quote::new().push_i64(2))
        .push_quote(Quote::new().push_bool(true))
        .push_quote(Quote::new().push_i64(3));
    let program = Quote::new().push_quote(options).push_command("opt");
    let vals = stack_of(program);
    assert_eq!(vals.len(), 1);
    assert!(matches!(vals[0], RailVal::I64(2)));
}

#[test]
fn opt_short_circuits_bad_later_pairs() {
    // the later entries are not even quotes, but the first pair matches and
    // they are never consulted
    let options = Quote::new()
        .push_quote(Quote::new().push_bool(true))
        .push_quote(Quote::new().push_i64(7))
        .push_i64(42)
        .push_i64(43);
    let program = Quote::new().push_quote(options).push_command("opt");
    let vals = stack_of(program);
    assert_eq!(vals.len(), 1);
    assert!(matches!(vals[0], RailVal::I64(7)));
}

#[test]
fn opt_with_no_true_condition_is_a_no_op() {
    let options = Quote::new()
        .push_quote(Quote::new().push_bool(false))
        .push_quote(Quote::new().push_i64(1))
        .push_quote(Quote::new().push_bool(false))
        .push_quote(Quote::new().push_i64(2));
    let program = Quote::new().push_i64(5).push_quote(options).push_command("opt");
    let vals = stack_of(program);
    assert_eq!(vals.len(), 1);
    assert!(matches!(vals[0], RailVal::I64(5)));
}

#[test]
fn nested_quotation_round_trip() {
    // entering and leaving three nested quotation levels returns to main
    // with one nested quote on the original stack
    let state = RailState::default();
    let state = run_quote(&Quote::new().push_i64(7), state, FUEL).unwrap();
    let state = state.deeper().deeper().deeper();
    let state = run_quote(&Quote::new().push_bool(true), state, FUEL).unwrap();
    let state = state.higher().unwrap().higher().unwrap().higher().unwrap();
    assert!(state.in_main());
    let vals = state.stack.values;
    assert_eq!(vals.len(), 2);
    assert!(matches!(vals[0], RailVal::I64(7)));
    // [[ [true] ]]
    match &vals[1] {
        RailVal::Quote(q1) => match &q1.values[..] {
            [RailVal::Quote(q2)] => match &q2.values[..] {
                [RailVal::Quote(q3)] => {
                    assert_eq!(q3.values.len(), 1);
                    assert!(matches!(q3.values[0], RailVal::Boolean(true)));
                },
                other => panic!("expected one inner quote, got {:?}", other),
            },
            other => panic!("expected one inner quote, got {:?}", other),
        },
        other => panic!("expected a quote, got {:?}", other),
    }
}

#[test]
fn higher_in_main_is_a_context_escape() {
    let err = RailState::default().higher().expect_err("cannot escape main");
    assert!(matches!(err, RailErr::ContextEscape { .. }));
}

#[test]
fn string_mode_builds_a_string() {
    // enter, append two words, exit: one string on the stack, space-joined
    let state = RailState::default().enter_string();
    assert!(state.in_string());
    let state = state.append_string_exact("duct").unwrap();
    let state = state.append_string("tape").unwrap();
    let state = state.exit_string().unwrap();
    assert!(state.in_main());
    let vals = state.stack.values;
    assert_eq!(vals.len(), 1);
    match &vals[0] {
        RailVal::String(s) => assert_eq!(s, "duct tape"),
        other => panic!("expected a string, got {:?}", other),
    }
}

#[test]
fn comment_mode_has_no_stack_effect() {
    let state = RailState::default().enter_comment();
    assert!(state.in_comment());
    let state = state.exit_comment().unwrap();
    assert!(state.in_main());
    assert_eq!(state.stack.values.len(), 0);
}

#[test]
fn exit_string_outside_string_mode_is_a_context_escape() {
    let err = RailState::new(Context::Main).exit_string().expect_err("not in a string");
    assert!(matches!(err, RailErr::ContextEscape { .. }));
}

#[test]
fn exit_comment_outside_comment_mode_is_a_context_escape() {
    let err = RailState::new(Context::Main).exit_comment().expect_err("not in a comment");
    assert!(matches!(err, RailErr::ContextEscape { .. }));
}

#[test]
fn step_budget_runs_out_on_unbounded_recursion() {
    // "loop" defined in terms of itself spins until the budget is gone
    let program = Quote::new()
        .push_quote(Quote::new().push_command("loop"))
        .push_str("loop")
        .push_command("def")
        .push_command("loop");
    let err = run_quote(&program, RailState::default(), 200).expect_err("must exhaust");
    assert!(matches!(err, RailErr::OutOfSteps));
}
