//! Boolean, equality and comparison words, driven through the evaluator on
//! literal programs.

use dt_core::eval::run_quote;
use dt_core::rail_machine::RailState;
use dt_core::values::{Quote, RailVal};

const FUEL: u64 = 1_000_000;

/// Runs a program quote against a fresh state and returns the final stack.
fn run_program(q: Quote) -> Vec<RailVal> {
    let state = RailState::default();
    let out = run_quote(&q, state, FUEL).expect("program faulted");
    out.stack.values
}

/// Runs a program expected to leave exactly one boolean and returns it.
fn top_bool(q: Quote) -> bool {
    let vals = run_program(q);
    assert_eq!(vals.len(), 1);
    match &vals[0] {
        RailVal::Boolean(b) => *b,
        other => panic!("expected a boolean, got {:?}", other),
    }
}

fn bits(x: f64) -> u64 {
    x.to_bits()
}

#[test]
fn test_true() {
    assert!(top_bool(Quote::new().push_bool(true)));
}

#[test]
fn test_false() {
    assert!(!top_bool(Quote::new().push_bool(false)));
}

#[test]
fn test_not() {
    // false not => true
    assert!(top_bool(Quote::new().push_bool(false).push_command("not")));
    // true not => false
    assert!(!top_bool(Quote::new().push_bool(true).push_command("not")));
}

fn bool_pair(a: bool, b: bool, op: &str) -> bool {
    top_bool(Quote::new().push_bool(a).push_bool(b).push_command(op))
}

#[test]
fn test_bool_equality() {
    assert!(bool_pair(true, true, "=="));
    assert!(bool_pair(false, false, "=="));
    assert!(bool_pair(true, false, "!="));
    assert!(bool_pair(false, true, "!="));
    assert!(!bool_pair(true, true, "!="));
    assert!(!bool_pair(false, false, "!="));
    assert!(!bool_pair(true, false, "=="));
    assert!(!bool_pair(false, true, "=="));
}

fn ii(a: i64, b: i64, op: &str) -> bool {
    top_bool(Quote::new().push_i64(a).push_i64(b).push_command(op))
}

fn iff(a: i64, b: f64, op: &str) -> bool {
    top_bool(Quote::new().push_i64(a).push_f64(bits(b)).push_command(op))
}

fn fi(a: f64, b: i64, op: &str) -> bool {
    top_bool(Quote::new().push_f64(bits(a)).push_i64(b).push_command(op))
}

fn ff(a: f64, b: f64, op: &str) -> bool {
    top_bool(Quote::new().push_f64(bits(a)).push_f64(bits(b)).push_command(op))
}

#[test]
fn test_numeric_equality() {
    assert!(ii(1, 1, "=="));
    assert!(iff(1, 1.0, "=="));
    assert!(fi(1.0, 1, "=="));
    assert!(ff(1.0, 1.0, "=="));
    assert!(!ii(1, 2, "=="));
    assert!(!iff(1, 2.0, "=="));
    assert!(!fi(1.0, 2, "=="));
    assert!(!ff(1.0, 2.0, "=="));
    assert!(!ii(1, 1, "!="));
    assert!(!iff(1, 1.0, "!="));
    assert!(!fi(1.0, 1, "!="));
    assert!(!ff(1.0, 1.0, "!="));
    assert!(ii(1, 2, "!="));
    assert!(iff(1, 2.0, "!="));
    assert!(fi(1.0, 2, "!="));
    assert!(ff(1.0, 2.0, "!="));
}

fn ss(a: &str, b: &str, op: &str) -> bool {
    top_bool(Quote::new().push_str(a).push_str(b).push_command(op))
}

#[test]
fn test_string_equality() {
    assert!(ss("apple", "apple", "=="));
    assert!(ss("apple", "orange", "!="));
    assert!(!ss("apple", "apple", "!="));
    assert!(!ss("apple", "orange", "=="));
}

fn many_types_quote() -> Quote {
    Quote::new()
        .push_bool(true)
        .push_i64(2)
        .push_f64(bits(-3.4e5))
        .push_str("6")
        .push_quote(Quote::new())
}

#[test]
fn test_quote_of_many_types_equality() {
    // [true 2 -3.4e5 "6" [ ]] == [true 2 -3.4e5 "6" [ ]]
    let program = Quote::new()
        .push_quote(many_types_quote())
        .push_quote(many_types_quote())
        .push_command("==");
    assert!(top_bool(program));
}

#[test]
fn test_comparison_lt() {
    assert!(ii(1, 2, "<"));
    assert!(iff(1, 1.1, "<"));
    assert!(fi(1.1, 2, "<"));
    assert!(ff(1.1, 2.2, "<"));
    assert!(!ii(1, 1, "<"));
    assert!(!iff(1, 1.0, "<"));
    assert!(!fi(1.0, 1, "<"));
    assert!(!ff(1.0, 1.0, "<"));
    assert!(!ii(1, 0, "<"));
    assert!(!iff(1, 0.9, "<"));
    assert!(!fi(1.1, 1, "<"));
    assert!(!ff(1.1, 0.9, "<"));
}

#[test]
fn test_comparison_le() {
    assert!(ii(1, 2, "<="));
    assert!(ii(1, 1, "<="));
    assert!(iff(1, 1.1, "<="));
    assert!(fi(1.1, 2, "<="));
    assert!(ff(1.1, 1.1, "<="));
    assert!(iff(1, 1.0, "<="));
    assert!(fi(1.0, 1, "<="));
    assert!(!ii(1, 0, "<="));
    assert!(!iff(1, 0.9, "<="));
    assert!(!fi(1.1, 1, "<="));
    assert!(!ff(1.1, 0.9, "<="));
}

#[test]
fn test_comparison_gt() {
    assert!(ii(2, 1, ">"));
    assert!(fi(1.1, 1, ">"));
    assert!(iff(2, 1.1, ">"));
    assert!(ff(2.2, 1.1, ">"));
    assert!(!ii(1, 1, ">"));
    assert!(!fi(1.0, 1, ">"));
    assert!(!iff(1, 1.0, ">"));
    assert!(!ff(1.0, 1.0, ">"));
    assert!(!ii(0, 1, ">"));
    assert!(!fi(0.9, 1, ">"));
    assert!(!iff(1, 1.1, ">"));
    assert!(!ff(0.9, 1.1, ">"));
}

#[test]
fn test_comparison_ge() {
    assert!(ii(2, 1, ">="));
    assert!(ii(1, 1, ">="));
    assert!(fi(1.1, 1, ">="));
    assert!(iff(2, 1.1, ">="));
    assert!(ff(1.1, 1.1, ">="));
    assert!(fi(1.0, 1, ">="));
    assert!(iff(1, 1.0, ">="));
    assert!(!ii(0, 1, ">="));
    assert!(!fi(0.9, 1, ">="));
    assert!(!iff(1, 1.1, ">="));
    assert!(!ff(0.9, 1.1, ">="));
}
