//! Execution core of a small concatenative stack language: a tagged value
//! model, a nested lexical-mode state machine, a word dictionary with dynamic
//! redefinition, and an evaluator that dispatches literals and named words.

pub mod compare;
pub mod corelib;
pub mod defs;
pub mod errors;
pub mod eval;
pub mod laws;
pub mod numerics;
pub mod rail_machine;
pub mod semantics;
pub mod values;
