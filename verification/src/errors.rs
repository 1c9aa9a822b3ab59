//! The closed taxonomy of fatal conditions. Every operation of the core that
//! can fail returns one of these through a `Result` instead of aborting, and
//! the driver around the library decides how to report it.

use vstd::prelude::*;

verus! {

/// Mathematical model of an error value: strings are their character
/// sequences, counts are unbounded integers.
pub enum ErrSpec {
    /// A word's declared `consumes` arity exceeded the live stack depth.
    StackUnderflow { word: Seq<char>, consumes: Seq<Seq<char>>, produces: Seq<Seq<char>>, depth: int },
    /// A typed pop found a different variant on top of the stack.
    TypeMismatch { context: Seq<char>, expected: Seq<char>, actual: Seq<char> },
    /// A command resolved to no dictionary entry.
    UnknownWord { word: Seq<char> },
    /// `undef` was given a name with no binding.
    UnknownUndefineTarget { word: Seq<char> },
    /// An attempt to leave the main context, or to exit a nested mode that
    /// does not match the active one.
    ContextEscape { context: Seq<char> },
    /// The caller's step budget ran out before the program finished.
    OutOfSteps,
}

/// A fatal condition, carrying the operation's name and the expected and
/// actual shapes, as the diagnostics name them.
#[derive(Debug)]
pub enum RailErr {
    StackUnderflow {
        word: String,
        consumes: Vec<&'static str>,
        produces: Vec<&'static str>,
        depth: usize,
    },
    TypeMismatch { context: &'static str, expected: &'static str, actual: &'static str },
    UnknownWord { word: String },
    UnknownUndefineTarget { word: String },
    ContextEscape { context: &'static str },
    OutOfSteps,
}

/// The character sequences of a list of type-name labels.
pub open spec fn labels_view(s: Seq<&'static str>) -> Seq<Seq<char>> {
    Seq::new(s.len(), |i: int| s[i]@)
}

impl View for RailErr {
    type V = ErrSpec;

    open spec fn view(&self) -> ErrSpec {
        match self {
            RailErr::StackUnderflow { word, consumes, produces, depth } => ErrSpec::StackUnderflow {
                word: word@,
                consumes: labels_view(consumes@),
                produces: labels_view(produces@),
                depth: *depth as int,
            },
            RailErr::TypeMismatch { context, expected, actual } => ErrSpec::TypeMismatch {
                context: context@,
                expected: expected@,
                actual: actual@,
            },
            RailErr::UnknownWord { word } => ErrSpec::UnknownWord { word: word@ },
            RailErr::UnknownUndefineTarget { word } => ErrSpec::UnknownUndefineTarget {
                word: word@,
            },
            RailErr::ContextEscape { context } => ErrSpec::ContextEscape { context: context@ },
            RailErr::OutOfSteps => ErrSpec::OutOfSteps,
        }
    }
}

} // verus!
