//! The interpreter state and its lexical-mode state machine. A state is
//! {operand stack, dictionary, context}; the context is an owned chain of
//! nested modes (main, building a quotation, building a string, skipping a
//! comment, or detached for isolated sub-evaluations). Every operation
//! consumes a state and returns a new one; leaving a mode that is not the
//! active one is a contract violation reported as a context-escape error.

use vstd::prelude::*;
use crate::defs::{Dictionary, DefSpec};
use crate::errors::{ErrSpec, RailErr};
use crate::values::{Quote, ValSpec};

verus! {

/// The active lexical mode, owning what it must restore on exit.
#[derive(Debug)]
pub enum Context {
    /// Top level: initial and terminal, cannot be exited.
    Main,
    /// Accumulating a quoted-code block; owns the enclosing context and the
    /// enclosing stack at time of entry.
    Quotation { parent_context: Box<Context>, parent_stack: Box<Quote> },
    /// Accumulating a string literal's characters.
    StringLit { parent_context: Box<Context> },
    /// Skipping a comment.
    Comment { parent_context: Box<Context> },
    /// No ancestor at all: used only for isolated sub-evaluations that must
    /// never escape back into an enclosing context.
    Detached,
}

/// The model of a context chain.
pub enum CtxSpec {
    Main,
    Quotation { parent_context: Box<CtxSpec>, parent_stack: Seq<ValSpec> },
    StringLit { parent_context: Box<CtxSpec> },
    Comment { parent_context: Box<CtxSpec> },
    Detached,
}

impl View for Context {
    type V = CtxSpec;

    open spec fn view(&self) -> CtxSpec
        decreases self,
    {
        match self {
            Context::Main => CtxSpec::Main,
            Context::Quotation { parent_context, parent_stack } => CtxSpec::Quotation {
                parent_context: Box::new((**parent_context)@),
                parent_stack: (**parent_stack)@,
            },
            Context::StringLit { parent_context } => CtxSpec::StringLit {
                parent_context: Box::new((**parent_context)@),
            },
            Context::Comment { parent_context } => CtxSpec::Comment {
                parent_context: Box::new((**parent_context)@),
            },
            Context::Detached => CtxSpec::Detached,
        }
    }
}

/// The interpreter state: operand stack, word dictionary, active context.
#[derive(Debug)]
pub struct RailState {
    pub stack: Quote,
    pub dictionary: Dictionary,
    pub context: Context,
}

/// The model of an interpreter state.
pub struct StateSpec {
    pub stack: Seq<ValSpec>,
    pub dictionary: Map<Seq<char>, DefSpec>,
    pub context: CtxSpec,
}

impl View for RailState {
    type V = StateSpec;

    open spec fn view(&self) -> StateSpec {
        StateSpec { stack: self.stack@, dictionary: self.dictionary@, context: self.context@ }
    }
}

/// The text a string value holds; empty for any other variant.
pub open spec fn text_of(v: ValSpec) -> Seq<char> {
    match v {
        ValSpec::String(s) => s,
        _ => Seq::empty(),
    }
}

/// The state `deeper` moves to: a fresh accumulation stack, under a
/// quotation context that owns what must be restored.
pub open spec fn deeper_spec(s: StateSpec) -> StateSpec {
    StateSpec {
        stack: Seq::empty(),
        dictionary: s.dictionary,
        context: CtxSpec::Quotation {
            parent_context: Box::new(s.context),
            parent_stack: s.stack,
        },
    }
}

/// The state `higher` restores from a quotation context: the built quote
/// pushed onto the saved stack, under the saved context. Any other context
/// is left in place (the operation itself faults there).
pub open spec fn higher_spec(s: StateSpec) -> StateSpec {
    match s.context {
        CtxSpec::Quotation { parent_context, parent_stack } => StateSpec {
            stack: parent_stack.push(ValSpec::Quote(s.stack)),
            dictionary: s.dictionary,
            context: *parent_context,
        },
        _ => s,
    }
}

impl RailState {
    /// A fresh state: empty stack, the dictionary of all builtins, and the
    /// given context.
    pub fn new(context: Context) -> (r: RailState)
        ensures
            r@ == (StateSpec {
                stack: Seq::<ValSpec>::empty(),
                dictionary: crate::corelib::initial_dictionary(),
                context: context@,
            }),
    {
        let stack = Quote::new();
        let dictionary = crate::corelib::new_dictionary();
        RailState { stack, dictionary, context }
    }

    /// Carries the dictionary and context over to a new stack.
    pub fn update_stack(self, stack: Quote) -> (r: RailState)
        ensures
            r@ == (StateSpec { stack: stack@, ..self@ }),
    {
        RailState { stack, dictionary: self.dictionary, context: self.context }
    }

    /// The same state with its stack and dictionary replaced.
    pub fn update_stack_and_dict(self, stack: Quote, dictionary: Dictionary) -> (r: RailState)
        ensures
            r@ == (StateSpec { stack: stack@, dictionary: dictionary@, ..self@ }),
    {
        RailState { stack, dictionary, context: self.context }
    }

    /// Discards the current stack in favour of the given one.
    pub fn replace_stack(self, stack: Quote) -> (r: RailState)
        ensures
            r@ == (StateSpec { stack: stack@, ..self@ }),
    {
        RailState { stack, dictionary: self.dictionary, context: self.context }
    }

    /// An isolated child state: the given stack, a copy of this state's
    /// dictionary, and no ancestor to escape to.
    pub fn contextless_child(&self, stack: Quote) -> (r: RailState)
        ensures
            r@ == (StateSpec {
                stack: stack@,
                dictionary: self@.dictionary,
                context: CtxSpec::Detached,
            }),
    {
        RailState { stack, dictionary: self.dictionary.duplicate(), context: Context::Detached }
    }

    /// Enters a quotation: remembers the current context and stack, and
    /// begins accumulating on a fresh stack.
    pub fn deeper(self) -> (r: RailState)
        ensures
            r@ == deeper_spec(self@),
    {
        let context = Context::Quotation {
            parent_context: Box::new(self.context),
            parent_stack: Box::new(self.stack),
        };
        RailState { stack: Quote::new(), dictionary: self.dictionary, context }
    }

    pub fn in_main(&self) -> (r: bool)
        ensures
            r == (self@.context is Main),
    {
        matches!(self.context, Context::Main)
    }

    pub fn in_string(&self) -> (r: bool)
        ensures
            r == (self@.context is StringLit),
    {
        matches!(self.context, Context::StringLit { .. })
    }

    pub fn in_comment(&self) -> (r: bool)
        ensures
            r == (self@.context is Comment),
    {
        matches!(self.context, Context::Comment { .. })
    }

    /// Leaves a quotation: wraps the accumulated stack as a single quote
    /// value, restores the parent context and stack, and pushes that value
    /// onto the restored stack. Only legal while in quotation mode.
    pub fn higher(self) -> (r: Result<RailState, RailErr>)
        ensures
            match r {
                Ok(st) => self@.context is Quotation && st@ == higher_spec(self@),
                Err(e) => !(self@.context is Quotation) && e@ == (ErrSpec::ContextEscape {
                    context: "higher"@,
                }),
            },
    {
        match self.context {
            Context::Quotation { parent_context, parent_stack } => {
                let stack = (*parent_stack).push_quote(self.stack);
                Ok(RailState { stack, dictionary: self.dictionary, context: *parent_context })
            },
            _ => Err(RailErr::ContextEscape { context: "higher" }),
        }
    }

    /// Enters string mode: pushes an empty string onto the stack, to be
    /// extended in place by the append operations.
    pub fn enter_string(self) -> (r: RailState)
        ensures
            r@ == (StateSpec {
                stack: self@.stack.push(ValSpec::String(Seq::empty())),
                dictionary: self@.dictionary,
                context: CtxSpec::StringLit { parent_context: Box::new(self@.context) },
            }),
    {
        let context = Context::StringLit { parent_context: Box::new(self.context) };
        let stack = self.stack.push_string(String::new());
        RailState { stack, dictionary: self.dictionary, context }
    }

    /// Appends a word to the string under construction, preserving the word
    /// boundary: a single space, then the text.
    pub fn append_string(self, s: &str) -> (r: Result<RailState, RailErr>)
        ensures
            match r {
                Ok(st) => self@.stack.len() > 0 && self@.stack.last() is String && st@
                    == (StateSpec {
                    stack: self@.stack.drop_last().push(
                        ValSpec::String(text_of(self@.stack.last()) + " "@ + s@),
                    ),
                    ..self@
                }),
                Err(e) => if self@.stack.len() == 0 {
                    e@ == crate::values::underflow_err("string_parser"@, 0)
                } else {
                    !(self@.stack.last() is String) && e@ == crate::values::mismatch_err(
                        "string_parser"@,
                        "string"@,
                        self@.stack.last(),
                    )
                },
            },
    {
        let RailState { stack, dictionary, context } = self;
        match stack.pop_string("string_parser") {
            Ok((text, rest)) => {
                let text = text.concat(" ");
                let text = text.concat(s);
                Ok(RailState { stack: rest.push_string(text), dictionary, context })
            },
            Err(e) => Err(e),
        }
    }

    /// Appends an exact fragment to the string under construction.
    pub fn append_string_exact(self, s: &str) -> (r: Result<RailState, RailErr>)
        ensures
            match r {
                Ok(st) => self@.stack.len() > 0 && self@.stack.last() is String && st@
                    == (StateSpec {
                    stack: self@.stack.drop_last().push(
                        ValSpec::String(text_of(self@.stack.last()) + s@),
                    ),
                    ..self@
                }),
                Err(e) => if self@.stack.len() == 0 {
                    e@ == crate::values::underflow_err("string_parser"@, 0)
                } else {
                    !(self@.stack.last() is String) && e@ == crate::values::mismatch_err(
                        "string_parser"@,
                        "string"@,
                        self@.stack.last(),
                    )
                },
            },
    {
        let RailState { stack, dictionary, context } = self;
        match stack.pop_string("string_parser") {
            Ok((text, rest)) => {
                let text = text.concat(s);
                Ok(RailState { stack: rest.push_string(text), dictionary, context })
            },
            Err(e) => Err(e),
        }
    }

    /// Leaves string mode, restoring the parent context; the finished string
    /// stays on the stack as an ordinary value.
    pub fn exit_string(self) -> (r: Result<RailState, RailErr>)
        ensures
            match r {
                Ok(st) => self@.context matches CtxSpec::StringLit { parent_context } && st@
                    == (StateSpec { context: *parent_context, ..self@ }),
                Err(e) => !(self@.context is StringLit) && e@ == (ErrSpec::ContextEscape {
                    context: "exit_string"@,
                }),
            },
    {
        match self.context {
            Context::StringLit { parent_context } => Ok(
                RailState {
                    stack: self.stack,
                    dictionary: self.dictionary,
                    context: *parent_context,
                },
            ),
            _ => Err(RailErr::ContextEscape { context: "exit_string" }),
        }
    }

    /// Enters comment mode: input is discarded until the matching exit.
    pub fn enter_comment(self) -> (r: RailState)
        ensures
            r@ == (StateSpec {
                context: CtxSpec::Comment { parent_context: Box::new(self@.context) },
                ..self@
            }),
    {
        let context = Context::Comment { parent_context: Box::new(self.context) };
        RailState { stack: self.stack, dictionary: self.dictionary, context }
    }

    /// Leaves comment mode, restoring the parent context.
    pub fn exit_comment(self) -> (r: Result<RailState, RailErr>)
        ensures
            match r {
                Ok(st) => self@.context matches CtxSpec::Comment { parent_context } && st@
                    == (StateSpec { context: *parent_context, ..self@ }),
                Err(e) => !(self@.context is Comment) && e@ == (ErrSpec::ContextEscape {
                    context: "exit_comment"@,
                }),
            },
    {
        match self.context {
            Context::Comment { parent_context } => Ok(
                RailState {
                    stack: self.stack,
                    dictionary: self.dictionary,
                    context: *parent_context,
                },
            ),
            _ => Err(RailErr::ContextEscape { context: "exit_comment" }),
        }
    }
}

impl Default for RailState {
    /// A fresh state in the main context.
    fn default() -> (r: Self)
        ensures
            r@ == (StateSpec {
                stack: Seq::<ValSpec>::empty(),
                dictionary: crate::corelib::initial_dictionary(),
                context: CtxSpec::Main,
            }),
    {
        Self::new(Context::Main)
    }
}

} // verus!
