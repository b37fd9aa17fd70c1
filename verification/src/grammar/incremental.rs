//! Incremental parsing: the state a suspended parse resumes from, and the
//! result of one step.

use vstd::prelude::*;
use crate::value::Value;

verus! {

/// State needed to resume an incremental parse: the position, the rule
/// call stack and the variable bindings (name/value pairs, the last of a
/// name counting).
#[derive(Debug)]
pub struct ParseState {
    /// Current position index in the input.
    pub position_index: usize,
    /// Rule call stack: rule name and the position index it was entered at.
    pub rule_stack: Vec<(String, usize)>,
    /// Current variable bindings.
    pub bindings: Vec<(String, Value)>,
}

impl Default for ParseState {
    /// The state at the start: position zero, no rules entered, nothing
    /// bound.
    fn default() -> (r: ParseState)
        ensures
            r.position_index == 0,
            r.rule_stack@.len() == 0,
            r.bindings@.len() == 0,
    {
        ParseState { position_index: 0, rule_stack: Vec::new(), bindings: Vec::new() }
    }
}

/// Result of an incremental parse step.
#[derive(Debug)]
pub enum ParseNext {
    /// The rule matched with this value.
    Match(Value),
    /// More input is needed; the parse resumes from this state.
    NeedInput(ParseState),
    /// The input stream ended.
    End,
}

} // verus!
