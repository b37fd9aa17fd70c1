//! The instructions a program compiles to (the "Indexed RPN" subset):
//! each instruction's result is referred to by its index.

use vstd::prelude::*;

verus! {

/// Reference to the result of an earlier instruction, by its index.
#[derive(Debug, Clone, Copy, PartialEq, Eq, Structural)]
pub struct InstrRef(pub usize);

/// An instruction.
#[derive(Debug, PartialEq)]
pub enum Instruction {
    LoadInt(i64),
    /// A float literal, by its IEEE-754 bit pattern.
    LoadFloat(u64),
    LoadBool(bool),
    LoadNull,
    LoadString(String),
    LoadSymbol(String),
    /// The value most recently bound to the name.
    LoadVar(String),
    Add { lhs: InstrRef, rhs: InstrRef },
    Sub { lhs: InstrRef, rhs: InstrRef },
    Mul { lhs: InstrRef, rhs: InstrRef },
    Div { lhs: InstrRef, rhs: InstrRef },
    Mod { lhs: InstrRef, rhs: InstrRef },
    Neg { operand: InstrRef },
    Not { operand: InstrRef },
    Eq { lhs: InstrRef, rhs: InstrRef },
    NotEq { lhs: InstrRef, rhs: InstrRef },
    Lt { lhs: InstrRef, rhs: InstrRef },
    Gt { lhs: InstrRef, rhs: InstrRef },
    LtEq { lhs: InstrRef, rhs: InstrRef },
    GtEq { lhs: InstrRef, rhs: InstrRef },
    /// Bind a name to a value.
    Bind { name: String, value: InstrRef },
    /// The value of a binding.
    NameRef { bind: InstrRef },
    /// A copy of another result.
    Copy { source: InstrRef },
    MakeList { elements: Vec<InstrRef> },
    PushScope,
    PopScope,
}

} // verus!
