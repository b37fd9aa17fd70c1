//! Type inference for cross-compiling instructions to a typed register
//! machine: a forward pass gives each instruction's result a type.

use vstd::prelude::*;
use crate::compiler::Instruction;

verus! {

/// Errors during cross-compilation.
#[derive(Debug)]
pub enum CrossCompileError {
    /// An instruction the target cannot express.
    UnsupportedInstruction(String),
    /// The emitted program failed verification.
    VerificationFailed(String),
}

/// Inferred type of an instruction's result.
#[derive(Debug, Clone, Copy, PartialEq, Eq, Structural)]
pub enum TapeType {
    I64,
    F64,
    Bool,
    Str,
    Unit,
    Unknown,
}

/// The index of the last `Bind` of `name` among the first `i` instructions.
pub open spec fn last_bind(instrs: Seq<Instruction>, name: Seq<char>, i: int) -> Option<int>
    decreases i,
{
    if i <= 0 {
        None
    } else if instrs[i - 1] matches Instruction::Bind { name: n, .. } && n@ == name {
        Some(i - 1)
    } else {
        last_bind(instrs, name, i - 1)
    }
}

/// The type of arithmetic on operands of types `l` and `r`: `F64` when
/// either is, `I64` otherwise.
pub open spec fn arith_type(l: TapeType, r: TapeType) -> TapeType {
    if l == TapeType::F64 || r == TapeType::F64 {
        TapeType::F64
    } else {
        TapeType::I64
    }
}

/// The type seen at instruction `i` for a reference to instruction `j`:
/// the type of an earlier instruction, `Unknown` for any other.
pub open spec fn type_before(instrs: Seq<Instruction>, i: int, j: int) -> TapeType
    decreases i, 0int,
{
    if 0 <= j < i {
        infer_type_at(instrs, j)
    } else {
        TapeType::Unknown
    }
}

/// The inferred type of instruction `i`: literals have their type; a
/// variable has the type of its latest binding before it; arithmetic is
/// `F64` if either operand is, else `I64`; negation keeps `F64`, else
/// `I64`; `Not` and comparisons give `Bool`; `Bind`, `NameRef` and `Copy`
/// pass on the type of what they refer to; anything else is `Unknown`.
/// References to the instruction itself or later ones read `Unknown`.
pub open spec fn infer_type_at(instrs: Seq<Instruction>, i: int) -> TapeType
    decreases i, 1int,
{
    if i < 0 || i >= instrs.len() {
        TapeType::Unknown
    } else {
        match instrs[i] {
            Instruction::LoadInt(_) => TapeType::I64,
            Instruction::LoadFloat(_) => TapeType::F64,
            Instruction::LoadBool(_) => TapeType::Bool,
            Instruction::LoadNull => TapeType::Unit,
            Instruction::LoadString(_) => TapeType::Str,
            Instruction::LoadSymbol(_) => TapeType::Str,
            Instruction::LoadVar(name) => match last_bind(instrs, name@, i) {
                Some(b) => type_before(instrs, i, b),
                None => TapeType::Unknown,
            },
            Instruction::Add { lhs, rhs } => arith_type(type_before(instrs, i, lhs.0 as int), type_before(instrs, i, rhs.0 as int)),
            Instruction::Sub { lhs, rhs } => arith_type(type_before(instrs, i, lhs.0 as int), type_before(instrs, i, rhs.0 as int)),
            Instruction::Mul { lhs, rhs } => arith_type(type_before(instrs, i, lhs.0 as int), type_before(instrs, i, rhs.0 as int)),
            Instruction::Div { lhs, rhs } => arith_type(type_before(instrs, i, lhs.0 as int), type_before(instrs, i, rhs.0 as int)),
            Instruction::Mod { lhs, rhs } => arith_type(type_before(instrs, i, lhs.0 as int), type_before(instrs, i, rhs.0 as int)),
            Instruction::Neg { operand } => if type_before(instrs, i, operand.0 as int) == TapeType::F64 {
                TapeType::F64
            } else {
                TapeType::I64
            },
            Instruction::Not { .. } => TapeType::Bool,
            Instruction::Eq { .. } => TapeType::Bool,
            Instruction::NotEq { .. } => TapeType::Bool,
            Instruction::Lt { .. } => TapeType::Bool,
            Instruction::Gt { .. } => TapeType::Bool,
            Instruction::LtEq { .. } => TapeType::Bool,
            Instruction::GtEq { .. } => TapeType::Bool,
            Instruction::Bind { value, .. } => type_before(instrs, i, value.0 as int),
            Instruction::NameRef { bind } => type_before(instrs, i, bind.0 as int),
            Instruction::Copy { source } => type_before(instrs, i, source.0 as int),
            _ => TapeType::Unknown,
        }
    }
}

/// The operand indices of an arithmetic instruction (`Add`, `Sub`, `Mul`,
/// `Div`, `Mod`), `None` for any other instruction.
pub open spec fn arith_operands(ins: Instruction) -> Option<(int, int)> {
    match ins {
        Instruction::Add { lhs, rhs } => Some((lhs.0 as int, rhs.0 as int)),
        Instruction::Sub { lhs, rhs } => Some((lhs.0 as int, rhs.0 as int)),
        Instruction::Mul { lhs, rhs } => Some((lhs.0 as int, rhs.0 as int)),
        Instruction::Div { lhs, rhs } => Some((lhs.0 as int, rhs.0 as int)),
        Instruction::Mod { lhs, rhs } => Some((lhs.0 as int, rhs.0 as int)),
        _ => None,
    }
}

/// Arithmetic promotes to `F64`: an arithmetic instruction whose operands
/// are earlier instructions has type `F64` when at least one operand has,
/// and `I64` otherwise.
pub proof fn lemma_arith_promotion(instrs: Seq<Instruction>, i: int, l: int, r: int)
    requires
        0 <= i < instrs.len(),
        arith_operands(instrs[i]) == Some((l, r)),
        0 <= l < i,
        0 <= r < i,
    ensures
        infer_type_at(instrs, i) == (if infer_type_at(instrs, l) == TapeType::F64 || infer_type_at(instrs, r)
            == TapeType::F64 {
            TapeType::F64
        } else {
            TapeType::I64
        }),
{
}

/// The type at index `j` of `types`, `Unknown` past its end.
pub open spec fn type_or_unknown(types: Seq<TapeType>, j: int) -> TapeType {
    if 0 <= j < types.len() {
        types[j]
    } else {
        TapeType::Unknown
    }
}

fn get_type(types: &Vec<TapeType>, j: usize) -> (r: TapeType)
    ensures
        r == type_or_unknown(types@, j as int),
{
    if j < types.len() {
        types[j]
    } else {
        TapeType::Unknown
    }
}

/// Infer the type of each instruction's result (see [`infer_type_at`]).
pub fn infer_types(instructions: &[Instruction]) -> (r: Vec<TapeType>)
    ensures
        r@.len() == instructions@.len(),
        forall|i: int| 0 <= i < r@.len() ==> #[trigger] r@[i] == infer_type_at(instructions@, i),
        forall|i: int, l: int, k: int|
            #![trigger arith_operands(instructions@[i]), r@[l], r@[k]]
            0 <= l < i && 0 <= k < i && i < r@.len() && arith_operands(instructions@[i]) == Some((l, k))
                ==> r@[i] == (if r@[l] == TapeType::F64 || r@[k] == TapeType::F64 {
                TapeType::F64
            } else {
                TapeType::I64
            }),
{
    let ghost instrs = instructions@;
    let mut types: Vec<TapeType> = Vec::new();
    let mut idx: usize = 0;
    while idx < instructions.len()
        invariant
            idx <= instrs.len(),
            instrs == instructions@,
            types@.len() == idx,
            forall|j: int| 0 <= j < idx ==> #[trigger] types@[j] == infer_type_at(instrs, j),
        decreases instrs.len() - idx,
    {
        assert forall|j: int| #[trigger] type_or_unknown(types@, j) == type_before(instrs, idx as int, j) by {}
        let t = match &instructions[idx] {
            Instruction::LoadInt(_) => TapeType::I64,
            Instruction::LoadFloat(_) => TapeType::F64,
            Instruction::LoadBool(_) => TapeType::Bool,
            Instruction::LoadNull => TapeType::Unit,
            Instruction::LoadString(_) | Instruction::LoadSymbol(_) => TapeType::Str,
            Instruction::LoadVar(name) => {
                let mut b = idx;
                let mut found: Option<usize> = None;
                while b > 0
                    invariant_except_break
                        found is None,
                    invariant
                        b <= idx,
                        idx < instrs.len(),
                        instrs == instructions@,
                        last_bind(instrs, name@, idx as int) == last_bind(instrs, name@, b as int),
                    ensures
                        match found {
                            Some(k) => last_bind(instrs, name@, idx as int) == Some(k as int),
                            None => last_bind(instrs, name@, idx as int) is None,
                        },
                    decreases b,
                {
                    match &instructions[b - 1] {
                        Instruction::Bind { name: n, .. } => {
                            if *n == *name {
                                found = Some(b - 1);
                                break;
                            }
                        },
                        _ => {},
                    }
                    b -= 1;
                }
                match found {
                    Some(k) => get_type(&types, k),
                    None => TapeType::Unknown,
                }
            },
            Instruction::Add { lhs, rhs }
            | Instruction::Sub { lhs, rhs }
            | Instruction::Mul { lhs, rhs }
            | Instruction::Div { lhs, rhs }
            | Instruction::Mod { lhs, rhs } => {
                let lt = get_type(&types, lhs.0);
                let rt = get_type(&types, rhs.0);
                if lt == TapeType::F64 || rt == TapeType::F64 {
                    TapeType::F64
                } else {
                    TapeType::I64
                }
            },
            Instruction::Neg { operand } => {
                let ot = get_type(&types, operand.0);
                if ot == TapeType::F64 {
                    TapeType::F64
                } else {
                    TapeType::I64
                }
            },
            Instruction::Not { .. } => TapeType::Bool,
            Instruction::Eq { .. }
            | Instruction::NotEq { .. }
            | Instruction::Lt { .. }
            | Instruction::Gt { .. }
            | Instruction::LtEq { .. }
            | Instruction::GtEq { .. } => TapeType::Bool,
            Instruction::Bind { value, .. } => get_type(&types, value.0),
            Instruction::NameRef { bind } => get_type(&types, bind.0),
            Instruction::Copy { source } => get_type(&types, source.0),
            _ => TapeType::Unknown,
        };
        assert(t == infer_type_at(instrs, idx as int));
        types.push(t);
        idx += 1;
    }
    assert forall|i: int, l: int, k: int|
        #![trigger arith_operands(instrs[i]), types@[l], types@[k]]
        0 <= l < i && 0 <= k < i && i < types@.len() && arith_operands(instrs[i]) == Some((l, k))
            implies types@[i] == (if types@[l] == TapeType::F64 || types@[k] == TapeType::F64 {
            TapeType::F64
        } else {
            TapeType::I64
        }) by {
        lemma_arith_promotion(instrs, i, l, k);
    }
    types
}

/// The operand type of a binary operation: `F64` if either operand's type
/// is, else `Str` if either is, else `I64` (types past the end read
/// `Unknown`).
pub fn operand_type(types: &[TapeType], lhs: usize, rhs: usize) -> (r: TapeType)
    ensures
        r == ({
            let lt = type_or_unknown(types@, lhs as int);
            let rt = type_or_unknown(types@, rhs as int);
            if lt == TapeType::F64 || rt == TapeType::F64 {
                TapeType::F64
            } else if lt == TapeType::Str || rt == TapeType::Str {
                TapeType::Str
            } else {
                TapeType::I64
            }
        }),
{
    let lt = if lhs < types.len() {
        types[lhs]
    } else {
        TapeType::Unknown
    };
    let rt = if rhs < types.len() {
        types[rhs]
    } else {
        TapeType::Unknown
    };
    if lt == TapeType::F64 || rt == TapeType::F64 {
        TapeType::F64
    } else if lt == TapeType::Str || rt == TapeType::Str {
        TapeType::Str
    } else {
        TapeType::I64
    }
}

} // verus!
