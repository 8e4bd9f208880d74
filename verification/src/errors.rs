//! The error taxonomy of the machine. Every fault is unrecoverable for the
//! run in progress and names the failing instruction's index.

use vstd::prelude::*;

verus! {

/// Why a single program line was rejected at load time.
#[derive(Clone, Copy, Debug, PartialEq, Eq, Structural)]
pub enum ParseError {
    /// The first token is none of the nine opcode keywords.
    UnknownOpcode,
    /// The token count does not match the opcode's arity: four tokens for an
    /// arithmetic line, three for a load, store, move, compare or jump line.
    WrongArity,
}

/// An unrecoverable fault. `line` is the index of the rejected program line;
/// `at` is the program counter of the failing instruction.
#[derive(Clone, Copy, Debug, PartialEq, Eq, Structural)]
pub enum VmError {
    /// A malformed instruction line; the whole load aborts.
    Parse { line: usize, kind: ParseError },
    /// An operand expected in register-sigil form (`r` followed by digits) is
    /// not, or a literal operand is not a well-formed integer of its kind.
    OperandFormat { at: usize },
    /// A resolved register index falls outside the register file.
    OperandRange { at: usize },
    /// A division whose divisor resolves to zero.
    DivisionByZero { at: usize },
    /// A literal main-memory address outside the memory region.
    OutOfRangeMemoryAccess { at: usize },
}

} // verus!
