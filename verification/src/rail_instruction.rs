//! The operations of the Rail architecture, one variant per decoded
//! instruction across all four subsystems.

use vstd::prelude::*;

verus! {

#[derive(Clone, Copy, Debug, PartialEq, Eq, Structural)]
pub enum RailInstruction {
    // ALU
    Add,
    Sub,
    And,
    Or,
    Not,
    Xor,
    Shl,
    Shr,
    RANSetSeed,
    RANNext,
    Halt,
    Noop,
    // Control unit
    Equals,
    NotEquals,
    LessThan,
    LessEqualThan,
    MoreThan,
    MoreEqualThan,
    True,
    False,
    // RAM / stacks
    Read,
    Write,
    SPop,
    SPush,
    Ret,
    Call,
    // Unused encodings
    Undefined,
}

} // verus!
