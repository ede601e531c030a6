//! The four execution subsystems of the Rail architecture, selected by
//! bits 5-4 of the opcode byte.

use vstd::prelude::*;

verus! {

#[derive(Clone, Copy, Debug, PartialEq, Eq, Structural)]
pub enum RailSubSystem {
    Alu,
    RamStack,
    CU,
    Peripheral,
    Undefined,
}

} // verus!
