//! One fetched instruction word: the four raw bytes `opcode, arg1, arg2,
//! result`, together with the bit-field decoding of the opcode byte.
//!
//! The opcode byte packs four fields: bit 7 marks `arg1` as immediate,
//! bit 6 marks `arg2` as immediate, bits 5-4 select the subsystem and
//! bits 3-0 select the operation within the subsystem.

use crate::rail_instruction::RailInstruction;
use crate::rail_subsystem::RailSubSystem;
use vstd::prelude::*;

verus! {

#[derive(Clone, Copy, Debug, PartialEq, Eq, Structural)]
pub struct RailInstructionBlock {
    pub op: u8,
    pub arg1: u8,
    pub arg2: u8,
    pub result: u8,
}

/// The subsystem selected by bits 5-4 of the opcode byte.
pub open spec fn subsystem_of(op: u8) -> RailSubSystem {
    let sel = (op & 48) >> 4;
    if sel == 0 {
        RailSubSystem::Alu
    } else if sel == 1 {
        RailSubSystem::RamStack
    } else if sel == 2 {
        RailSubSystem::CU
    } else if sel == 3 {
        RailSubSystem::Peripheral
    } else {
        RailSubSystem::Undefined
    }
}

/// The ALU operation selected by the low four opcode bits.
pub open spec fn alu_instruction_of(masked: u8) -> RailInstruction {
    if masked == 0 {
        RailInstruction::Add
    } else if masked == 1 {
        RailInstruction::Sub
    } else if masked == 2 {
        RailInstruction::And
    } else if masked == 3 {
        RailInstruction::Or
    } else if masked == 4 {
        RailInstruction::Not
    } else if masked == 5 {
        RailInstruction::Xor
    } else if masked == 6 {
        RailInstruction::Shl
    } else if masked == 7 {
        RailInstruction::Shr
    } else if masked == 12 {
        RailInstruction::RANSetSeed
    } else if masked == 13 {
        RailInstruction::RANNext
    } else if masked == 14 {
        RailInstruction::Halt
    } else if masked == 15 {
        RailInstruction::Noop
    } else {
        RailInstruction::Undefined
    }
}

/// The control-unit predicate selected by the low four opcode bits.
pub open spec fn cu_instruction_of(masked: u8) -> RailInstruction {
    if masked == 0 {
        RailInstruction::Equals
    } else if masked == 1 {
        RailInstruction::NotEquals
    } else if masked == 2 {
        RailInstruction::LessThan
    } else if masked == 3 {
        RailInstruction::LessEqualThan
    } else if masked == 4 {
        RailInstruction::MoreThan
    } else if masked == 5 {
        RailInstruction::MoreEqualThan
    } else if masked == 6 {
        RailInstruction::True
    } else if masked == 7 {
        RailInstruction::False
    } else {
        RailInstruction::Undefined
    }
}

/// The RAM/stack operation selected by the low four opcode bits.
pub open spec fn ram_instruction_of(masked: u8) -> RailInstruction {
    if masked == 0 {
        RailInstruction::Read
    } else if masked == 1 {
        RailInstruction::Write
    } else if masked == 8 {
        RailInstruction::SPop
    } else if masked == 9 {
        RailInstruction::SPush
    } else if masked == 10 {
        RailInstruction::Ret
    } else if masked == 11 {
        RailInstruction::Call
    } else {
        RailInstruction::Undefined
    }
}

/// Full decode of the opcode byte into an operation.
pub open spec fn instruction_of(op: u8) -> RailInstruction {
    let masked = op & 15;
    match subsystem_of(op) {
        RailSubSystem::Alu => alu_instruction_of(masked),
        RailSubSystem::CU => cu_instruction_of(masked),
        RailSubSystem::RamStack => ram_instruction_of(masked),
        RailSubSystem::Peripheral => RailInstruction::Undefined,
        RailSubSystem::Undefined => RailInstruction::Undefined,
    }
}

impl RailInstructionBlock {
    pub fn new(op: u8, arg1: u8, arg2: u8, result: u8) -> (r: Self)
        ensures
            r == (RailInstructionBlock { op, arg1, arg2, result }),
    {
        Self { op, arg1, arg2, result }
    }

    pub fn get_subsystem(&self) -> (r: RailSubSystem)
        ensures
            r == subsystem_of(self.op),
    {
        let sel = (self.op & 48) >> 4;
        if sel == 0 {
            RailSubSystem::Alu
        } else if sel == 1 {
            RailSubSystem::RamStack
        } else if sel == 2 {
            RailSubSystem::CU
        } else if sel == 3 {
            RailSubSystem::Peripheral
        } else {
            RailSubSystem::Undefined
        }
    }

    pub fn get_instruction(&self) -> (r: RailInstruction)
        ensures
            r == instruction_of(self.op),
    {
        let masked = self.op & 15;
        match self.get_subsystem() {
            RailSubSystem::Alu => self.get_alu_instruction(masked),
            RailSubSystem::CU => self.get_cu_instruction(masked),
            RailSubSystem::RamStack => self.get_ram_instruction(masked),
            RailSubSystem::Peripheral => self.get_peripheral_instruction(masked),
            RailSubSystem::Undefined => RailInstruction::Undefined,
        }
    }

    pub fn is_arg1_immediate(&self) -> (r: bool)
        ensures
            r == (self.op & 128 == 128),
    {
        self.check_bit(self.op, 128)
    }

    pub fn is_arg2_immediate(&self) -> (r: bool)
        ensures
            r == (self.op & 64 == 64),
    {
        self.check_bit(self.op, 64)
    }

    pub fn get_ram_target(&self) -> (r: u8)
        ensures
            r == self.result,
    {
        self.result
    }

    pub fn get_result(&self) -> (r: u8)
        ensures
            r == self.result,
    {
        self.result
    }

    pub fn get_cu_addr(&self) -> (r: u8)
        ensures
            r == self.result,
    {
        self.result
    }

    pub fn check_bit(&self, value: u8, flag: u8) -> (r: bool)
        ensures
            r == (value & flag == flag),
    {
        (value & flag) == flag
    }

    pub fn get_alu_instruction(&self, masked: u8) -> (r: RailInstruction)
        ensures
            r == alu_instruction_of(masked),
    {
        match masked {
            0 => RailInstruction::Add,
            1 => RailInstruction::Sub,
            2 => RailInstruction::And,
            3 => RailInstruction::Or,
            4 => RailInstruction::Not,
            5 => RailInstruction::Xor,
            6 => RailInstruction::Shl,
            7 => RailInstruction::Shr,
            // 8, 9, 10, 11 are unused encodings
            12 => RailInstruction::RANSetSeed,
            13 => RailInstruction::RANNext,
            14 => RailInstruction::Halt,
            15 => RailInstruction::Noop,
            _ => RailInstruction::Undefined,
        }
    }

    pub fn get_cu_instruction(&self, masked: u8) -> (r: RailInstruction)
        ensures
            r == cu_instruction_of(masked),
    {
        match masked {
            0 => RailInstruction::Equals,
            1 => RailInstruction::NotEquals,
            2 => RailInstruction::LessThan,
            3 => RailInstruction::LessEqualThan,
            4 => RailInstruction::MoreThan,
            5 => RailInstruction::MoreEqualThan,
            6 => RailInstruction::True,
            7 => RailInstruction::False,
            // 8 to 15 are unused encodings
            _ => RailInstruction::Undefined,
        }
    }

    pub fn get_ram_instruction(&self, masked: u8) -> (r: RailInstruction)
        ensures
            r == ram_instruction_of(masked),
    {
        match masked {
            0 => RailInstruction::Read,
            1 => RailInstruction::Write,
            // 2 to 7 are unused encodings
            8 => RailInstruction::SPop,
            9 => RailInstruction::SPush,
            10 => RailInstruction::Ret,
            11 => RailInstruction::Call,
            // 12 to 15 are unused encodings
            _ => RailInstruction::Undefined,
        }
    }

    pub fn get_peripheral_instruction(&self, _masked: u8) -> (r: RailInstruction)
        ensures
            r == RailInstruction::Undefined,
    {
        RailInstruction::Undefined
    }
}

} // verus!
