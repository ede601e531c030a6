//! The executable Rail interpreter.
//!
//! [`RailSystem`] owns the whole architectural state; its view is the
//! mathematical [`RailState`] and every mutating operation is proved to
//! realise the corresponding transition of `rail_state`.  In particular
//! [`RailSystemTrait::step`] implements exactly [`step_state`].
//!
//! Writes to register 15 while IO printing is enabled are collected in an
//! output buffer (the model of the host IO sink) which the host can read
//! through [`RailSystem::get_io_output`].

use crate::rail_instruction::RailInstruction;
use crate::rail_instruction_block::RailInstructionBlock;
use crate::rail_instruction_block::subsystem_of;
use crate::rail_register::BaseRailRegister;
use crate::rail_register::RailRegister;
use crate::rail_state::RailState;
use crate::rail_state::add8;
use crate::rail_state::cu_state;
use crate::rail_state::alu_state;
use crate::rail_state::exec_instr;
use crate::rail_state::init_state;
use crate::rail_state::instr_at;
use crate::rail_state::ram_stack_state;
use crate::rail_state::read_reg;
use crate::rail_state::resolve_arg1;
use crate::rail_state::resolve_arg2;
use crate::rail_state::step_state;
use crate::rail_state::sub8;
use crate::rail_state::write_reg;
use crate::rail_state::xorshift_next;
use crate::rail_subsystem::RailSubSystem;
use vstd::prelude::*;
use vstd::slice::slice_subrange;

verus! {

pub struct RailSystem {
    registers: Vec<RailRegister>,
    ram: Vec<u8>,
    program: Vec<u8>,
    call_stack: Vec<u8>,
    call_stack_ptr: u8,
    gen_stack: Vec<u8>,
    gen_stack_ptr: u8,
    ran_seed: u8,
    is_halted: bool,
    io_out: Vec<u8>,
}

impl View for RailSystem {
    type V = RailState;

    closed spec fn view(&self) -> RailState {
        RailState {
            regs: self.registers@.map_values(|r: RailRegister| r.spec_value()),
            ram: self.ram@,
            prog: self.program@,
            call_stack: self.call_stack@,
            call_ptr: self.call_stack_ptr,
            gen_stack: self.gen_stack@,
            gen_ptr: self.gen_stack_ptr,
            seed: self.ran_seed,
            halted: self.is_halted,
            io_print: self.registers@[15].spec_is_io(),
            io_out: self.io_out@,
        }
    }
}

/// The host-facing interface of a Rail machine.  All behaviour is stated
/// over the machine's mathematical view.
pub trait RailSystemTrait: View<V = RailState> + Sized {
    /// Structural well-formedness: the fixed memory sizes of the machine.
    spec fn wf(&self) -> bool;

    /// Execute one instruction, as given by `step_state`.
    fn step(&mut self)
        requires
            old(self).wf(),
        ensures
            final(self).wf(),
            final(self).view() == step_state(old(self).view()),
    ;

    fn get_register_value(&self, reg: u8) -> (v: u8)
        requires
            self.wf(),
            reg < 16,
        ensures
            v == self.view().regs[reg as int],
    ;

    fn get_cnt_register_value(&self) -> (v: u8)
        requires
            self.wf(),
        ensures
            v == self.view().regs[14],
    ;

    fn get_program_slice(&self, start: u8, end: u8) -> (r: &[u8])
        requires
            self.wf(),
            start <= end,
        ensures
            r@ == self.view().prog.subrange(start as int, end + 1),
    ;

    fn get_ram_slice(&self, start: u8, end: u8) -> (r: &[u8])
        requires
            self.wf(),
            start <= end,
        ensures
            r@ == self.view().ram.subrange(start as int, end + 1),
    ;

    fn get_call_stack_slice(&self, start: u8, end: u8) -> (r: &[u8])
        requires
            self.wf(),
            start <= end,
            end < 128,
        ensures
            r@ == self.view().call_stack.subrange(start as int, end + 1),
    ;

    fn get_call_stack_ptr(&self) -> (p: u8)
        ensures
            p == self.view().call_ptr,
    ;

    fn get_gen_stack_slice(&self, start: u8, end: u8) -> (r: &[u8])
        requires
            self.wf(),
            start <= end,
            end < 128,
        ensures
            r@ == self.view().gen_stack.subrange(start as int, end + 1),
    ;

    fn get_gen_stack_ptr(&self) -> (p: u8)
        ensures
            p == self.view().gen_ptr,
    ;

    fn is_halted(&self) -> (h: bool)
        ensures
            h == self.view().halted,
    ;

    /// Turn the IO-print flag of register 15 on or off.
    fn set_io_print(&mut self, print: bool)
        requires
            old(self).wf(),
        ensures
            final(self).wf(),
            final(self).view() == (RailState { io_print: print, ..old(self).view() }),
    ;

    /// Overwrite the front of program memory with a binary image; the
    /// tail keeps its previous contents.
    fn load_program(&mut self, program_slice: &[u8])
        requires
            old(self).wf(),
            program_slice@.len() <= 256,
        ensures
            final(self).wf(),
            final(self).view() == (RailState {
                prog: program_slice@ + old(self).view().prog.skip(program_slice@.len() as int),
                ..old(self).view()
            }),
    ;
}

impl RailSystemTrait for RailSystem {
    closed spec fn wf(&self) -> bool {
        &&& self.registers@.len() == 16
        &&& self.ram@.len() == 256
        &&& self.program@.len() == 256
        &&& self.call_stack@.len() == 128
        &&& self.gen_stack@.len() == 128
        &&& forall|i: int|
            0 <= i < 16 && i != 15 ==> !(#[trigger] self.registers@[i].spec_is_io())
    }

    fn step(&mut self) {
        let instruction = self.get_next_instruction_block();
        self.process_instruction(&instruction);
    }

    fn get_register_value(&self, reg: u8) -> (v: u8) {
        self.registers[reg as usize].get_value()
    }

    fn get_cnt_register_value(&self) -> (v: u8) {
        self.get_cnt_register().get_value()
    }

    fn get_program_slice(&self, start: u8, end: u8) -> (r: &[u8]) {
        slice_subrange(self.program.as_slice(), start as usize, end as usize + 1)
    }

    fn get_ram_slice(&self, start: u8, end: u8) -> (r: &[u8]) {
        slice_subrange(self.ram.as_slice(), start as usize, end as usize + 1)
    }

    fn get_call_stack_slice(&self, start: u8, end: u8) -> (r: &[u8]) {
        slice_subrange(self.call_stack.as_slice(), start as usize, end as usize + 1)
    }

    fn get_call_stack_ptr(&self) -> (p: u8) {
        self.call_stack_ptr
    }

    fn get_gen_stack_slice(&self, start: u8, end: u8) -> (r: &[u8]) {
        slice_subrange(self.gen_stack.as_slice(), start as usize, end as usize + 1)
    }

    fn get_gen_stack_ptr(&self) -> (p: u8) {
        self.gen_stack_ptr
    }

    fn is_halted(&self) -> (h: bool) {
        self.is_halted
    }

    fn set_io_print(&mut self, print: bool) {
        self.registers[15].set_is_io(print);
        proof {
            assert(self.view() =~= (RailState { io_print: print, ..old(self).view() }));
        }
    }

    fn load_program(&mut self, program_slice: &[u8]) {
        let n = program_slice.len();
        let mut i: usize = 0;
        while i < n
            invariant
                self.wf(),
                i <= n,
                n == program_slice@.len() <= 256,
                forall|j: int| 0 <= j < i ==> self.view().prog[j] == program_slice@[j],
                forall|j: int| i <= j < 256 ==> self.view().prog[j] == old(self).view().prog[j],
                self.view() == (RailState { prog: self.view().prog, ..old(self).view() }),
            decreases n - i,
        {
            self.program[i] = program_slice[i];
            proof {
                assert(self.view() =~= (RailState { prog: self.view().prog, ..old(self).view() }));
            }
            i += 1;
        }
        proof {
            assert(self.view().prog =~= program_slice@ + old(self).view().prog.skip(
                program_slice@.len() as int,
            ));
            assert(self.view() =~= (RailState {
                prog: program_slice@ + old(self).view().prog.skip(program_slice@.len() as int),
                ..old(self).view()
            }));
        }
    }
}

impl RailSystem {
    pub fn new() -> (r: Self)
        ensures
            r.wf(),
            r@ == init_state(),
    {
        let reg = RailRegister::new();
        let mut new_system = Self {
            registers: vec![reg; 16],
            ram: vec![0u8; 256],
            program: vec![0u8; 256],
            call_stack: vec![0u8; 128],
            call_stack_ptr: 0xff,
            gen_stack: vec![0u8; 128],
            gen_stack_ptr: 0xff,
            ran_seed: 0,
            is_halted: false,
            io_out: Vec::new(),
        };
        new_system.registers[15].set_is_io(true);
        proof {
            assert(new_system@.regs =~= init_state().regs);
            assert(new_system@ =~= init_state());
        }
        new_system
    }

    pub fn new_with_program(program_slice: &[u8]) -> (r: Self)
        requires
            program_slice@.len() <= 256,
        ensures
            r.wf(),
            r@ == (RailState {
                prog: program_slice@ + init_state().prog.skip(program_slice@.len() as int),
                ..init_state()
            }),
    {
        let mut new_system = Self::new();
        new_system.load_program(program_slice);
        new_system
    }

    /// The bytes written to the IO register while IO printing was on, in
    /// the order they were written.
    pub fn get_io_output(&self) -> (r: &Vec<u8>)
        ensures
            r@ == self@.io_out,
    {
        &self.io_out
    }

    fn get_cnt_register(&self) -> (r: &RailRegister)
        requires
            self.wf(),
        ensures
            r.spec_value() == self@.regs[14],
    {
        &self.registers[14]
    }

    /// Reading a register field; indices above 15 name no register and
    /// read as zero.
    fn read_register(&self, idx: u8) -> (v: u8)
        requires
            self.wf(),
        ensures
            v == read_reg(self@, idx),
    {
        if idx < 16 {
            self.registers[idx as usize].get_value()
        } else {
            0
        }
    }

    /// Writing a register; indices above 15 name no register and the
    /// write is dropped.  A write to register 15 while IO printing is on
    /// is also appended to the IO output buffer.
    fn write_register(&mut self, idx: u8, value: u8)
        requires
            old(self).wf(),
        ensures
            final(self).wf(),
            final(self)@ == write_reg(old(self)@, idx, value),
    {
        if idx < 16 {
            let i = idx as usize;
            self.registers[i].set_value(value);
            if self.registers[i].is_io() {
                self.io_out.push(value);
            }
            proof {
                assert(self@.regs =~= write_reg(old(self)@, idx, value).regs);
                assert(self@ =~= write_reg(old(self)@, idx, value));
            }
        }
    }

    /// Fetch the four instruction bytes at the program counter (the
    /// addresses wrap at the end of program memory) and advance the
    /// counter by four, so that `CALL` captures the return address.
    fn get_next_instruction_block(&mut self) -> (r: RailInstructionBlock)
        requires
            old(self).wf(),
        ensures
            final(self).wf(),
            final(self)@ == write_reg(old(self)@, 14, add8(old(self)@.regs[14], 4)),
            r == instr_at(old(self)@),
    {
        let cnt = self.get_cnt_register().get_value();
        let b0 = self.program[cnt as usize];
        let b1 = self.program[cnt.wrapping_add(1) as usize];
        let b2 = self.program[cnt.wrapping_add(2) as usize];
        let b3 = self.program[cnt.wrapping_add(3) as usize];
        self.write_register(14, cnt.wrapping_add(4));
        RailInstructionBlock::new(b0, b1, b2, b3)
    }

    fn process_instruction(&mut self, instruction: &RailInstructionBlock)
        requires
            old(self).wf(),
        ensures
            final(self).wf(),
            final(self)@ == exec_instr(old(self)@, *instruction),
    {
        match instruction.get_subsystem() {
            RailSubSystem::Alu => self.process_alu(instruction),
            RailSubSystem::RamStack => self.process_ram_stack(instruction),
            RailSubSystem::CU => self.process_cu(instruction),
            RailSubSystem::Peripheral => {},
            RailSubSystem::Undefined => {},
        }
    }

    fn process_alu(&mut self, instruction: &RailInstructionBlock)
        requires
            old(self).wf(),
            subsystem_of(instruction.op) == RailSubSystem::Alu,
        ensures
            final(self).wf(),
            final(self)@ == alu_state(
                old(self)@,
                instruction.op & 15,
                resolve_arg1(old(self)@, *instruction),
                resolve_arg2(old(self)@, *instruction),
                instruction.result,
            ),
    {
        let op = instruction.get_instruction();
        let arg1 = self.get_arg1_value(instruction);
        let arg2 = self.get_arg2_value(instruction);
        let mut noop_flag = false;
        let res = match op {
            RailInstruction::Add => arg1.wrapping_add(arg2),
            RailInstruction::Sub => arg1.wrapping_sub(arg2),
            RailInstruction::And => arg1 & arg2,
            RailInstruction::Or => arg1 | arg2,
            RailInstruction::Not => !arg1,
            RailInstruction::Xor => arg1 ^ arg2,
            RailInstruction::Shl => arg1 << (arg2 % 8),
            RailInstruction::Shr => arg1 >> (arg2 % 8),
            RailInstruction::RANSetSeed => {
                self.ran_set_seed(arg1);
                noop_flag = true;
                0
            },
            RailInstruction::RANNext => self.ran_next(),
            RailInstruction::Halt => {
                self.is_halted = true;
                noop_flag = true;
                0
            },
            RailInstruction::Noop => {
                noop_flag = true;
                0
            },
            _ => {
                noop_flag = true;
                0
            },
        };

        if noop_flag {
            return ;
        }
        self.write_register(instruction.get_result(), res);
    }

    fn ran_set_seed(&mut self, seed: u8)
        requires
            old(self).wf(),
        ensures
            final(self).wf(),
            final(self)@ == (RailState { seed: seed, ..old(self)@ }),
    {
        self.ran_seed = seed;
    }

    fn ran_next(&mut self) -> (r: u8)
        requires
            old(self).wf(),
        ensures
            final(self).wf(),
            final(self)@ == (RailState { seed: xorshift_next(old(self)@.seed), ..old(self)@ }),
            r == xorshift_next(old(self)@.seed),
    {
        let tmp1 = self.ran_seed ^ (self.ran_seed >> 1);
        let tmp2 = tmp1 ^ (tmp1 << 1);
        self.ran_seed = tmp2 ^ (tmp2 >> 2);
        self.ran_seed
    }

    fn process_ram_stack(&mut self, instruction: &RailInstructionBlock)
        requires
            old(self).wf(),
            subsystem_of(instruction.op) == RailSubSystem::RamStack,
        ensures
            final(self).wf(),
            final(self)@ == ram_stack_state(
                old(self)@,
                instruction.op & 15,
                resolve_arg1(old(self)@, *instruction),
                resolve_arg2(old(self)@, *instruction),
                instruction.result,
            ),
    {
        let op = instruction.get_instruction();
        let source = self.get_arg1_value(instruction);
        let addr = self.get_arg2_value(instruction) as usize;
        let target = instruction.get_ram_target();
        match op {
            RailInstruction::Read => {
                let value = self.ram[addr];
                self.write_register(target, value);
            },
            RailInstruction::Write => {
                let value = self.read_register(source);
                self.ram[addr] = value;
                proof {
                    assert(self@ =~= (RailState {
                        ram: old(self)@.ram.update(addr as int, value),
                        ..old(self)@
                    }));
                }
            },
            RailInstruction::SPop => {
                let value = self.pop_gen_stack();
                self.write_register(target, value);
            },
            RailInstruction::SPush => {
                let value = self.read_register(source);
                self.push_gen_stack(value);
            },
            RailInstruction::Ret => {
                let cnt = self.pop_call_stack();
                self.write_register(14, cnt);
            },
            RailInstruction::Call => {
                let cnt = self.get_cnt_register().get_value();
                self.push_call_stack(cnt);
                self.write_register(14, source);
            },
            _ => {},
        }
    }

    fn process_cu(&mut self, instruction: &RailInstructionBlock)
        requires
            old(self).wf(),
            subsystem_of(instruction.op) == RailSubSystem::CU,
        ensures
            final(self).wf(),
            final(self)@ == cu_state(
                old(self)@,
                instruction.op & 15,
                resolve_arg1(old(self)@, *instruction),
                resolve_arg2(old(self)@, *instruction),
                instruction.result,
            ),
    {
        let op = instruction.get_instruction();
        let arg1 = self.get_arg1_value(instruction);
        let arg2 = self.get_arg2_value(instruction);
        let jmp_addr = instruction.get_cu_addr();

        let do_jmp = match op {
            RailInstruction::Equals => arg1 == arg2,
            RailInstruction::NotEquals => arg1 != arg2,
            RailInstruction::LessThan => arg1 < arg2,
            RailInstruction::LessEqualThan => arg1 <= arg2,
            RailInstruction::MoreThan => arg1 > arg2,
            RailInstruction::MoreEqualThan => arg1 >= arg2,
            RailInstruction::True => true,
            RailInstruction::False => false,
            _ => false,
        };
        if do_jmp {
            self.write_register(14, jmp_addr);
        }
    }

    fn get_arg1_value(&self, instruction: &RailInstructionBlock) -> (v: u8)
        requires
            self.wf(),
        ensures
            v == resolve_arg1(self@, *instruction),
    {
        if instruction.is_arg1_immediate() {
            instruction.arg1
        } else {
            self.read_register(instruction.arg1)
        }
    }

    fn get_arg2_value(&self, instruction: &RailInstructionBlock) -> (v: u8)
        requires
            self.wf(),
        ensures
            v == resolve_arg2(self@, *instruction),
    {
        if instruction.is_arg2_immediate() {
            instruction.arg2
        } else {
            self.read_register(instruction.arg2)
        }
    }

    fn push_call_stack(&mut self, value: u8)
        requires
            old(self).wf(),
        ensures
            final(self).wf(),
            final(self)@ == (RailState {
                call_stack: old(self)@.call_stack.update(
                    (add8(old(self)@.call_ptr, 1) % 128) as int,
                    value,
                ),
                call_ptr: add8(old(self)@.call_ptr, 1),
                ..old(self)@
            }),
    {
        self.call_stack_ptr = self.call_stack_ptr.wrapping_add(1);
        let i = (self.call_stack_ptr % 128) as usize;
        self.call_stack[i] = value;
        proof {
            assert(self@ =~= (RailState {
                call_stack: old(self)@.call_stack.update(
                    (add8(old(self)@.call_ptr, 1) % 128) as int,
                    value,
                ),
                call_ptr: add8(old(self)@.call_ptr, 1),
                ..old(self)@
            }));
        }
    }

    fn pop_call_stack(&mut self) -> (r: u8)
        requires
            old(self).wf(),
        ensures
            final(self).wf(),
            final(self)@ == (RailState { call_ptr: sub8(old(self)@.call_ptr, 1), ..old(self)@ }),
            r == old(self)@.call_stack[(old(self)@.call_ptr % 128) as int],
    {
        let res = self.call_stack[(self.call_stack_ptr % 128) as usize];
        self.call_stack_ptr = self.call_stack_ptr.wrapping_sub(1);
        res
    }

    fn push_gen_stack(&mut self, value: u8)
        requires
            old(self).wf(),
        ensures
            final(self).wf(),
            final(self)@ == (RailState {
                gen_stack: old(self)@.gen_stack.update(
                    (add8(old(self)@.gen_ptr, 1) % 128) as int,
                    value,
                ),
                gen_ptr: add8(old(self)@.gen_ptr, 1),
                ..old(self)@
            }),
    {
        self.gen_stack_ptr = self.gen_stack_ptr.wrapping_add(1);
        let i = (self.gen_stack_ptr % 128) as usize;
        self.gen_stack[i] = value;
        proof {
            assert(self@ =~= (RailState {
                gen_stack: old(self)@.gen_stack.update(
                    (add8(old(self)@.gen_ptr, 1) % 128) as int,
                    value,
                ),
                gen_ptr: add8(old(self)@.gen_ptr, 1),
                ..old(self)@
            }));
        }
    }

    fn pop_gen_stack(&mut self) -> (r: u8)
        requires
            old(self).wf(),
        ensures
            final(self).wf(),
            final(self)@ == (RailState { gen_ptr: sub8(old(self)@.gen_ptr, 1), ..old(self)@ }),
            r == old(self)@.gen_stack[(old(self)@.gen_ptr % 128) as int],
    {
        let res = self.gen_stack[(self.gen_stack_ptr % 128) as usize];
        self.gen_stack_ptr = self.gen_stack_ptr.wrapping_sub(1);
        res
    }
}

} // verus!
