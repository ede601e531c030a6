//! The mathematical model of a Rail machine and its single-step transition
//! function.
//!
//! [`RailState`] captures the whole architectural state.  [`step_state`]
//! gives the meaning of one execution step: fetch four bytes at the program
//! counter, advance the counter by four (8-bit wrapping), resolve the two
//! operands against the immediate-mode bits, and apply the selected
//! subsystem's effect.  The executable interpreter in `rail_system` is
//! proved to realise exactly this function.

use crate::rail_instruction_block::RailInstructionBlock;
use vstd::prelude::*;

verus! {

/// The architectural state of a Rail machine.
///
/// Sizes are fixed by the architecture: 16 registers (register 14 is the
/// program counter `CNT`, register 15 is `IO`), 256 bytes of program
/// memory, 256 bytes of RAM, and two independent 128-byte stacks, each
/// with an 8-bit cursor that wraps silently.  `io_out` records every byte
/// written to register 15 while `io_print` is set; it models the
/// host-provided IO sink.
#[verifier::ext_equal]
pub struct RailState {
    pub regs: Seq<u8>,
    pub ram: Seq<u8>,
    pub prog: Seq<u8>,
    pub call_stack: Seq<u8>,
    pub call_ptr: u8,
    pub gen_stack: Seq<u8>,
    pub gen_ptr: u8,
    pub seed: u8,
    pub halted: bool,
    pub io_print: bool,
    pub io_out: Seq<u8>,
}

/// The fixed sizes of every Rail machine.
pub open spec fn state_wf(s: RailState) -> bool {
    &&& s.regs.len() == 16
    &&& s.ram.len() == 256
    &&& s.prog.len() == 256
    &&& s.call_stack.len() == 128
    &&& s.gen_stack.len() == 128
}

/// The state of a freshly powered machine: everything zeroed, both stack
/// cursors at 0xFF (so the first push lands at index 0), IO printing on.
pub open spec fn init_state() -> RailState {
    RailState {
        regs: Seq::new(16, |i: int| 0u8),
        ram: Seq::new(256, |i: int| 0u8),
        prog: Seq::new(256, |i: int| 0u8),
        call_stack: Seq::new(128, |i: int| 0u8),
        call_ptr: 0xff,
        gen_stack: Seq::new(128, |i: int| 0u8),
        gen_ptr: 0xff,
        seed: 0,
        halted: false,
        io_print: true,
        io_out: Seq::empty(),
    }
}

/// 8-bit wrapping addition.
pub open spec fn add8(a: u8, b: u8) -> u8 {
    ((a + b) % 256) as u8
}

/// 8-bit wrapping subtraction.
pub open spec fn sub8(a: u8, b: u8) -> u8 {
    ((a - b + 256) % 256) as u8
}

/// Reading a register field: indices above 15 name no register and read
/// as zero.
pub open spec fn read_reg(s: RailState, idx: u8) -> u8 {
    if idx < 16 {
        s.regs[idx as int]
    } else {
        0
    }
}

/// Writing a register: indices above 15 name no register and the write is
/// dropped.  A write to register 15 while IO printing is on also appends
/// the byte to the IO output.
pub open spec fn write_reg(s: RailState, idx: u8, value: u8) -> RailState {
    if idx < 16 {
        let s2 = RailState { regs: s.regs.update(idx as int, value), ..s };
        if idx == 15 && s.io_print {
            RailState { io_out: s2.io_out.push(value), ..s2 }
        } else {
            s2
        }
    } else {
        s
    }
}

/// The byte-wide xorshift random-number generator.
pub open spec fn xorshift_next(seed: u8) -> u8 {
    let tmp1 = seed ^ (seed >> 1);
    let tmp2 = tmp1 ^ (tmp1 << 1);
    tmp2 ^ (tmp2 >> 2)
}

/// The instruction word fetched at the current program counter; the four
/// byte addresses wrap at the end of program memory.
pub open spec fn instr_at(s: RailState) -> RailInstructionBlock {
    let pc = s.regs[14];
    RailInstructionBlock {
        op: s.prog[pc as int],
        arg1: s.prog[add8(pc, 1) as int],
        arg2: s.prog[add8(pc, 2) as int],
        result: s.prog[add8(pc, 3) as int],
    }
}

/// The first operand: an immediate literal when opcode bit 7 is set, else
/// the content of the named register.
pub open spec fn resolve_arg1(s: RailState, ins: RailInstructionBlock) -> u8 {
    if ins.op & 128 == 128 {
        ins.arg1
    } else {
        read_reg(s, ins.arg1)
    }
}

/// The second operand: an immediate literal when opcode bit 6 is set, else
/// the content of the named register.
pub open spec fn resolve_arg2(s: RailState, ins: RailInstructionBlock) -> u8 {
    if ins.op & 64 == 64 {
        ins.arg2
    } else {
        read_reg(s, ins.arg2)
    }
}

/// Effect of an ALU operation (subsystem 00).  `op` is the low four opcode
/// bits, `arg1` and `arg2` the resolved operands, `res` the result byte.
pub open spec fn alu_state(s: RailState, op: u8, arg1: u8, arg2: u8, res: u8) -> RailState {
    if op == 0 {
        write_reg(s, res, add8(arg1, arg2))
    } else if op == 1 {
        write_reg(s, res, sub8(arg1, arg2))
    } else if op == 2 {
        write_reg(s, res, arg1 & arg2)
    } else if op == 3 {
        write_reg(s, res, arg1 | arg2)
    } else if op == 4 {
        write_reg(s, res, !arg1)
    } else if op == 5 {
        write_reg(s, res, arg1 ^ arg2)
    } else if op == 6 {
        write_reg(s, res, arg1 << (arg2 % 8))
    } else if op == 7 {
        write_reg(s, res, arg1 >> (arg2 % 8))
    } else if op == 12 {
        RailState { seed: arg1, ..s }
    } else if op == 13 {
        write_reg(RailState { seed: xorshift_next(s.seed), ..s }, res, xorshift_next(s.seed))
    } else if op == 14 {
        RailState { halted: true, ..s }
    } else {
        s
    }
}

/// Effect of a RAM or stack operation (subsystem 01).  `arg1` and `arg2`
/// are the resolved operands; for `WRITE` and `S_PUSH` the resolved first
/// operand names the source register, for `CALL` it is the jump target.
/// Stack cells are addressed by the cursor modulo the stack size.
pub open spec fn ram_stack_state(s: RailState, op: u8, arg1: u8, arg2: u8, res: u8) -> RailState {
    if op == 0 {
        write_reg(s, res, s.ram[arg2 as int])
    } else if op == 1 {
        RailState { ram: s.ram.update(arg2 as int, read_reg(s, arg1)), ..s }
    } else if op == 8 {
        let value = s.gen_stack[(s.gen_ptr % 128) as int];
        write_reg(RailState { gen_ptr: sub8(s.gen_ptr, 1), ..s }, res, value)
    } else if op == 9 {
        let ptr = add8(s.gen_ptr, 1);
        RailState {
            gen_stack: s.gen_stack.update((ptr % 128) as int, read_reg(s, arg1)),
            gen_ptr: ptr,
            ..s
        }
    } else if op == 10 {
        let value = s.call_stack[(s.call_ptr % 128) as int];
        write_reg(RailState { call_ptr: sub8(s.call_ptr, 1), ..s }, 14, value)
    } else if op == 11 {
        let ptr = add8(s.call_ptr, 1);
        let pushed = RailState {
            call_stack: s.call_stack.update((ptr % 128) as int, s.regs[14]),
            call_ptr: ptr,
            ..s
        };
        write_reg(pushed, 14, arg1)
    } else {
        s
    }
}

/// Effect of a control-unit operation (subsystem 10): compare the resolved
/// operands and, when the predicate holds, load `res` into the program
/// counter.
pub open spec fn cu_state(s: RailState, op: u8, arg1: u8, arg2: u8, res: u8) -> RailState {
    let taken = cu_condition(op, arg1, arg2);
    if taken {
        write_reg(s, 14, res)
    } else {
        s
    }
}

/// The comparison predicate of a control-unit operation.
pub open spec fn cu_condition(op: u8, arg1: u8, arg2: u8) -> bool {
    if op == 0 {
        arg1 == arg2
    } else if op == 1 {
        arg1 != arg2
    } else if op == 2 {
        arg1 < arg2
    } else if op == 3 {
        arg1 <= arg2
    } else if op == 4 {
        arg1 > arg2
    } else if op == 5 {
        arg1 >= arg2
    } else if op == 6 {
        true
    } else {
        false
    }
}

/// Execution of an already-fetched instruction against a state whose
/// program counter has already advanced past it.
pub open spec fn exec_instr(s: RailState, ins: RailInstructionBlock) -> RailState {
    let arg1 = resolve_arg1(s, ins);
    let arg2 = resolve_arg2(s, ins);
    let sel = (ins.op & 48) >> 4;
    let op = ins.op & 15;
    if sel == 0 {
        alu_state(s, op, arg1, arg2, ins.result)
    } else if sel == 1 {
        ram_stack_state(s, op, arg1, arg2, ins.result)
    } else if sel == 2 {
        cu_state(s, op, arg1, arg2, ins.result)
    } else {
        s
    }
}

/// One full execution step: fetch, advance the program counter by four
/// (so that `CALL` captures the address of the next instruction), then
/// execute.
pub open spec fn step_state(s: RailState) -> RailState {
    exec_instr(write_reg(s, 14, add8(s.regs[14], 4)), instr_at(s))
}

/// The state after the fetch phase of a step: the program counter has
/// advanced past the instruction about to execute.
pub open spec fn advanced(s: RailState) -> RailState {
    write_reg(s, 14, add8(s.regs[14], 4))
}

/// The subsystem selector bits of the instruction about to execute.
pub open spec fn cur_sel(s: RailState) -> u8 {
    (instr_at(s).op & 48) >> 4
}

/// The operation bits of the instruction about to execute.
pub open spec fn cur_op(s: RailState) -> u8 {
    instr_at(s).op & 15
}

/// The instruction about to execute is a control-unit operation whose
/// predicate holds, so the jump is taken.
pub open spec fn cur_is_cu_taken(s: RailState) -> bool {
    let ins = instr_at(s);
    cur_sel(s) == 2 && cu_condition(
        cur_op(s),
        resolve_arg1(advanced(s), ins),
        resolve_arg2(advanced(s), ins),
    )
}

/// The instruction about to execute is `CALL`.
pub open spec fn cur_is_call(s: RailState) -> bool {
    cur_sel(s) == 1 && cur_op(s) == 11
}

/// The instruction about to execute is `RET`.
pub open spec fn cur_is_ret(s: RailState) -> bool {
    cur_sel(s) == 1 && cur_op(s) == 10
}

/// The instruction about to execute writes its result into register 14,
/// overwriting the program counter directly.
pub open spec fn cur_writes_cnt(s: RailState) -> bool {
    let op = cur_op(s);
    ||| (cur_sel(s) == 0 && (op <= 7 || op == 13) && instr_at(s).result == 14)
    ||| (cur_sel(s) == 1 && (op == 0 || op == 8) && instr_at(s).result == 14)
}

/// The value that an `S_PUSH` about to execute would push: the content of
/// the register named by its resolved first operand.
pub open spec fn push_source_value(s: RailState) -> u8 {
    read_reg(advanced(s), resolve_arg1(advanced(s), instr_at(s)))
}

/// After a step, the program counter has advanced by exactly four
/// (mod 256), provided the executed instruction was not a control-unit
/// branch taken, not `CALL`, not `RET`, and did not write its result into
/// register 14.
pub proof fn lemma_step_advances_cnt(s: RailState)
    requires
        state_wf(s),
        !cur_is_cu_taken(s),
        !cur_is_call(s),
        !cur_is_ret(s),
        !cur_writes_cnt(s),
    ensures
        step_state(s).regs[14] == add8(s.regs[14], 4),
{
}

/// A `CALL` pushes the address of the following instruction onto the call
/// stack, pre-incrementing the 8-bit cursor, and loads its resolved first
/// operand into the program counter.
pub proof fn lemma_call_pushes(s: RailState)
    requires
        state_wf(s),
        cur_is_call(s),
    ensures
        step_state(s).call_ptr == add8(s.call_ptr, 1),
        step_state(s).call_stack == s.call_stack.update(
            (add8(s.call_ptr, 1) % 128) as int,
            add8(s.regs[14], 4),
        ),
        step_state(s).regs[14] == resolve_arg1(advanced(s), instr_at(s)),
{
}

/// A `RET` pops the call stack into the program counter, decrementing the
/// 8-bit cursor.
pub proof fn lemma_ret_pops(s: RailState)
    requires
        state_wf(s),
        cur_is_ret(s),
    ensures
        step_state(s).call_ptr == sub8(s.call_ptr, 1),
        step_state(s).regs[14] == s.call_stack[(s.call_ptr % 128) as int],
{
}

/// For every `CALL` followed by its matching `RET` — a later state whose
/// call-stack cursor and contents are those left by the `CALL` — the
/// cursor returns to its pre-call value and the program counter lands on
/// the byte after the `CALL`.
#[verifier::rlimit(60)]
pub proof fn lemma_call_then_ret(s: RailState, t: RailState)
    requires
        state_wf(s),
        state_wf(t),
        cur_is_call(s),
        cur_is_ret(t),
        t.call_ptr == step_state(s).call_ptr,
        t.call_stack == step_state(s).call_stack,
    ensures
        step_state(t).call_ptr == s.call_ptr,
        step_state(t).regs[14] == add8(s.regs[14], 4),
{
    lemma_call_pushes(s);
    lemma_ret_pops(t);
    assert(t.call_ptr == add8(s.call_ptr, 1));
    assert(sub8(add8(s.call_ptr, 1), 1) == s.call_ptr);
    assert(t.call_stack[(t.call_ptr % 128) as int] == add8(s.regs[14], 4));
}

/// An `S_PUSH` stores the value of the register named by its resolved
/// first operand at the pre-incremented cursor of the general stack.
pub proof fn lemma_push_stores(s: RailState)
    requires
        state_wf(s),
        cur_sel(s) == 1,
        cur_op(s) == 9,
    ensures
        step_state(s).gen_ptr == add8(s.gen_ptr, 1),
        step_state(s).gen_stack == s.gen_stack.update(
            (add8(s.gen_ptr, 1) % 128) as int,
            push_source_value(s),
        ),
{
}

/// An `S_POP` loads the byte under the general-stack cursor into the
/// result register and decrements the cursor.
pub proof fn lemma_pop_loads(s: RailState)
    requires
        state_wf(s),
        cur_sel(s) == 1,
        cur_op(s) == 8,
        instr_at(s).result < 16,
    ensures
        step_state(s).gen_ptr == sub8(s.gen_ptr, 1),
        step_state(s).regs[instr_at(s).result as int] == s.gen_stack[(s.gen_ptr % 128) as int],
{
}

/// For every `S_PUSH` of a value `v` followed by its matching `S_POP`
/// into register `r` — a later state whose general-stack cursor and
/// contents are those left by the `S_PUSH` — register `r` holds `v`
/// afterwards and the cursor returns to its pre-push value.
#[verifier::rlimit(60)]
pub proof fn lemma_push_then_pop(s: RailState, t: RailState)
    requires
        state_wf(s),
        state_wf(t),
        cur_sel(s) == 1,
        cur_op(s) == 9,
        cur_sel(t) == 1,
        cur_op(t) == 8,
        instr_at(t).result < 16,
        t.gen_ptr == step_state(s).gen_ptr,
        t.gen_stack == step_state(s).gen_stack,
    ensures
        step_state(t).gen_ptr == s.gen_ptr,
        step_state(t).regs[instr_at(t).result as int] == push_source_value(s),
{
    lemma_push_stores(s);
    lemma_pop_loads(t);
    assert(t.gen_ptr == add8(s.gen_ptr, 1));
    assert(sub8(add8(s.gen_ptr, 1), 1) == s.gen_ptr);
    assert(t.gen_stack[(t.gen_ptr % 128) as int] == push_source_value(s));
}

/// `ADD` is 8-bit wrapping: executing `ADD+IM1+IM2 a b r` leaves
/// `(a + b) mod 256` in register `r`, for all `a` and `b`.
pub proof fn lemma_add_wraps(s: RailState, a: u8, b: u8, r: u8)
    requires
        state_wf(s),
        instr_at(s) == (RailInstructionBlock { op: 0xc0u8, arg1: a, arg2: b, result: r }),
        r < 16,
    ensures
        step_state(s).regs[r as int] == (a + b) % 256,
{
    assert((0xc0u8 & 48) >> 4 == 0 && 0xc0u8 & 15 == 0 && 0xc0u8 & 128 == 128 && 0xc0u8 & 64
        == 64) by (bit_vector);
}

/// `SUB` is 8-bit wrapping: executing `SUB+IM1+IM2 a b r` leaves
/// `(a - b) mod 256` in register `r`, for all `a` and `b`.
pub proof fn lemma_sub_wraps(s: RailState, a: u8, b: u8, r: u8)
    requires
        state_wf(s),
        instr_at(s) == (RailInstructionBlock { op: 0xc1u8, arg1: a, arg2: b, result: r }),
        r < 16,
    ensures
        step_state(s).regs[r as int] == (a - b + 256) % 256,
{
    assert((0xc1u8 & 48) >> 4 == 0 && 0xc1u8 & 15 == 1 && 0xc1u8 & 128 == 128 && 0xc1u8 & 64
        == 64) by (bit_vector);
}

} // verus!
