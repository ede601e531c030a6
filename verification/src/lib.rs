//! A simulator and assembler for the Rail architecture: a small 8-bit
//! instruction set with 16 registers, 256 bytes of program memory, 256
//! bytes of RAM and two 128-byte hardware stacks.
//!
//! The machine semantics are given once, mathematically, as a transition
//! function over [`rail_state::RailState`]; the executable interpreter in
//! [`rail_system`] is proved to implement that transition function step by
//! step.  The assembler in [`rail_assembler`] is likewise proved to emit
//! exactly the bytes described by its specification.

pub mod rail_assembler;
pub mod rail_instruction;
pub mod rail_instruction_block;
pub mod rail_register;
pub mod rail_state;
pub mod rail_subsystem;
pub mod rail_system;
pub mod rasm_dictionary;
pub mod rasm_error;
pub mod rasm_line;
pub mod rasm_spec;
pub mod rasm_text;
pub mod ui;
