use rail::rail_assembler::RailAssembler;
use rail::rail_assembler::RailAssemblerTrait;
use rail::rail_instruction::RailInstruction;
use rail::rail_instruction_block::RailInstructionBlock;
use rail::rail_register::BaseRailRegister;
use rail::rail_register::RailRegister;
use rail::rail_subsystem::RailSubSystem;
use rail::rail_system::RailSystem;
use rail::rail_system::RailSystemTrait;
use rail::rasm_dictionary::RasmDictionary;
use rail::rasm_error::RasmErrorKind;
use rail::ui::byte_array_in_hex;
use rail::ui::RailTerminalUI;

fn assemble(source: &str) -> Vec<u8> {
    RailAssembler::new().assemble(source).unwrap()
}

fn run(source: &str, steps: usize) -> RailSystem {
    let binary = assemble(source);
    let mut system = RailSystem::new_with_program(&binary[..]);
    system.set_io_print(false);
    for _ in 0..steps {
        system.step();
    }
    system
}

#[test]
fn test_immediate_flags_compose() {
    assert_eq!(assemble("ADD+IM2 0 1 R1"), &[0x40, 0, 1, 1]);
    assert_eq!(assemble("ADD+IM1+IM2 0 1 R1"), &[0xc0, 0, 1, 1]);
}

#[test]
fn test_comments_and_whitespace_do_not_change_bytes() {
    let plain = assemble("ADD 8 12 14\nSUB R1 R2 R3");
    let noisy = assemble("   ADD   8\t12  14   # a comment\n\n  SUB  R1 R2   R3  #x\n");
    assert_eq!(plain, noisy);
}

#[test]
fn test_constant_replacement_chain() {
    assert_eq!(assemble("CONST FIVE 5\nADD FIVE 0 0"), &[0x00, 5, 0, 0]);
    assert_eq!(assemble("CONST A B\nCONST B 7\nADD A 0 0"), &[0x00, 7, 0, 0]);
}

#[test]
fn test_label_addresses() {
    // the label binds to 4 times the index of the code line it precedes
    let bytes = assemble("NOOP 0 0 0\nLABEL SPOT\nNOOP 0 0 0\nJMP 0 0 SPOT");
    assert_eq!(bytes, &[0x0f, 0, 0, 0, 0x0f, 0, 0, 0, 0x26, 0, 0, 4]);
}

#[test]
fn test_error_unknown_symbol() {
    let err = RailAssembler::new().assemble("FOO 1 2 3").unwrap_err();
    assert_eq!(err.line_number, 1);
    assert!(matches!(err.kind, RasmErrorKind::UnknownSymbol(_)));
}

#[test]
fn test_error_malformed_literal() {
    let err = RailAssembler::new().assemble("ADD 0xZZ 0 0").unwrap_err();
    assert!(matches!(err.kind, RasmErrorKind::MalformedLiteral(_)));
    let err = RailAssembler::new().assemble("ADD 300 0 0").unwrap_err();
    assert!(matches!(err.kind, RasmErrorKind::MalformedLiteral(_)));
}

#[test]
fn test_error_duplicate_label() {
    let err = RailAssembler::new().assemble("LABEL A\nNOOP 0 0 0\nLABEL A").unwrap_err();
    assert_eq!(err.line_number, 3);
    assert!(matches!(err.kind, RasmErrorKind::DuplicateLabel(_)));
}

#[test]
fn test_error_truncated_directive() {
    let err = RailAssembler::new().assemble("LABEL").unwrap_err();
    assert!(matches!(err.kind, RasmErrorKind::TruncatedDirective));
    let err = RailAssembler::new().assemble("CONST ONLYNAME").unwrap_err();
    assert!(matches!(err.kind, RasmErrorKind::TruncatedDirective));
}

#[test]
fn test_error_constant_cycle() {
    let err = RailAssembler::new().assemble("CONST A B\nCONST B A\nADD A 0 0").unwrap_err();
    assert!(matches!(err.kind, RasmErrorKind::ConstantCycle(_)));
}

#[test]
fn test_v2_immediate_star() {
    let bytes = assemble("# &rail-asm-v2\nMOV *5 R1");
    assert_eq!(bytes, &[0xc0, 5, 0, 1]);
}

#[test]
fn test_v2_short_forms() {
    let bytes = assemble("#&rail-asm-v2\nJMP 8\nNOOP\nRET");
    assert_eq!(bytes, &[0x26, 0, 0, 8, 0x0f, 0, 0, 0, 0x1a, 0, 0, 0]);
}

#[test]
fn test_v2_stack_macros() {
    let bytes = assemble("#&rail-asm-v2\n!ST< 1 2\n!ST> R1 R2");
    assert_eq!(
        bytes,
        &[0x99, 1, 0, 0, 0x99, 2, 0, 0, 0x18, 0, 0, 2, 0x18, 0, 0, 1]
    );
}

#[test]
fn test_call_and_ret_round_trip() {
    let system = run("CALL 8 0 0\nNOOP 0 0 0\nRET 0 0 0", 1);
    assert_eq!(system.get_cnt_register_value(), 8);
    assert_eq!(system.get_call_stack_ptr(), 0);
    assert_eq!(system.get_call_stack_slice(0, 3)[0], 4);
    let system = run("CALL 8 0 0\nNOOP 0 0 0\nRET 0 0 0", 2);
    assert_eq!(system.get_cnt_register_value(), 4);
    assert_eq!(system.get_call_stack_ptr(), 0xff);
}

#[test]
fn test_push_then_pop_restores() {
    let system = run("MOV R0 7 R1\nS_PUSH+IM1 1 0 0\nS_POP 0 0 R2", 3);
    assert_eq!(system.get_register_value(2), 7);
    assert_eq!(system.get_gen_stack_ptr(), 0xff);
    assert_eq!(system.get_gen_stack_slice(0, 3)[0], 7);
}

#[test]
fn test_pop_of_untouched_stack_wraps() {
    let system = run("S_POP 0 0 R1", 1);
    assert_eq!(system.get_register_value(1), 0);
    assert_eq!(system.get_gen_stack_ptr(), 0xfe);
}

#[test]
fn test_add_wraps() {
    // 200 + 100 wraps to 44
    let system = run("ADD+IM1+IM2 200 100 R1", 1);
    assert_eq!(system.get_register_value(1), 44);
}

#[test]
fn test_sub_wraps() {
    // 3 - 5 wraps to 0xFE
    let system = run("SUB+IM1+IM2 3 5 R1", 1);
    assert_eq!(system.get_register_value(1), 0xfe);
}

#[test]
fn test_cnt_wraps_at_end_of_memory() {
    // jump to 252, then one fetch wraps the counter back to 0
    let system = run("JMP 0 0 252", 2);
    assert_eq!(system.get_cnt_register_value(), 0);
}

#[test]
fn test_io_output_collected() {
    let binary = assemble("ADD+IM2 0 9 IO");
    let mut system = RailSystem::new_with_program(&binary[..]);
    system.step();
    assert_eq!(system.get_io_output(), &vec![9u8]);
}

#[test]
fn test_io_output_suppressed() {
    let binary = assemble("ADD+IM2 0 9 IO");
    let mut system = RailSystem::new_with_program(&binary[..]);
    system.set_io_print(false);
    system.step();
    assert!(system.get_io_output().is_empty());
}

#[test]
fn test_halt_sets_flag() {
    // opcode 0x0E is HALT; write the instruction as a literal opcode
    let system = run("0x0E 0 0 0", 1);
    assert!(system.is_halted());
    let system = run("NOOP 0 0 0", 1);
    assert!(!system.is_halted());
}

#[test]
fn test_ram_read_back() {
    let system = run("MOV R0 0x2A R1\nRAM_W+IM1+IM2 1 20 0\nRAM_R+IM2 0 20 R3", 3);
    assert_eq!(system.get_register_value(3), 0x2a);
    assert_eq!(system.get_ram_slice(20, 20), &[0x2a]);
}

#[test]
fn test_dictionary_translate() {
    assert_eq!(RasmDictionary::translate("ADD"), Ok(0x00));
    assert_eq!(RasmDictionary::translate("CALL"), Ok(0x9b));
    assert_eq!(RasmDictionary::translate("MOV"), Ok(0x40));
    assert_eq!(RasmDictionary::translate("JMP"), Ok(0x26));
    assert_eq!(RasmDictionary::translate("IO"), Ok(0x0f));
    assert!(RasmDictionary::translate("NOPE").is_err());
}

#[test]
fn test_instruction_block_decode() {
    let block = RailInstructionBlock::new(0x91, 2, 4, 0);
    assert_eq!(block.get_subsystem(), RailSubSystem::RamStack);
    assert_eq!(block.get_instruction(), RailInstruction::Write);
    assert!(block.is_arg1_immediate());
    assert!(!block.is_arg2_immediate());
    let block = RailInstructionBlock::new(0x26, 0, 0, 8);
    assert_eq!(block.get_subsystem(), RailSubSystem::CU);
    assert_eq!(block.get_instruction(), RailInstruction::True);
    assert_eq!(block.get_cu_addr(), 8);
}

#[test]
fn test_rail_register() {
    let mut reg = RailRegister::new();
    assert_eq!(reg.get_value(), 0);
    assert!(!reg.is_io());
    reg.set_value(0x55);
    assert_eq!(reg.get_value(), 0x55);
    reg.set_is_io(true);
    assert!(reg.is_io());
}

#[test]
fn test_hex_rendering() {
    assert_eq!(RailTerminalUI::hex_str(0xab), "AB");
    assert_eq!(RailTerminalUI::get_byte_in_hex(0x07, "0x"), "0x07");
    assert_eq!(
        byte_array_in_hex(&[0xde, 0xad, 0xbe, 0xef, 0x01], ""),
        "DE AD BE EF \n01 "
    );
}

#[test]
fn test_seven_segment_patterns() {
    let segs = RailTerminalUI::get_segs_for_nibble(1);
    assert_eq!(segs, vec!["   ", "  |", "  |"]);
    let rows = RailTerminalUI::get_segs_for_byte(0x10);
    assert_eq!(rows, vec!["     _ ", "  | | |", "  | |_|"]);
}

#[test]
fn test_bit_positions() {
    assert!(RailTerminalUI::is_bit_pos_on(0x80, 0));
    assert!(!RailTerminalUI::is_bit_pos_on(0x80, 7));
    assert!(RailTerminalUI::is_bit_pos_on(0x01, 7));
}

#[test]
fn test_terminal_ui_steps_machine() {
    let binary = assemble("ADD+IM2 0 1 R1");
    let mut ui = RailTerminalUI::new(RailSystem::new_with_program(&binary[..]));
    ui.step();
    assert_eq!(ui.system().get_register_value(1), 1);
    assert_eq!(ui.system().get_cnt_register_value(), 4);
}

#[test]
fn test_fibonacci_reference_image() {
    let image: [u8; 36] = [
        0x40, 0x00, 0x01, 0x01, 0x40, 0x0b, 0x01, 0x0b, 0x40, 0x02, 0x00, 0x0a, 0x00, 0x01,
        0x02, 0x02, 0x40, 0x0a, 0x00, 0x01, 0x40, 0x02, 0x00, 0x0f, 0x91, 0x02, 0x04, 0x00,
        0x00, 0x0b, 0x04, 0x04, 0x26, 0x00, 0x00, 0x08,
    ];
    let mut system = RailSystem::new_with_program(&image);
    system.set_io_print(false);
    for _ in 0..81 {
        system.step();
    }
    assert_eq!(system.get_register_value(2), 0x90);
}
