use rail::rail_assembler::RailAssembler;
use rail::rail_assembler::RailAssemblerTrait;
use rail::rail_system::RailSystem;
use rail::rail_system::RailSystemTrait;

fn load_source(rs: &mut RailSystem, source: &str) {
    let rail_assembler = RailAssembler::new();
    let assembled = rail_assembler.assemble(source).unwrap();
    rs.load_program(&assembled[..]);
}

#[test]
fn test_fibonacci() {
    let mut system = RailSystem::new();
    load_source(
        &mut system,
        r#"
                ADD+IM2 R0 1 R1

                LABEL loop
                MOV R2 0 D0
                ADD R1 R2 R2  #this is a comment
                MOV D0 0 R1
                MOV R2 0 IO
                JMP 0 0 loop"#,
    );
    system.set_io_print(false);
    for _i in 0..60 {
        system.step();
    }
    assert_eq!(system.get_register_value(2), 0x90);
}
