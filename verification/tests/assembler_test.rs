use rail::rail_assembler::RailAssembler;
use rail::rail_assembler::RailAssemblerTrait;

fn assemble(source: &str) -> Vec<u8> {
    let rail_assembler = RailAssembler::new();
    rail_assembler.assemble(source).unwrap()
}

#[test]
fn test_num_encode_dec() {
    let assembled = assemble("ADD 8 12 14");
    assert_eq!(assembled, &[0x00, 8, 12, 14]);
}

#[test]
fn test_num_encode_hex() {
    let assembled = assemble("ADD 0x08 0x12 0x14");
    assert_eq!(assembled, &[0x00, 0x08, 0x12, 0x14]);
}

#[test]
fn test_num_encode_oct() {
    let assembled = assemble("ADD 0o07 0o12 0o14");
    assert_eq!(assembled, &[0x00, 0o07, 0o12, 0o14]);
}

#[test]
fn test_num_encode_bin() {
    let assembled = assemble("ADD 0b0101 0b1010 0b1001");
    assert_eq!(assembled, &[0x00, 0b0101, 0b1010, 0b1001]);
}
