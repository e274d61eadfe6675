use rpx86::emulator::modrm::ModRM;
use rpx86::emulator::{EmuError, Emulator, GPR};

fn decoder_at(emu: &mut Emulator, bytes: Vec<u8>, eip: u32) -> ModRM {
    emu.load_bin(bytes, eip).unwrap();
    emu.set_eip(eip);
    let mut modrm = ModRM::new(emu).unwrap();
    modrm.parse_modrm(emu).unwrap();
    modrm
}

#[test]
fn modrm_field_split() {
    let mut emu = Emulator::new(0x100, 0, 0);
    // 0b01_011_010: mode 1, reg 3, rm 2, one displacement byte.
    let modrm = decoder_at(&mut emu, vec![0x5A, 0x7F], 0x10);
    assert_eq!(modrm.get_mod(), 1);
    assert_eq!(modrm.get_reg_index(), 3);
    assert_eq!(modrm.get_opcode(), 3);
    assert_eq!(modrm.get_rm(), 2);
    assert_eq!(modrm.get_disp8(), Some(0x7F));
    assert_eq!(modrm.get_disp32(), None);
    assert_eq!(emu.get_eip(), 0x12);
}

#[test]
fn modrm_disp32_no_base_consumes_five_bytes() {
    let mut emu = Emulator::new(0x100, 0, 0);
    emu.set_gpr(&GPR::EBP, 0x4444_4444);
    // 0b00_000_101: mode 0, rm 5 — disp32 alone, no base register.
    let modrm = decoder_at(&mut emu, vec![0x05, 0x78, 0x56, 0x34, 0x12], 0x20);
    assert_eq!(emu.get_eip(), 0x25);
    assert_eq!(modrm.get_disp32(), Some(0x12345678));
    assert_eq!(modrm.get_sib(), 0);
    let addr = modrm.calc_memory_address(&emu).unwrap();
    assert_eq!(addr, 0x12345678);
    // The address does not depend on any register value.
    emu.set_gpr(&GPR::EBP, 0x9999_9999);
    assert_eq!(modrm.calc_memory_address(&emu).unwrap(), 0x12345678);
}

#[test]
fn modrm_base_plus_disp8_addressing() {
    let mut emu = Emulator::new(0x100, 0, 0);
    emu.set_gpr(&GPR::EBX, 0x50);
    // 0b01_000_011: mode 1, rm 3 (EBX), disp8 -8.
    let modrm = decoder_at(&mut emu, vec![0x43, 0xF8], 0x10);
    assert_eq!(modrm.calc_memory_address(&emu).unwrap(), 0x48);
}

#[test]
fn modrm_base_plus_disp32_addressing() {
    let mut emu = Emulator::new(0x100, 0, 0);
    emu.set_gpr(&GPR::ECX, 0x10);
    // 0b10_000_001: mode 2, rm 1 (ECX), disp32.
    let modrm = decoder_at(&mut emu, vec![0x81, 0x30, 0x00, 0x00, 0x00], 0x10);
    assert_eq!(modrm.calc_memory_address(&emu).unwrap(), 0x40);
}

#[test]
fn modrm_register_direct_operand() {
    let mut emu = Emulator::new(0x100, 0, 0);
    emu.set_gpr(&GPR::EDX, 77);
    // 0b11_000_010: mode 3, rm 2 (EDX).
    let modrm = decoder_at(&mut emu, vec![0xC2], 0x10);
    assert_eq!(modrm.get_rm32(&emu).unwrap(), 77);
    modrm.set_rm32(&mut emu, 88).unwrap();
    assert_eq!(emu.get_gpr_value(&GPR::EDX), 88);
    assert_eq!(
        modrm.calc_memory_address(&emu).unwrap_err(),
        EmuError::NoMemoryOperand
    );
}

#[test]
fn modrm_memory_operand_read_write() {
    let mut emu = Emulator::new(0x100, 0, 0);
    // mode 0, rm 5: absolute address 0x80.
    let modrm = decoder_at(&mut emu, vec![0x05, 0x80, 0x00, 0x00, 0x00], 0x10);
    modrm.set_rm32(&mut emu, 0xAABB_CCDD).unwrap();
    assert_eq!(emu.get_memory32(0x80).unwrap(), 0xAABB_CCDD);
    assert_eq!(modrm.get_rm32(&emu).unwrap(), 0xAABB_CCDD);
}

#[test]
fn modrm_sib_addressing_is_unimplemented() {
    let mut emu = Emulator::new(0x100, 0, 0);
    // 0b00_000_100: mode 0, rm 4 — SIB byte follows and is consumed.
    let modrm = decoder_at(&mut emu, vec![0x04, 0x24], 0x10);
    assert_eq!(emu.get_eip(), 0x12);
    assert_eq!(modrm.get_sib(), 0x24);
    assert_eq!(
        modrm.calc_memory_address(&emu).unwrap_err(),
        EmuError::SibAddressing
    );
    assert_eq!(modrm.get_rm32(&emu).unwrap_err(), EmuError::SibAddressing);
}

#[test]
fn modrm_missing_displacement_is_reported() {
    let mut emu = Emulator::new(0x100, 0, 0);
    emu.load_bin(vec![0x05], 0x10).unwrap();
    emu.set_eip(0x10);
    // Decode the ModR/M byte alone, without parsing the displacement.
    let modrm = ModRM::new(&mut emu).unwrap();
    assert_eq!(
        modrm.calc_memory_address(&emu).unwrap_err(),
        EmuError::MissingDisplacement
    );
}

#[test]
fn modrm_invalid_register_encoding_is_reported() {
    let mut emu = Emulator::new(0x100, 0, 0);
    let mut modrm = decoder_at(&mut emu, vec![0xC2], 0x10);
    modrm.set_regbit(12);
    assert_eq!(
        modrm.get_r32(&emu).unwrap_err(),
        EmuError::InvalidRegister { encoding: 12 }
    );
    modrm.set_mod(1);
    modrm.set_rm(9);
    modrm.set_disp8(4);
    assert_eq!(
        modrm.calc_memory_address(&emu).unwrap_err(),
        EmuError::InvalidRegister { encoding: 9 }
    );
}

#[test]
fn modrm_setters_replace_fields() {
    let mut emu = Emulator::new(0x100, 0, 0);
    let mut modrm = decoder_at(&mut emu, vec![0x00], 0x10);
    modrm.set_mod(2);
    modrm.set_rm(6);
    modrm.set_regbit(5);
    modrm.set_sib(0x33);
    modrm.set_disp8(-4);
    modrm.set_disp32(0x1000);
    assert_eq!(modrm.get_mod(), 2);
    assert_eq!(modrm.get_rm(), 6);
    assert_eq!(modrm.get_reg_index(), 5);
    assert_eq!(modrm.get_sib(), 0x33);
    assert_eq!(modrm.get_disp8(), Some(-4));
    assert_eq!(modrm.get_disp32(), Some(0x1000));
}
