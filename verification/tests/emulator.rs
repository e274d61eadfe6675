use rpx86::emulator::{EmuError, Emulator, GPR};

#[test]
fn emulator_test() {
    let mut emu = Emulator::new(0x3, 0x1111, 0xffff);
    assert!(emu.get_memory8(2).is_ok());
    assert!(emu.get_memory8(3).is_err());
    assert_eq!(emu.get_eip(), 0x1111);
    assert_eq!(emu.get_gpr_value(&GPR::ESP), 0xffff);

    emu.set_gpr(&GPR::EAX, 0xff);
    assert_eq!(emu.get_gpr_value(&GPR::EAX), 0xff);
}

#[test]
fn register_write_read_round_trip() {
    let mut emu = Emulator::new(0x10, 0, 0);
    let values = [7u32, 0, 0xFFFF_FFFF, 1, 0x8000_0000, 42, 13, 99];
    for id in 0u32..8 {
        let reg = emu.get_gpr_id(id).unwrap();
        emu.set_gpr(&reg, values[id as usize]);
    }
    for id in 0u32..8 {
        let reg = emu.get_gpr_id(id).unwrap();
        assert_eq!(emu.get_gpr_value(&reg), values[id as usize]);
    }
}

#[test]
fn register_ids_above_seven_fail() {
    let emu = Emulator::new(0x10, 0, 0);
    assert!(emu.get_gpr_id(8).is_none());
    assert!(emu.get_gpr_id(9).is_none());
    assert!(emu.get_gpr_id(0xFFFF_FFFF).is_none());
    for id in 0u32..8 {
        assert!(emu.get_gpr_id(id).is_some());
    }
}

#[test]
fn eip_advances_signed_both_ways() {
    let mut emu = Emulator::new(0x1000, 0x100, 0);
    emu.inc_eip(-16);
    assert_eq!(emu.get_eip(), 0xF0);
    emu.set_eip(0x100);
    emu.inc_eip(5);
    assert_eq!(emu.get_eip(), 0x105);
}

#[test]
fn dword_write_read_round_trip() {
    let mut emu = Emulator::new(0x100, 0, 0);
    for &v in &[0u32, 1, 0xFF, 0x12345678, 0xFFFFFFFF] {
        emu.set_memory32(0x20, v).unwrap();
        assert_eq!(emu.get_memory32(0x20).unwrap(), v);
    }
}

#[test]
fn dword_store_is_little_endian() {
    let mut emu = Emulator::new(0x100, 0, 0);
    emu.set_memory32(0x10, 0x12345678).unwrap();
    assert_eq!(emu.get_memory8(0x10).unwrap(), 0x78);
    assert_eq!(emu.get_memory8(0x11).unwrap(), 0x56);
    assert_eq!(emu.get_memory8(0x12).unwrap(), 0x34);
    assert_eq!(emu.get_memory8(0x13).unwrap(), 0x12);
}

#[test]
fn memory_access_out_of_bounds_is_reported() {
    let mut emu = Emulator::new(0x10, 0, 0);
    assert_eq!(emu.get_memory8(0x10).unwrap_err(), EmuError::OutOfBounds);
    assert_eq!(emu.get_memory32(0x0D).unwrap_err(), EmuError::OutOfBounds);
    assert_eq!(emu.set_memory8(0x10, 1).unwrap_err(), EmuError::OutOfBounds);
    assert_eq!(
        emu.set_memory32(0x0D, 1).unwrap_err(),
        EmuError::OutOfBounds
    );
    assert!(emu.get_memory32(0x0C).is_ok());
}

#[test]
fn code_fetch_follows_eip() {
    let mut emu = Emulator::new(0x100, 0x40, 0);
    emu.load_bin(vec![0x01, 0x80, 0xFE, 0xCA, 0xFE, 0xCA], 0x40)
        .unwrap();
    assert_eq!(emu.get_code8(0).unwrap(), 0x01);
    assert_eq!(emu.get_signed_code8(1).unwrap(), -128);
    assert_eq!(emu.get_code32(2).unwrap(), 0xCAFE_CAFE);
    assert_eq!(emu.get_signed_code32(2).unwrap(), -0x3501_3502);
    assert_eq!(emu.get_code8(0xC0).unwrap_err(), EmuError::OutOfBounds);
}

#[test]
fn load_bin_copies_and_checks_bounds() {
    let mut emu = Emulator::new(0x10, 0, 0);
    emu.load_bin(vec![1, 2, 3], 0x0D).unwrap();
    assert_eq!(emu.get_memory8(0x0D).unwrap(), 1);
    assert_eq!(emu.get_memory8(0x0E).unwrap(), 2);
    assert_eq!(emu.get_memory8(0x0F).unwrap(), 3);
    assert_eq!(emu.get_memory8(0x0C).unwrap(), 0);
    assert_eq!(
        emu.load_bin(vec![1, 2, 3], 0x0E).unwrap_err(),
        EmuError::OutOfBounds
    );
    assert_eq!(emu.get_memory8(0x0F).unwrap(), 3);
}

#[test]
fn sub_flags_zero_minus_one_sets_carry_and_sign() {
    let mut emu = Emulator::new(0x10, 0, 0);
    let result = (0u64).wrapping_sub(1);
    emu.update_eflags_sub(0, 1, result);
    assert!(emu.is_carry());
    assert!(emu.is_signed());
    assert!(!emu.is_zero());
    assert!(!emu.is_overflow());
}

#[test]
fn sub_flags_five_minus_five_sets_zero_only() {
    let mut emu = Emulator::new(0x10, 0, 0);
    emu.update_eflags_sub(5, 5, 0);
    assert!(emu.is_zero());
    assert!(!emu.is_carry());
    assert!(!emu.is_signed());
    assert!(!emu.is_overflow());
}

#[test]
fn sub_flags_most_negative_minus_one_sets_overflow() {
    let mut emu = Emulator::new(0x10, 0, 0);
    let result = (0x8000_0000u64).wrapping_sub(1);
    emu.update_eflags_sub(0x8000_0000, 1, result);
    assert!(emu.is_overflow());
    assert!(!emu.is_carry());
    assert!(!emu.is_zero());
    assert!(!emu.is_signed());
}

#[test]
fn sub_flags_leave_other_bits_alone() {
    let mut emu = Emulator::new(0x10, 0, 0);
    emu.update_eflags_sub(5, 5, 0);
    let flags_before = emu.get_eflags();
    emu.update_eflags_sub(0, 1, (0u64).wrapping_sub(1));
    let flags_after = emu.get_eflags();
    assert_eq!(flags_before & !0x8C1, flags_after & !0x8C1);
    assert_eq!(flags_after & 0x8C1, 0x81);
}
