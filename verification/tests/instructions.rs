use rpx86::emulator::{EmuError, Emulator, GPR};
use rpx86::instruction::operation::{
    add_rm32_r32, call_rel32, code_83, code_ff, in_al_dx, jc, jl, jnz, leave, mov_r32_imm32,
    mov_r32_rm32, mov_rm32_imm32, mov_rm32_r32, near_jump, out_dx_al, pop32, pop_r32, push32,
    push_imm32, push_imm8, push_r32, ret, short_jump,
};
use rpx86::instruction::io::{in8, out8};

fn emulator_with(bytes: Vec<u8>, eip: u32, esp: u32) -> Emulator {
    let mut emu = Emulator::new(0x200, eip, esp);
    emu.load_bin(bytes, eip).unwrap();
    emu
}

#[test]
fn mov_r32_imm32_loads_the_selected_register() {
    let mut emu = emulator_with(vec![0xBB, 0x44, 0x33, 0x22, 0x11], 0x100, 0x1F0);
    mov_r32_imm32(&mut emu).unwrap();
    assert_eq!(emu.get_gpr_value(&GPR::EBX), 0x11223344);
    assert_eq!(emu.get_eip(), 0x105);
}

#[test]
fn mov_r32_imm32_rejects_foreign_opcode() {
    let mut emu = emulator_with(vec![0xC0, 0, 0, 0, 0], 0x100, 0x1F0);
    assert_eq!(
        mov_r32_imm32(&mut emu).unwrap_err(),
        EmuError::InvalidRegister { encoding: 8 }
    );
    assert_eq!(emu.get_eip(), 0x100);
}

#[test]
fn short_jump_back_two_lands_on_itself() {
    let mut emu = emulator_with(vec![0xEB, 0xFE], 0x10, 0x1F0);
    short_jump(&mut emu).unwrap();
    assert_eq!(emu.get_eip(), 0x10);
}

#[test]
fn short_jump_forward() {
    let mut emu = emulator_with(vec![0xEB, 0x10], 0x10, 0x1F0);
    short_jump(&mut emu).unwrap();
    assert_eq!(emu.get_eip(), 0x22);
}

#[test]
fn near_jump_applies_dword_displacement() {
    let mut emu = emulator_with(vec![0xE9, 0x10, 0x00, 0x00, 0x00], 0x20, 0x1F0);
    near_jump(&mut emu).unwrap();
    assert_eq!(emu.get_eip(), 0x35);
}

#[test]
fn conditional_jump_taken_and_not_taken() {
    let mut emu = emulator_with(vec![0x72, 0x05], 0x30, 0x1F0);
    emu.update_eflags_sub(0, 1, 0u64.wrapping_sub(1)); // sets carry
    jc(&mut emu).unwrap();
    assert_eq!(emu.get_eip(), 0x37);

    let mut emu = emulator_with(vec![0x72, 0x05], 0x30, 0x1F0);
    emu.update_eflags_sub(5, 5, 0); // clears carry
    jc(&mut emu).unwrap();
    assert_eq!(emu.get_eip(), 0x32);
}

#[test]
fn signed_less_than_jump_uses_sign_and_overflow() {
    // 0 - 1: sign set, overflow clear, so "less than" holds.
    let mut emu = emulator_with(vec![0x7C, 0x08], 0x30, 0x1F0);
    emu.update_eflags_sub(0, 1, 0u64.wrapping_sub(1));
    jl(&mut emu).unwrap();
    assert_eq!(emu.get_eip(), 0x3A);

    // 5 - 5: equal, so "less than" does not hold.
    let mut emu = emulator_with(vec![0x7C, 0x08], 0x30, 0x1F0);
    emu.update_eflags_sub(5, 5, 0);
    jl(&mut emu).unwrap();
    assert_eq!(emu.get_eip(), 0x32);
}

#[test]
fn push_then_pop_is_identity() {
    let mut emu = Emulator::new(0x200, 0x100, 0x1F0);
    push32(&mut emu, 0xDEAD_BEEF).unwrap();
    assert_eq!(emu.get_gpr_value(&GPR::ESP), 0x1EC);
    assert_eq!(emu.get_memory32(0x1EC).unwrap(), 0xDEAD_BEEF);
    let popped = pop32(&mut emu).unwrap();
    assert_eq!(popped, 0xDEAD_BEEF);
    assert_eq!(emu.get_gpr_value(&GPR::ESP), 0x1F0);
}

#[test]
fn push_r32_and_pop_r32_move_a_value_between_registers() {
    // 0x50 pushes EAX; 0x59 pops ECX.
    let mut emu = emulator_with(vec![0x50, 0x59], 0x100, 0x1F0);
    emu.set_gpr(&GPR::EAX, 0xCAFE_F00D);
    push_r32(&mut emu).unwrap();
    assert_eq!(emu.get_gpr_value(&GPR::ESP), 0x1EC);
    pop_r32(&mut emu).unwrap();
    assert_eq!(emu.get_gpr_value(&GPR::ECX), 0xCAFE_F00D);
    assert_eq!(emu.get_gpr_value(&GPR::ESP), 0x1F0);
    assert_eq!(emu.get_eip(), 0x102);
}

#[test]
fn push_overflows_out_of_memory_and_reports_it() {
    let mut emu = Emulator::new(0x100, 0x10, 0x2);
    assert_eq!(push32(&mut emu, 1).unwrap_err(), EmuError::OutOfBounds);
    assert_eq!(emu.get_gpr_value(&GPR::ESP), 0x2);
}

#[test]
fn push_immediates() {
    let mut emu = emulator_with(vec![0x6A, 0x7F], 0x100, 0x1F0);
    push_imm8(&mut emu).unwrap();
    assert_eq!(emu.get_memory32(0x1EC).unwrap(), 0x7F);
    assert_eq!(emu.get_eip(), 0x102);

    let mut emu = emulator_with(vec![0x68, 0x78, 0x56, 0x34, 0x12], 0x100, 0x1F0);
    push_imm32(&mut emu).unwrap();
    assert_eq!(emu.get_memory32(0x1EC).unwrap(), 0x12345678);
    assert_eq!(emu.get_eip(), 0x105);
}

#[test]
fn call_pushes_return_address_and_ret_pops_it() {
    let mut emu = emulator_with(vec![0xE8, 0x03, 0x00, 0x00, 0x00], 0x100, 0x1F0);
    call_rel32(&mut emu).unwrap();
    assert_eq!(emu.get_eip(), 0x108);
    assert_eq!(emu.get_memory32(0x1EC).unwrap(), 0x105);
    ret(&mut emu).unwrap();
    assert_eq!(emu.get_eip(), 0x105);
    assert_eq!(emu.get_gpr_value(&GPR::ESP), 0x1F0);
}

#[test]
fn leave_tears_down_the_stack_frame() {
    let mut emu = Emulator::new(0x200, 0x100, 0x1E0);
    emu.set_gpr(&GPR::EBP, 0x190);
    emu.set_memory32(0x190, 0x7766_5544).unwrap();
    leave(&mut emu).unwrap();
    assert_eq!(emu.get_gpr_value(&GPR::ESP), 0x194);
    assert_eq!(emu.get_gpr_value(&GPR::EBP), 0x7766_5544);
    assert_eq!(emu.get_eip(), 0x101);
}

#[test]
fn add_rm32_r32_adds_without_touching_flags() {
    // 0b11_011_000: register-direct, reg EBX into rm EAX.
    let mut emu = emulator_with(vec![0x01, 0xD8], 0x100, 0x1F0);
    emu.set_gpr(&GPR::EAX, 40);
    emu.set_gpr(&GPR::EBX, 2);
    let flags = emu.get_eflags();
    add_rm32_r32(&mut emu).unwrap();
    assert_eq!(emu.get_gpr_value(&GPR::EAX), 42);
    assert_eq!(emu.get_eflags(), flags);
    assert_eq!(emu.get_eip(), 0x102);
}

#[test]
fn add_wraps_at_thirty_two_bits() {
    let mut emu = emulator_with(vec![0x01, 0xD8], 0x100, 0x1F0);
    emu.set_gpr(&GPR::EAX, 0xFFFF_FFFF);
    emu.set_gpr(&GPR::EBX, 2);
    add_rm32_r32(&mut emu).unwrap();
    assert_eq!(emu.get_gpr_value(&GPR::EAX), 1);
}

#[test]
fn group_83_add_sub_cmp() {
    // add eax, 5 — extension 0, no flag change.
    let mut emu = emulator_with(vec![0x83, 0xC0, 0x05], 0x100, 0x1F0);
    emu.set_gpr(&GPR::EAX, 7);
    code_83(&mut emu).unwrap();
    assert_eq!(emu.get_gpr_value(&GPR::EAX), 12);
    assert_eq!(emu.get_eip(), 0x103);
    assert!(!emu.is_zero());

    // sub eax, 1 — extension 5, flags from the subtraction.
    let mut emu = emulator_with(vec![0x83, 0xE8, 0x01], 0x100, 0x1F0);
    emu.set_gpr(&GPR::EAX, 1);
    code_83(&mut emu).unwrap();
    assert_eq!(emu.get_gpr_value(&GPR::EAX), 0);
    assert!(emu.is_zero());
    assert!(!emu.is_carry());

    // cmp eax, 7 — extension 7, flags only, value untouched.
    let mut emu = emulator_with(vec![0x83, 0xF8, 0x07], 0x100, 0x1F0);
    emu.set_gpr(&GPR::EAX, 3);
    code_83(&mut emu).unwrap();
    assert_eq!(emu.get_gpr_value(&GPR::EAX), 3);
    assert!(emu.is_carry());
    assert!(!emu.is_zero());
}

#[test]
fn group_83_sub_negative_immediate_extends_sign() {
    // sub eax, -1 adds one.
    let mut emu = emulator_with(vec![0x83, 0xE8, 0xFF], 0x100, 0x1F0);
    emu.set_gpr(&GPR::EAX, 10);
    code_83(&mut emu).unwrap();
    assert_eq!(emu.get_gpr_value(&GPR::EAX), 11);
}

#[test]
fn group_83_unknown_extension_is_reported() {
    let mut emu = emulator_with(vec![0x83, 0xC8, 0x01], 0x100, 0x1F0);
    assert_eq!(
        code_83(&mut emu).unwrap_err(),
        EmuError::UnknownExtension { opcode: 0x83, extension: 1 }
    );
    assert_eq!(emu.get_eip(), 0x100);
}

#[test]
fn group_ff_increments() {
    let mut emu = emulator_with(vec![0xFF, 0xC1], 0x100, 0x1F0);
    emu.set_gpr(&GPR::ECX, 41);
    code_ff(&mut emu).unwrap();
    assert_eq!(emu.get_gpr_value(&GPR::ECX), 42);
    assert_eq!(emu.get_eip(), 0x102);

    let mut emu = emulator_with(vec![0xFF, 0xC9], 0x100, 0x1F0);
    assert_eq!(
        code_ff(&mut emu).unwrap_err(),
        EmuError::UnknownExtension { opcode: 0xFF, extension: 1 }
    );
}

#[test]
fn mov_between_register_and_memory() {
    // mov [0x80], ebx: 0x89 with ModR/M 0b00_011_101.
    let mut emu = emulator_with(vec![0x89, 0x1D, 0x80, 0x00, 0x00, 0x00], 0x100, 0x1F0);
    emu.set_gpr(&GPR::EBX, 0x0BAD_CAFE);
    mov_rm32_r32(&mut emu).unwrap();
    assert_eq!(emu.get_memory32(0x80).unwrap(), 0x0BAD_CAFE);
    assert_eq!(emu.get_eip(), 0x106);

    // mov ecx, [0x80]: 0x8B with ModR/M 0b00_001_101.
    let mut emu = emulator_with(vec![0x8B, 0x0D, 0x80, 0x00, 0x00, 0x00], 0x100, 0x1F0);
    emu.set_memory32(0x80, 0x600D_F00D).unwrap();
    mov_r32_rm32(&mut emu).unwrap();
    assert_eq!(emu.get_gpr_value(&GPR::ECX), 0x600D_F00D);
    assert_eq!(emu.get_eip(), 0x106);
}

#[test]
fn mov_rm32_imm32_writes_the_immediate() {
    // mov dword [0x80], 0x11223344: 0xC7 with ModR/M 0b00_000_101.
    let mut emu = emulator_with(
        vec![0xC7, 0x05, 0x80, 0x00, 0x00, 0x00, 0x44, 0x33, 0x22, 0x11],
        0x100,
        0x1F0,
    );
    mov_rm32_imm32(&mut emu).unwrap();
    assert_eq!(emu.get_memory32(0x80).unwrap(), 0x11223344);
    assert_eq!(emu.get_eip(), 0x10A);
}

#[test]
fn failing_instruction_leaves_the_cpu_unchanged() {
    // mov [0x1FE], ebx would write past the end of memory.
    let mut emu = emulator_with(vec![0x89, 0x1D, 0xFE, 0x01, 0x00, 0x00], 0x100, 0x1F0);
    emu.set_gpr(&GPR::EBX, 5);
    assert_eq!(mov_rm32_r32(&mut emu).unwrap_err(), EmuError::OutOfBounds);
    assert_eq!(emu.get_eip(), 0x100);
    assert_eq!(emu.get_gpr_value(&GPR::EBX), 5);
}

#[test]
fn port_rule_wires_only_the_console() {
    assert_eq!(in8(0x03F8, 0x41), 0x41);
    assert_eq!(in8(0x0100, 0x41), 0);
    assert_eq!(out8(0x03F8, 0x42), Some(0x42));
    assert_eq!(out8(0x0100, 0x42), None);
}

#[test]
fn in_al_dx_fills_the_accumulator_low_byte() {
    let mut emu = Emulator::new(0x200, 0x100, 0x1F0);
    emu.set_gpr(&GPR::EDX, 0x03F8);
    emu.set_gpr(&GPR::EAX, 0xAABB_CC00);
    in_al_dx(&mut emu, 0x41);
    assert_eq!(emu.get_gpr_value(&GPR::EAX), 0xAABB_CC41);
    assert_eq!(emu.get_eip(), 0x101);

    // A port that is not the console reads as zero, whatever was supplied.
    emu.set_gpr(&GPR::EDX, 0x1234_0100);
    in_al_dx(&mut emu, 0x41);
    assert_eq!(emu.get_gpr_value(&GPR::EAX), 0xAABB_CC00);
}

#[test]
fn out_dx_al_hands_the_console_byte_back() {
    let mut emu = Emulator::new(0x200, 0x100, 0x1F0);
    emu.set_gpr(&GPR::EDX, 0x03F8);
    emu.set_gpr(&GPR::EAX, 0x1141);
    assert_eq!(out_dx_al(&mut emu), Some(0x41));
    assert_eq!(emu.get_eip(), 0x101);
    emu.set_gpr(&GPR::EDX, 0x0100);
    assert_eq!(out_dx_al(&mut emu), None);
}
