//! The instruction handlers: one routine per supported opcode family, each
//! performing the full effect of one instruction — operand decode, data
//! movement, arithmetic with flag side effects, stack work, control
//! transfer — including advancing the instruction pointer past its own
//! encoding. Each handler's contract states that effect exactly through a
//! `step_*` function on the CPU model; a handler that fails leaves the CPU
//! exactly as it found it.

use crate::emulator::modrm::{
    ModRM, ModRmV, mrm_disp_len, mrm_has_sib, mrm_mode, mrm_reg, mrm_rm, read_rm_spec,
    unsigned_bits, wrapped_add, write_rm_spec,
};
use crate::emulator::{
    CARRY_FLAG, Cpu, EmuError, Emulator, GPR, OVERFLOW_FLAG, SIGN_FLAG, ZERO_FLAG, advanced,
    dword_at, eflags_after_sub, flag_set, lemma_wrap32_in_range, lemma_wrap32_of_wrap64,
    lemma_wrap32_shift, lemma_wrap32_small, lemma_wrap64_in_range, outcome, put_dword, signed32,
    signed8, wrap32, wrap64,
};
use crate::instruction::io::{CONSOLE_PORT, in8, out8};
use vstd::prelude::*;

verus! {

/// The decoded ModR/M value, and the CPU state with the instruction pointer
/// moved past the whole ModR/M sequence, as `ModRM::new` followed by
/// `parse_modrm` leave them; `c` is the state whose instruction pointer
/// stands on the ModR/M byte.
pub open spec fn decode_modrm(c: Cpu) -> Result<(Cpu, ModRmV), EmuError> {
    if !c.in_code(1) {
        Err(EmuError::OutOfBounds)
    } else {
        let b = c.code(0);
        let s: int = if mrm_has_sib(b) {
            1
        } else {
            0
        };
        let d = mrm_disp_len(b);
        if s + d > 0 && !c.in_code(1 + s + d) {
            Err(EmuError::OutOfBounds)
        } else {
            let v = ModRmV {
                mode: mrm_mode(b),
                reg: mrm_reg(b),
                rm: mrm_rm(b),
                sib: if s == 1 {
                    c.mem[c.eip + 1]
                } else {
                    0u8
                },
                disp8: if d == 1 {
                    Some((signed8(c.mem[c.eip + 1 + s]) as i8))
                } else {
                    None
                },
                disp32: if d == 4 {
                    Some((signed32(dword_at(c.mem, c.eip + 1 + s)) as i32))
                } else {
                    None
                },
            };
            Ok((Cpu { eip: (c.eip + 1 + s + d) as u32, ..c }, v))
        }
    }
}

/// The register encoding an opcode of a one-per-register family selects:
/// the opcode byte minus the family's base opcode, wrapped to a byte.
pub open spec fn reg_encoding(op: u8, base: u8) -> int {
    if op >= base {
        op - base
    } else {
        op + 0x100 - base
    }
}

/// What `mov_r32_imm32` does to the CPU: loads the four-byte immediate into
/// the register the opcode selects and advances past the five-byte
/// encoding.
pub open spec fn step_mov_r32_imm32(c: Cpu) -> Result<Cpu, EmuError> {
    if !c.in_code(1) {
        Err(EmuError::OutOfBounds)
    } else {
        let enc = reg_encoding(c.code(0), 0xB8);
        if !c.in_code(5) {
            Err(EmuError::OutOfBounds)
        } else if enc >= 8 {
            Err(EmuError::InvalidRegister { encoding: enc as u32 })
        } else {
            Ok(
                Cpu {
                    regs: c.regs.update(enc, (dword_at(c.mem, c.eip + 1) as u32)),
                    ..advanced(c, 5)
                },
            )
        }
    }
}

/// What `short_jump` does to the CPU: moves the instruction pointer by the
/// one-byte signed displacement plus the two-byte encoding length.
pub open spec fn step_short_jump(c: Cpu) -> Result<Cpu, EmuError> {
    if !c.in_code(2) {
        Err(EmuError::OutOfBounds)
    } else {
        Ok(advanced(c, signed8(c.code(1)) + 2))
    }
}

/// What `near_jump` does to the CPU: moves the instruction pointer by the
/// four-byte signed displacement plus the five-byte encoding length.
pub open spec fn step_near_jump(c: Cpu) -> Result<Cpu, EmuError> {
    if !c.in_code(5) {
        Err(EmuError::OutOfBounds)
    } else {
        Ok(advanced(c, signed32(dword_at(c.mem, c.eip + 1)) + 5))
    }
}

/// What a conditional short jump does to the CPU: when `taken`, the jump of
/// `step_short_jump`; otherwise the pointer merely advances past the
/// two-byte encoding, without touching the displacement byte.
pub open spec fn step_jcc(c: Cpu, taken: bool) -> Result<Cpu, EmuError> {
    if taken {
        step_short_jump(c)
    } else {
        Ok(advanced(c, 2))
    }
}

/// Loads a four-byte immediate into the register selected by the opcode
/// byte itself (opcodes 0xB8 through 0xBF, one per register).
pub fn mov_r32_imm32(emu: &mut Emulator) -> (r: Result<(), EmuError>)
    requires
        old(emu).wf(),
    ensures
        final(emu).wf(),
        outcome(r, final(emu)@) == step_mov_r32_imm32(old(emu)@),
        (r is Err ==> final(emu)@ == old(emu)@),
{
    let op = match emu.get_code8(0) {
        Ok(b) => b,
        Err(e) => {
            return Err(e);
        },
    };
    let enc = reg_encoding_x(op, 0xB8);
    let value = match emu.get_code32(1) {
        Ok(v) => v,
        Err(e) => {
            return Err(e);
        },
    };
    let reg = match emu.get_gpr_id(enc as u32) {
        Some(g) => g,
        None => {
            return Err(EmuError::InvalidRegister { encoding: enc as u32 });
        },
    };
    proof {
        crate::emulator::lemma_gpr_roundtrip(enc as int);
        lemma_wrap32_small(old(emu)@.eip + 5);
    }
    emu.set_gpr(&reg, value);
    emu.inc_eip(5);
    Ok(())
}

/// An unconditional short jump: one-byte signed displacement, two-byte
/// encoding.
pub fn short_jump(emu: &mut Emulator) -> (r: Result<(), EmuError>)
    requires
        old(emu).wf(),
    ensures
        final(emu).wf(),
        outcome(r, final(emu)@) == step_short_jump(old(emu)@),
        (r is Err ==> final(emu)@ == old(emu)@),
{
    let diff = match emu.get_signed_code8(1) {
        Ok(d) => d,
        Err(e) => {
            return Err(e);
        },
    };
    emu.inc_eip(diff as i32 + 2);
    Ok(())
}

/// An unconditional near jump: four-byte signed displacement, five-byte
/// encoding.
pub fn near_jump(emu: &mut Emulator) -> (r: Result<(), EmuError>)
    requires
        old(emu).wf(),
    ensures
        final(emu).wf(),
        outcome(r, final(emu)@) == step_near_jump(old(emu)@),
        (r is Err ==> final(emu)@ == old(emu)@),
{
    let diff = match emu.get_signed_code32(1) {
        Ok(d) => d,
        Err(e) => {
            return Err(e);
        },
    };
    emu.inc_eip(diff);
    proof {
        lemma_wrap32_shift(old(emu)@.eip + diff, 5);
    }
    emu.inc_eip(5);
    Ok(())
}

/// The shared body of the ten conditional short jumps: applies the one-byte
/// displacement only when `taken` holds, else just advances past the
/// two-byte encoding.
fn jump_if(emu: &mut Emulator, taken: bool) -> (r: Result<(), EmuError>)
    requires
        old(emu).wf(),
    ensures
        final(emu).wf(),
        outcome(r, final(emu)@) == step_jcc(old(emu)@, taken),
        (r is Err ==> final(emu)@ == old(emu)@),
{
    let diff: i32 = if taken {
        match emu.get_signed_code8(1) {
            Ok(d) => d as i32,
            Err(e) => {
                return Err(e);
            },
        }
    } else {
        0
    };
    emu.inc_eip(diff + 2);
    Ok(())
}

/// Jump when the carry flag is set.
pub fn jc(emu: &mut Emulator) -> (r: Result<(), EmuError>)
    requires
        old(emu).wf(),
    ensures
        final(emu).wf(),
        outcome(r, final(emu)@) == step_jcc(old(emu)@, flag_set(old(emu)@.eflags, CARRY_FLAG)),
        (r is Err ==> final(emu)@ == old(emu)@),
{
    let taken = emu.is_carry();
    jump_if(emu, taken)
}

/// Jump when the carry flag is clear.
pub fn jnc(emu: &mut Emulator) -> (r: Result<(), EmuError>)
    requires
        old(emu).wf(),
    ensures
        final(emu).wf(),
        outcome(r, final(emu)@) == step_jcc(old(emu)@, !flag_set(old(emu)@.eflags, CARRY_FLAG)),
        (r is Err ==> final(emu)@ == old(emu)@),
{
    let taken = !emu.is_carry();
    jump_if(emu, taken)
}

/// Jump when the zero flag is set.
pub fn jz(emu: &mut Emulator) -> (r: Result<(), EmuError>)
    requires
        old(emu).wf(),
    ensures
        final(emu).wf(),
        outcome(r, final(emu)@) == step_jcc(old(emu)@, flag_set(old(emu)@.eflags, ZERO_FLAG)),
        (r is Err ==> final(emu)@ == old(emu)@),
{
    let taken = emu.is_zero();
    jump_if(emu, taken)
}

/// Jump when the zero flag is clear.
pub fn jnz(emu: &mut Emulator) -> (r: Result<(), EmuError>)
    requires
        old(emu).wf(),
    ensures
        final(emu).wf(),
        outcome(r, final(emu)@) == step_jcc(old(emu)@, !flag_set(old(emu)@.eflags, ZERO_FLAG)),
        (r is Err ==> final(emu)@ == old(emu)@),
{
    let taken = !emu.is_zero();
    jump_if(emu, taken)
}

/// Jump when the sign flag is set.
pub fn js(emu: &mut Emulator) -> (r: Result<(), EmuError>)
    requires
        old(emu).wf(),
    ensures
        final(emu).wf(),
        outcome(r, final(emu)@) == step_jcc(old(emu)@, flag_set(old(emu)@.eflags, SIGN_FLAG)),
        (r is Err ==> final(emu)@ == old(emu)@),
{
    let taken = emu.is_signed();
    jump_if(emu, taken)
}

/// Jump when the sign flag is clear.
pub fn jns(emu: &mut Emulator) -> (r: Result<(), EmuError>)
    requires
        old(emu).wf(),
    ensures
        final(emu).wf(),
        outcome(r, final(emu)@) == step_jcc(old(emu)@, !flag_set(old(emu)@.eflags, SIGN_FLAG)),
        (r is Err ==> final(emu)@ == old(emu)@),
{
    let taken = !emu.is_signed();
    jump_if(emu, taken)
}

/// Jump when the overflow flag is set.
pub fn jo(emu: &mut Emulator) -> (r: Result<(), EmuError>)
    requires
        old(emu).wf(),
    ensures
        final(emu).wf(),
        outcome(r, final(emu)@) == step_jcc(old(emu)@, flag_set(old(emu)@.eflags, OVERFLOW_FLAG)),
        (r is Err ==> final(emu)@ == old(emu)@),
{
    let taken = emu.is_overflow();
    jump_if(emu, taken)
}

/// Jump when the overflow flag is clear.
pub fn jno(emu: &mut Emulator) -> (r: Result<(), EmuError>)
    requires
        old(emu).wf(),
    ensures
        final(emu).wf(),
        outcome(r, final(emu)@) == step_jcc(old(emu)@, !flag_set(old(emu)@.eflags, OVERFLOW_FLAG)),
        (r is Err ==> final(emu)@ == old(emu)@),
{
    let taken = !emu.is_overflow();
    jump_if(emu, taken)
}

/// Jump when signed less-than holds: the sign and overflow flags differ.
pub fn jl(emu: &mut Emulator) -> (r: Result<(), EmuError>)
    requires
        old(emu).wf(),
    ensures
        final(emu).wf(),
        outcome(r, final(emu)@) == step_jcc(
            old(emu)@,
            flag_set(old(emu)@.eflags, SIGN_FLAG) != flag_set(old(emu)@.eflags, OVERFLOW_FLAG),
        ),
        (r is Err ==> final(emu)@ == old(emu)@),
{
    let taken = emu.is_signed() != emu.is_overflow();
    jump_if(emu, taken)
}

/// Jump when signed less-or-equal holds: the zero flag is set, or the sign
/// and overflow flags differ.
pub fn jle(emu: &mut Emulator) -> (r: Result<(), EmuError>)
    requires
        old(emu).wf(),
    ensures
        final(emu).wf(),
        outcome(r, final(emu)@) == step_jcc(
            old(emu)@,
            flag_set(old(emu)@.eflags, ZERO_FLAG) || flag_set(old(emu)@.eflags, SIGN_FLAG)
                != flag_set(old(emu)@.eflags, OVERFLOW_FLAG),
        ),
        (r is Err ==> final(emu)@ == old(emu)@),
{
    let taken = emu.is_zero() || (emu.is_signed() != emu.is_overflow());
    jump_if(emu, taken)
}

/// What `push32` does to the CPU: decrements the stack-pointer register by
/// four (with 32-bit wraparound), then stores `value` as four little-endian
/// bytes at the new stack pointer.
pub open spec fn step_push32(c: Cpu, value: u32) -> Result<Cpu, EmuError> {
    let a = wrap32(c.regs[4] - 4);
    if a + 4 <= c.mem.len() {
        Ok(Cpu { regs: c.regs.update(4, a as u32), mem: put_dword(c.mem, a, value), ..c })
    } else {
        Err(EmuError::OutOfBounds)
    }
}

/// What `pop32` does to the CPU, and the value it returns: the doubleword
/// at the stack pointer, with the stack-pointer register then incremented
/// by four (with 32-bit wraparound).
pub open spec fn step_pop32(c: Cpu) -> Result<(Cpu, u32), EmuError> {
    let a = c.regs[4];
    if a + 4 <= c.mem.len() {
        Ok(
            (
                Cpu { regs: c.regs.update(4, (wrap32(a + 4) as u32)), ..c },
                (dword_at(c.mem, a as int) as u32),
            ),
        )
    } else {
        Err(EmuError::OutOfBounds)
    }
}

/// What `push_r32` does to the CPU: pushes the register the opcode selects
/// (opcodes 0x50 through 0x57) and advances past the one-byte encoding.
pub open spec fn step_push_r32(c: Cpu) -> Result<Cpu, EmuError> {
    if !c.in_code(1) {
        Err(EmuError::OutOfBounds)
    } else {
        let enc = reg_encoding(c.code(0), 0x50);
        if enc >= 8 {
            Err(EmuError::InvalidRegister { encoding: enc as u32 })
        } else {
            match step_push32(c, c.regs[enc]) {
                Ok(c2) => Ok(advanced(c2, 1)),
                Err(e) => Err(e),
            }
        }
    }
}

/// What `pop_r32` does to the CPU: pops into the register the opcode
/// selects (opcodes 0x58 through 0x5F) and advances past the one-byte
/// encoding.
pub open spec fn step_pop_r32(c: Cpu) -> Result<Cpu, EmuError> {
    if !c.in_code(1) {
        Err(EmuError::OutOfBounds)
    } else {
        let enc = reg_encoding(c.code(0), 0x58);
        if enc >= 8 {
            Err(EmuError::InvalidRegister { encoding: enc as u32 })
        } else {
            match step_pop32(c) {
                Ok((c2, v)) => Ok(advanced(Cpu { regs: c2.regs.update(enc, v), ..c2 }, 1)),
                Err(e) => Err(e),
            }
        }
    }
}

/// What `push_imm8` does to the CPU: pushes the zero-extended immediate
/// byte and advances past the two-byte encoding.
pub open spec fn step_push_imm8(c: Cpu) -> Result<Cpu, EmuError> {
    if !c.in_code(2) {
        Err(EmuError::OutOfBounds)
    } else {
        match step_push32(c, c.code(1) as u32) {
            Ok(c2) => Ok(advanced(c2, 2)),
            Err(e) => Err(e),
        }
    }
}

/// What `push_imm32` does to the CPU: pushes the four-byte immediate and
/// advances past the five-byte encoding.
pub open spec fn step_push_imm32(c: Cpu) -> Result<Cpu, EmuError> {
    if !c.in_code(5) {
        Err(EmuError::OutOfBounds)
    } else {
        match step_push32(c, (dword_at(c.mem, c.eip + 1) as u32)) {
            Ok(c2) => Ok(advanced(c2, 5)),
            Err(e) => Err(e),
        }
    }
}

/// What `call_rel32` does to the CPU: pushes the return address (the byte
/// after the five-byte encoding), then moves the instruction pointer by the
/// four-byte signed displacement plus five.
pub open spec fn step_call_rel32(c: Cpu) -> Result<Cpu, EmuError> {
    if !c.in_code(5) {
        Err(EmuError::OutOfBounds)
    } else {
        match step_push32(c, (c.eip + 5) as u32) {
            Ok(c2) => Ok(advanced(c2, signed32(dword_at(c.mem, c.eip + 1)) + 5)),
            Err(e) => Err(e),
        }
    }
}

/// What `ret` does to the CPU: pops the return address into the
/// instruction pointer.
pub open spec fn step_ret(c: Cpu) -> Result<Cpu, EmuError> {
    match step_pop32(c) {
        Ok((c2, v)) => Ok(Cpu { eip: v, ..c2 }),
        Err(e) => Err(e),
    }
}

/// What `leave` does to the CPU: the stack pointer takes the base
/// pointer's value, the base pointer is popped, and the pointer advances
/// past the one-byte encoding.
pub open spec fn step_leave(c: Cpu) -> Result<Cpu, EmuError> {
    let c1 = Cpu { regs: c.regs.update(4, c.regs[5]), ..c };
    match step_pop32(c1) {
        Ok((c2, v)) => Ok(advanced(Cpu { regs: c2.regs.update(5, v), ..c2 }, 1)),
        Err(e) => Err(e),
    }
}

/// Pushes `value` onto the stack: stack pointer down by four, value stored
/// at the new top. Fails, touching nothing, when the new top is out of
/// bounds.
pub fn push32(emu: &mut Emulator, value: u32) -> (r: Result<(), EmuError>)
    requires
        old(emu).wf(),
    ensures
        final(emu).wf(),
        outcome(r, final(emu)@) == step_push32(old(emu)@, value),
        (r is Err ==> final(emu)@ == old(emu)@),
{
    let esp = emu.get_gpr_value(&GPR::ESP);
    let address = esp.wrapping_sub(4);
    proof {
        lemma_wrap32_in_range(esp as int - 4, address as int);
    }
    match emu.set_memory32(address, value) {
        Ok(_) => {
            emu.set_gpr(&GPR::ESP, address);
            Ok(())
        },
        Err(e) => Err(e),
    }
}

/// Pops the doubleword at the stack top: value read at the stack pointer,
/// stack pointer up by four.
pub fn pop32(emu: &mut Emulator) -> (r: Result<u32, EmuError>)
    requires
        old(emu).wf(),
    ensures
        final(emu).wf(),
        (r matches Ok(v) ==> step_pop32(old(emu)@) == Ok::<_, EmuError>((final(emu)@, v))),
        (r matches Err(e) ==> step_pop32(old(emu)@) == Err::<(Cpu, u32), _>(e) && final(emu)@
            == old(emu)@),
{
    let address = emu.get_gpr_value(&GPR::ESP);
    let ret = match emu.get_memory32(address) {
        Ok(v) => v,
        Err(e) => {
            return Err(e);
        },
    };
    let bumped = address.wrapping_add(4);
    proof {
        lemma_wrap32_in_range(address as int + 4, bumped as int);
        crate::emulator::modrm::lemma_dword_bound(emu@.mem, address as int);
    }
    emu.set_gpr(&GPR::ESP, bumped);
    Ok(ret)
}

/// Pushes the register selected by the opcode byte itself (opcodes 0x50
/// through 0x57, one per register).
pub fn push_r32(emu: &mut Emulator) -> (r: Result<(), EmuError>)
    requires
        old(emu).wf(),
    ensures
        final(emu).wf(),
        outcome(r, final(emu)@) == step_push_r32(old(emu)@),
        (r is Err ==> final(emu)@ == old(emu)@),
{
    let op = match emu.get_code8(0) {
        Ok(b) => b,
        Err(e) => {
            return Err(e);
        },
    };
    let enc = reg_encoding_x(op, 0x50);
    let reg = match emu.get_gpr_id(enc as u32) {
        Some(g) => g,
        None => {
            return Err(EmuError::InvalidRegister { encoding: enc as u32 });
        },
    };
    proof {
        crate::emulator::lemma_gpr_roundtrip(enc as int);
    }
    let value = emu.get_gpr_value(&reg);
    match push32(emu, value) {
        Ok(_) => {},
        Err(e) => {
            return Err(e);
        },
    }
    emu.inc_eip(1);
    Ok(())
}

/// Pops into the register selected by the opcode byte itself (opcodes 0x58
/// through 0x5F, one per register).
pub fn pop_r32(emu: &mut Emulator) -> (r: Result<(), EmuError>)
    requires
        old(emu).wf(),
    ensures
        final(emu).wf(),
        outcome(r, final(emu)@) == step_pop_r32(old(emu)@),
        (r is Err ==> final(emu)@ == old(emu)@),
{
    let op = match emu.get_code8(0) {
        Ok(b) => b,
        Err(e) => {
            return Err(e);
        },
    };
    let enc = reg_encoding_x(op, 0x58);
    let reg = match emu.get_gpr_id(enc as u32) {
        Some(g) => g,
        None => {
            return Err(EmuError::InvalidRegister { encoding: enc as u32 });
        },
    };
    proof {
        crate::emulator::lemma_gpr_roundtrip(enc as int);
    }
    let popped = match pop32(emu) {
        Ok(v) => v,
        Err(e) => {
            return Err(e);
        },
    };
    emu.set_gpr(&reg, popped);
    emu.inc_eip(1);
    Ok(())
}

/// Pushes the zero-extended immediate byte (opcode 0x6A).
pub fn push_imm8(emu: &mut Emulator) -> (r: Result<(), EmuError>)
    requires
        old(emu).wf(),
    ensures
        final(emu).wf(),
        outcome(r, final(emu)@) == step_push_imm8(old(emu)@),
        (r is Err ==> final(emu)@ == old(emu)@),
{
    let value = match emu.get_code8(1) {
        Ok(b) => b,
        Err(e) => {
            return Err(e);
        },
    };
    match push32(emu, value as u32) {
        Ok(_) => {},
        Err(e) => {
            return Err(e);
        },
    }
    proof {
        lemma_wrap32_small(emu@.eip + 2);
    }
    emu.inc_eip(2);
    Ok(())
}

/// Pushes the four-byte immediate (opcode 0x68).
pub fn push_imm32(emu: &mut Emulator) -> (r: Result<(), EmuError>)
    requires
        old(emu).wf(),
    ensures
        final(emu).wf(),
        outcome(r, final(emu)@) == step_push_imm32(old(emu)@),
        (r is Err ==> final(emu)@ == old(emu)@),
{
    let value = match emu.get_code32(1) {
        Ok(v) => v,
        Err(e) => {
            return Err(e);
        },
    };
    match push32(emu, value) {
        Ok(_) => {},
        Err(e) => {
            return Err(e);
        },
    }
    emu.inc_eip(5);
    Ok(())
}

/// A relative call: pushes the return address, then jumps by the four-byte
/// signed displacement (opcode 0xE8).
pub fn call_rel32(emu: &mut Emulator) -> (r: Result<(), EmuError>)
    requires
        old(emu).wf(),
    ensures
        final(emu).wf(),
        outcome(r, final(emu)@) == step_call_rel32(old(emu)@),
        (r is Err ==> final(emu)@ == old(emu)@),
{
    let diff = match emu.get_signed_code32(1) {
        Ok(d) => d,
        Err(e) => {
            return Err(e);
        },
    };
    let here = emu.get_eip();
    match push32(emu, here + 5) {
        Ok(_) => {},
        Err(e) => {
            return Err(e);
        },
    }
    emu.inc_eip(diff);
    proof {
        lemma_wrap32_shift(old(emu)@.eip + diff, 5);
    }
    emu.inc_eip(5);
    Ok(())
}

/// Returns from a call: pops the return address into the instruction
/// pointer (opcode 0xC3).
pub fn ret(emu: &mut Emulator) -> (r: Result<(), EmuError>)
    requires
        old(emu).wf(),
    ensures
        final(emu).wf(),
        outcome(r, final(emu)@) == step_ret(old(emu)@),
        (r is Err ==> final(emu)@ == old(emu)@),
{
    let popped = match pop32(emu) {
        Ok(v) => v,
        Err(e) => {
            return Err(e);
        },
    };
    emu.set_eip(popped);
    Ok(())
}

/// Tears down a stack frame: the stack pointer takes the base pointer's
/// value, and the saved base pointer is popped back (opcode 0xC9).
pub fn leave(emu: &mut Emulator) -> (r: Result<(), EmuError>)
    requires
        old(emu).wf(),
    ensures
        final(emu).wf(),
        outcome(r, final(emu)@) == step_leave(old(emu)@),
        (r is Err ==> final(emu)@ == old(emu)@),
{
    let ebp = emu.get_gpr_value(&GPR::EBP);
    let saved_esp = emu.get_gpr_value(&GPR::ESP);
    emu.set_gpr(&GPR::ESP, ebp);
    let popped = match pop32(emu) {
        Ok(v) => v,
        Err(e) => {
            emu.set_gpr(&GPR::ESP, saved_esp);
            proof {
                assert(old(emu)@.regs.update(4, ebp).update(4, saved_esp) =~= old(emu)@.regs);
            }
            return Err(e);
        },
    };
    emu.set_gpr(&GPR::EBP, popped);
    emu.inc_eip(1);
    Ok(())
}

/// What `mov_rm32_r32` does to the CPU: decodes the ModR/M sequence after
/// the opcode and copies the named register into the register-or-memory
/// destination.
pub open spec fn step_mov_rm32_r32(c: Cpu) -> Result<Cpu, EmuError> {
    match decode_modrm(advanced(c, 1)) {
        Ok((c1, v)) => write_rm_spec(v, c1, c1.regs[v.reg as int]),
        Err(e) => Err(e),
    }
}

/// What `mov_r32_rm32` does to the CPU: decodes the ModR/M sequence after
/// the opcode and copies the register-or-memory operand into the named
/// register.
pub open spec fn step_mov_r32_rm32(c: Cpu) -> Result<Cpu, EmuError> {
    match decode_modrm(advanced(c, 1)) {
        Ok((c1, v)) => match read_rm_spec(v, c1) {
            Ok(val) => Ok(Cpu { regs: c1.regs.update(v.reg as int, val), ..c1 }),
            Err(e) => Err(e),
        },
        Err(e) => Err(e),
    }
}

/// What `mov_rm32_imm32` does to the CPU: decodes the ModR/M sequence,
/// consumes the four-byte immediate after it, and writes the immediate to
/// the register-or-memory destination.
pub open spec fn step_mov_rm32_imm32(c: Cpu) -> Result<Cpu, EmuError> {
    match decode_modrm(advanced(c, 1)) {
        Ok((c1, v)) => if !c1.in_code(4) {
            Err(EmuError::OutOfBounds)
        } else {
            write_rm_spec(v, advanced(c1, 4), (dword_at(c1.mem, c1.eip as int) as u32))
        },
        Err(e) => Err(e),
    }
}

/// What `add_rm32_r32` does to the CPU: the register-or-memory destination
/// takes its own value plus the named register's, with 32-bit wraparound;
/// this opcode family leaves the flags alone.
pub open spec fn step_add_rm32_r32(c: Cpu) -> Result<Cpu, EmuError> {
    match decode_modrm(advanced(c, 1)) {
        Ok((c1, v)) => match read_rm_spec(v, c1) {
            Ok(rm32) => write_rm_spec(v, c1, (wrap32(c1.regs[v.reg as int] + rm32) as u32)),
            Err(e) => Err(e),
        },
        Err(e) => Err(e),
    }
}

/// What `cmp_r32_rm32` does to the CPU: runs the subtraction-flag routine
/// on the named register minus the register-or-memory operand, storing
/// nothing.
pub open spec fn step_cmp_r32_rm32(c: Cpu) -> Result<Cpu, EmuError> {
    match decode_modrm(advanced(c, 1)) {
        Ok((c1, v)) => match read_rm_spec(v, c1) {
            Ok(rm32) => {
                let r32 = c1.regs[v.reg as int];
                Ok(
                    Cpu {
                        eflags: eflags_after_sub(c1.eflags, r32, rm32, (wrap64(r32 - rm32) as u64)),
                        ..c1
                    },
                )
            },
            Err(e) => Err(e),
        },
        Err(e) => Err(e),
    }
}

/// What `add_rm32_imm8` does to the CPU, starting from the state after the
/// ModR/M decode: the destination takes its own value plus the
/// sign-extended immediate byte, the pointer advances past the immediate,
/// and the flags stay untouched.
pub open spec fn step_add_rm32_imm8(c: Cpu, v: ModRmV) -> Result<Cpu, EmuError> {
    match read_rm_spec(v, c) {
        Ok(rm32) => if !c.in_code(1) {
            Err(EmuError::OutOfBounds)
        } else {
            let imm = signed8(c.code(0));
            write_rm_spec(v, advanced(c, 1), (wrap32(rm32 + imm) as u32))
        },
        Err(e) => Err(e),
    }
}

/// What `sub_rm32_imm8` does to the CPU, starting from the state after the
/// ModR/M decode: the destination takes its own value minus the
/// sign-extended immediate byte, and the subtraction-flag routine runs on
/// the wide result.
pub open spec fn step_sub_rm32_imm8(c: Cpu, v: ModRmV) -> Result<Cpu, EmuError> {
    match read_rm_spec(v, c) {
        Ok(rm32) => if !c.in_code(1) {
            Err(EmuError::OutOfBounds)
        } else {
            let imm = signed8(c.code(0));
            match write_rm_spec(v, advanced(c, 1), (wrap32(rm32 - imm) as u32)) {
                Ok(c2) => Ok(
                    Cpu {
                        eflags: eflags_after_sub(
                            c2.eflags,
                            rm32,
                            (wrap32(imm) as u32),
                            (wrap64(rm32 - imm) as u64),
                        ),
                        ..c2
                    },
                ),
                Err(e) => Err(e),
            }
        },
        Err(e) => Err(e),
    }
}

/// What `cmp_rm32_imm8` does to the CPU, starting from the state after the
/// ModR/M decode: the subtraction-flag routine runs on the operand minus
/// the sign-extended immediate byte; nothing is stored.
pub open spec fn step_cmp_rm32_imm8(c: Cpu, v: ModRmV) -> Result<Cpu, EmuError> {
    match read_rm_spec(v, c) {
        Ok(rm32) => if !c.in_code(1) {
            Err(EmuError::OutOfBounds)
        } else {
            let imm = signed8(c.code(0));
            Ok(
                Cpu {
                    eflags: eflags_after_sub(
                        c.eflags,
                        rm32,
                        (wrap32(imm) as u32),
                        (wrap64(rm32 - imm) as u64),
                    ),
                    ..advanced(c, 1)
                },
            )
        },
        Err(e) => Err(e),
    }
}

/// What `inc_rm32` does to the CPU, starting from the state after the
/// ModR/M decode: the destination takes its own value plus one, with
/// 32-bit wraparound and no flag effect.
pub open spec fn step_inc_rm32(c: Cpu, v: ModRmV) -> Result<Cpu, EmuError> {
    match read_rm_spec(v, c) {
        Ok(rm32) => write_rm_spec(v, c, (wrap32(rm32 + 1) as u32)),
        Err(e) => Err(e),
    }
}

/// What the group opcode 0x83 does to the CPU: decodes the ModR/M
/// sequence, then runs the add, sub or cmp sub-operation its extension
/// field selects on the operand and the immediate byte.
pub open spec fn step_code_83(c: Cpu) -> Result<Cpu, EmuError> {
    match decode_modrm(advanced(c, 1)) {
        Ok((c1, v)) => if v.reg == 0 {
            step_add_rm32_imm8(c1, v)
        } else if v.reg == 5 {
            step_sub_rm32_imm8(c1, v)
        } else if v.reg == 7 {
            step_cmp_rm32_imm8(c1, v)
        } else {
            Err(EmuError::UnknownExtension { opcode: 0x83, extension: v.reg })
        },
        Err(e) => Err(e),
    }
}

/// What the group opcode 0xFF does to the CPU: decodes the ModR/M
/// sequence, then runs the one implemented sub-operation, increment.
pub open spec fn step_code_ff(c: Cpu) -> Result<Cpu, EmuError> {
    match decode_modrm(advanced(c, 1)) {
        Ok((c1, v)) => if v.reg == 0 {
            step_inc_rm32(c1, v)
        } else {
            Err(EmuError::UnknownExtension { opcode: 0xFF, extension: v.reg })
        },
        Err(e) => Err(e),
    }
}

/// Copies the named register into the register-or-memory destination
/// (opcode 0x89).
pub fn mov_rm32_r32(emu: &mut Emulator) -> (r: Result<(), EmuError>)
    requires
        old(emu).wf(),
    ensures
        final(emu).wf(),
        outcome(r, final(emu)@) == step_mov_rm32_r32(old(emu)@),
        (r is Err ==> final(emu)@ == old(emu)@),
{
    let eip0 = emu.get_eip();
    emu.inc_eip(1);
    let mut modrm = match ModRM::new(emu) {
        Ok(m) => m,
        Err(e) => {
            emu.set_eip(eip0);
            return Err(e);
        },
    };
    match modrm.parse_modrm(emu) {
        Ok(_) => {},
        Err(e) => {
            emu.set_eip(eip0);
            return Err(e);
        },
    }
    let value = match modrm.get_r32(emu) {
        Ok(v) => v,
        Err(e) => {
            emu.set_eip(eip0);
            return Err(e);
        },
    };
    match modrm.set_rm32(emu, value) {
        Ok(_) => Ok(()),
        Err(e) => {
            emu.set_eip(eip0);
            Err(e)
        },
    }
}

/// Copies the register-or-memory operand into the named register (opcode
/// 0x8B).
pub fn mov_r32_rm32(emu: &mut Emulator) -> (r: Result<(), EmuError>)
    requires
        old(emu).wf(),
    ensures
        final(emu).wf(),
        outcome(r, final(emu)@) == step_mov_r32_rm32(old(emu)@),
        (r is Err ==> final(emu)@ == old(emu)@),
{
    let eip0 = emu.get_eip();
    emu.inc_eip(1);
    let mut modrm = match ModRM::new(emu) {
        Ok(m) => m,
        Err(e) => {
            emu.set_eip(eip0);
            return Err(e);
        },
    };
    match modrm.parse_modrm(emu) {
        Ok(_) => {},
        Err(e) => {
            emu.set_eip(eip0);
            return Err(e);
        },
    }
    let value = match modrm.get_rm32(emu) {
        Ok(v) => v,
        Err(e) => {
            emu.set_eip(eip0);
            return Err(e);
        },
    };
    match modrm.set_r32(emu, value) {
        Ok(_) => Ok(()),
        Err(e) => {
            emu.set_eip(eip0);
            Err(e)
        },
    }
}

/// Writes the four-byte immediate that follows the ModR/M sequence to the
/// register-or-memory destination (opcode 0xC7).
pub fn mov_rm32_imm32(emu: &mut Emulator) -> (r: Result<(), EmuError>)
    requires
        old(emu).wf(),
    ensures
        final(emu).wf(),
        outcome(r, final(emu)@) == step_mov_rm32_imm32(old(emu)@),
        (r is Err ==> final(emu)@ == old(emu)@),
{
    let eip0 = emu.get_eip();
    emu.inc_eip(1);
    let mut modrm = match ModRM::new(emu) {
        Ok(m) => m,
        Err(e) => {
            emu.set_eip(eip0);
            return Err(e);
        },
    };
    match modrm.parse_modrm(emu) {
        Ok(_) => {},
        Err(e) => {
            emu.set_eip(eip0);
            return Err(e);
        },
    }
    let value = match emu.get_code32(0) {
        Ok(v) => v,
        Err(e) => {
            emu.set_eip(eip0);
            return Err(e);
        },
    };
    proof {
        lemma_wrap32_small(emu@.eip + 4);
    }
    emu.inc_eip(4);
    match modrm.set_rm32(emu, value) {
        Ok(_) => Ok(()),
        Err(e) => {
            emu.set_eip(eip0);
            Err(e)
        },
    }
}

/// Adds the named register into the register-or-memory destination (opcode
/// 0x01); this opcode family does not update the flags.
pub fn add_rm32_r32(emu: &mut Emulator) -> (r: Result<(), EmuError>)
    requires
        old(emu).wf(),
    ensures
        final(emu).wf(),
        outcome(r, final(emu)@) == step_add_rm32_r32(old(emu)@),
        (r is Err ==> final(emu)@ == old(emu)@),
{
    let eip0 = emu.get_eip();
    emu.inc_eip(1);
    let mut modrm = match ModRM::new(emu) {
        Ok(m) => m,
        Err(e) => {
            emu.set_eip(eip0);
            return Err(e);
        },
    };
    match modrm.parse_modrm(emu) {
        Ok(_) => {},
        Err(e) => {
            emu.set_eip(eip0);
            return Err(e);
        },
    }
    let r32 = match modrm.get_r32(emu) {
        Ok(v) => v,
        Err(e) => {
            emu.set_eip(eip0);
            return Err(e);
        },
    };
    let rm32 = match modrm.get_rm32(emu) {
        Ok(v) => v,
        Err(e) => {
            emu.set_eip(eip0);
            return Err(e);
        },
    };
    let sum = r32.wrapping_add(rm32);
    proof {
        lemma_wrap32_in_range(r32 as int + rm32 as int, sum as int);
    }
    match modrm.set_rm32(emu, sum) {
        Ok(_) => Ok(()),
        Err(e) => {
            emu.set_eip(eip0);
            Err(e)
        },
    }
}

/// Compares the named register with the register-or-memory operand by
/// running the subtraction-flag routine on their difference (opcode 0x3B
/// form); stores nothing.
pub fn cmp_r32_rm32(emu: &mut Emulator) -> (r: Result<(), EmuError>)
    requires
        old(emu).wf(),
    ensures
        final(emu).wf(),
        outcome(r, final(emu)@) == step_cmp_r32_rm32(old(emu)@),
        (r is Err ==> final(emu)@ == old(emu)@),
{
    let eip0 = emu.get_eip();
    emu.inc_eip(1);
    let mut modrm = match ModRM::new(emu) {
        Ok(m) => m,
        Err(e) => {
            emu.set_eip(eip0);
            return Err(e);
        },
    };
    match modrm.parse_modrm(emu) {
        Ok(_) => {},
        Err(e) => {
            emu.set_eip(eip0);
            return Err(e);
        },
    }
    let r32 = match modrm.get_r32(emu) {
        Ok(v) => v,
        Err(e) => {
            emu.set_eip(eip0);
            return Err(e);
        },
    };
    let rm32 = match modrm.get_rm32(emu) {
        Ok(v) => v,
        Err(e) => {
            emu.set_eip(eip0);
            return Err(e);
        },
    };
    let result = wide_sub(r32, rm32 as i64);
    emu.update_eflags_sub(r32, rm32, result);
    Ok(())
}

/// The group opcode 0x83: add, sub or cmp of a sign-extended immediate
/// byte against the register-or-memory operand, selected by the ModR/M
/// extension field.
pub fn code_83(emu: &mut Emulator) -> (r: Result<(), EmuError>)
    requires
        old(emu).wf(),
    ensures
        final(emu).wf(),
        outcome(r, final(emu)@) == step_code_83(old(emu)@),
        (r is Err ==> final(emu)@ == old(emu)@),
{
    let eip0 = emu.get_eip();
    emu.inc_eip(1);
    let mut modrm = match ModRM::new(emu) {
        Ok(m) => m,
        Err(e) => {
            emu.set_eip(eip0);
            return Err(e);
        },
    };
    match modrm.parse_modrm(emu) {
        Ok(_) => {},
        Err(e) => {
            emu.set_eip(eip0);
            return Err(e);
        },
    }
    let res = match modrm.get_opcode() {
        0 => add_rm32_imm8(emu, &modrm),
        5 => sub_rm32_imm8(emu, &modrm),
        7 => cmp_rm32_imm8(emu, &modrm),
        ext => {
            emu.set_eip(eip0);
            return Err(EmuError::UnknownExtension { opcode: 0x83, extension: ext });
        },
    };
    match res {
        Ok(_) => Ok(()),
        Err(e) => {
            emu.set_eip(eip0);
            Err(e)
        },
    }
}

/// The group opcode 0xFF: only the increment sub-operation is implemented.
pub fn code_ff(emu: &mut Emulator) -> (r: Result<(), EmuError>)
    requires
        old(emu).wf(),
    ensures
        final(emu).wf(),
        outcome(r, final(emu)@) == step_code_ff(old(emu)@),
        (r is Err ==> final(emu)@ == old(emu)@),
{
    let eip0 = emu.get_eip();
    emu.inc_eip(1);
    let mut modrm = match ModRM::new(emu) {
        Ok(m) => m,
        Err(e) => {
            emu.set_eip(eip0);
            return Err(e);
        },
    };
    match modrm.parse_modrm(emu) {
        Ok(_) => {},
        Err(e) => {
            emu.set_eip(eip0);
            return Err(e);
        },
    }
    let res = match modrm.get_opcode() {
        0 => inc_rm32(emu, &modrm),
        ext => {
            emu.set_eip(eip0);
            return Err(EmuError::UnknownExtension { opcode: 0xFF, extension: ext });
        },
    };
    match res {
        Ok(_) => Ok(()),
        Err(e) => {
            emu.set_eip(eip0);
            Err(e)
        },
    }
}

/// Adds the sign-extended immediate byte into the register-or-memory
/// operand a caller has already decoded; no flag effect.
pub fn add_rm32_imm8(emu: &mut Emulator, modrm: &ModRM) -> (r: Result<(), EmuError>)
    requires
        old(emu).wf(),
    ensures
        final(emu).wf(),
        outcome(r, final(emu)@) == step_add_rm32_imm8(old(emu)@, modrm@),
        (r is Err ==> final(emu)@ == old(emu)@),
{
    let rm32 = match modrm.get_rm32(emu) {
        Ok(v) => v,
        Err(e) => {
            return Err(e);
        },
    };
    let imm8 = match emu.get_signed_code8(0) {
        Ok(v) => v,
        Err(e) => {
            return Err(e);
        },
    };
    let eip_in = emu.get_eip();
    proof {
        lemma_wrap32_small(emu@.eip + 1);
    }
    emu.inc_eip(1);
    let sum = wrapped_add(rm32, imm8 as i32);
    match modrm.set_rm32(emu, sum) {
        Ok(_) => Ok(()),
        Err(e) => {
            emu.set_eip(eip_in);
            Err(e)
        },
    }
}

/// Subtracts the sign-extended immediate byte from the register-or-memory
/// operand a caller has already decoded, and runs the subtraction-flag
/// routine on the wide result.
pub fn sub_rm32_imm8(emu: &mut Emulator, modrm: &ModRM) -> (r: Result<(), EmuError>)
    requires
        old(emu).wf(),
    ensures
        final(emu).wf(),
        outcome(r, final(emu)@) == step_sub_rm32_imm8(old(emu)@, modrm@),
        (r is Err ==> final(emu)@ == old(emu)@),
{
    let rm32 = match modrm.get_rm32(emu) {
        Ok(v) => v,
        Err(e) => {
            return Err(e);
        },
    };
    let imm8 = match emu.get_signed_code8(0) {
        Ok(v) => v,
        Err(e) => {
            return Err(e);
        },
    };
    let eip_in = emu.get_eip();
    proof {
        lemma_wrap32_small(emu@.eip + 1);
    }
    emu.inc_eip(1);
    let result = wide_sub(rm32, imm8 as i64);
    let low = (result % 0x1_0000_0000) as u32;
    proof {
        lemma_wrap32_of_wrap64(rm32 as int - imm8 as int);
    }
    match modrm.set_rm32(emu, low) {
        Ok(_) => {
            emu.update_eflags_sub(rm32, unsigned_bits(imm8 as i32), result);
            Ok(())
        },
        Err(e) => {
            emu.set_eip(eip_in);
            Err(e)
        },
    }
}

/// Compares the register-or-memory operand a caller has already decoded
/// with the sign-extended immediate byte, running the subtraction-flag
/// routine on the wide result; stores nothing.
pub fn cmp_rm32_imm8(emu: &mut Emulator, modrm: &ModRM) -> (r: Result<(), EmuError>)
    requires
        old(emu).wf(),
    ensures
        final(emu).wf(),
        outcome(r, final(emu)@) == step_cmp_rm32_imm8(old(emu)@, modrm@),
        (r is Err ==> final(emu)@ == old(emu)@),
{
    let rm32 = match modrm.get_rm32(emu) {
        Ok(v) => v,
        Err(e) => {
            return Err(e);
        },
    };
    let imm8 = match emu.get_signed_code8(0) {
        Ok(v) => v,
        Err(e) => {
            return Err(e);
        },
    };
    proof {
        lemma_wrap32_small(emu@.eip + 1);
    }
    emu.inc_eip(1);
    let result = wide_sub(rm32, imm8 as i64);
    emu.update_eflags_sub(rm32, unsigned_bits(imm8 as i32), result);
    Ok(())
}

/// Increments the register-or-memory operand a caller has already decoded;
/// no flag effect and no further pointer movement.
pub fn inc_rm32(emu: &mut Emulator, modrm: &ModRM) -> (r: Result<(), EmuError>)
    requires
        old(emu).wf(),
    ensures
        final(emu).wf(),
        outcome(r, final(emu)@) == step_inc_rm32(old(emu)@, modrm@),
        (r is Err ==> final(emu)@ == old(emu)@),
{
    let rm32 = match modrm.get_rm32(emu) {
        Ok(v) => v,
        Err(e) => {
            return Err(e);
        },
    };
    let bumped = rm32.wrapping_add(1);
    proof {
        lemma_wrap32_in_range(rm32 as int + 1, bumped as int);
    }
    modrm.set_rm32(emu, bumped)
}

/// What `in_al_dx` does to the CPU, given the byte `data` that the console
/// primitive supplied: the low byte of the accumulator takes the port-read
/// result (the console byte on the console port, zero elsewhere), and the
/// pointer advances past the one-byte encoding.
pub open spec fn step_in_al_dx(c: Cpu, data: u8) -> Cpu {
    let port = c.regs[2] % 0x1_0000;
    let byte: u32 = if port == CONSOLE_PORT as u32 {
        data as u32
    } else {
        0
    };
    Cpu { regs: c.regs.update(0, ((c.regs[0] - c.regs[0] % 0x100 + byte) as u32)), ..advanced(c, 1) }
}

/// Reads one byte from the port addressed by the low 16 bits of the data
/// register into the low byte of the accumulator. The blocking console
/// read itself is the caller's: it hands the byte it read in as `data`,
/// and the port rule decides whether that byte or zero lands in the
/// accumulator.
pub fn in_al_dx(emu: &mut Emulator, data: u8)
    requires
        old(emu).wf(),
    ensures
        final(emu).wf(),
        final(emu)@ == step_in_al_dx(old(emu)@, data),
{
    let edx = emu.get_gpr_value(&GPR::EDX);
    let port = (edx % 0x10000) as u16;
    let value = in8(port, data);
    let eax = emu.get_gpr_value(&GPR::EAX);
    let new_eax = eax - eax % 0x100 + value as u32;
    emu.set_gpr(&GPR::EAX, new_eax);
    emu.inc_eip(1);
}

/// Writes the low byte of the accumulator to the port addressed by the low
/// 16 bits of the data register, and advances past the one-byte encoding.
/// The byte to hand to the blocking console write comes back to the
/// caller: the accumulator's low byte on the console port, nothing for any
/// other port.
pub fn out_dx_al(emu: &mut Emulator) -> (r: Option<u8>)
    requires
        old(emu).wf(),
    ensures
        final(emu).wf(),
        final(emu)@ == advanced(old(emu)@, 1),
        r == (if old(emu)@.regs[2] % 0x1_0000 == CONSOLE_PORT as u32 {
            Some((old(emu)@.regs[0] % 0x100) as u8)
        } else {
            None::<u8>
        }),
{
    let edx = emu.get_gpr_value(&GPR::EDX);
    let port = (edx % 0x10000) as u16;
    let eax = emu.get_gpr_value(&GPR::EAX);
    let al = (eax % 0x100) as u8;
    let r = out8(port, al);
    emu.inc_eip(1);
    r
}

/// Push and pop are inverses: pushing a value and popping it back returns
/// exactly that value, restores the stack-pointer register to its pre-push
/// value, and leaves the CPU as it was, save for the four stacked bytes of
/// memory.
pub proof fn lemma_push_pop_inverse(c: Cpu, value: u32)
    requires
        c.wf(),
        wrap32(c.regs[4] - 4) + 4 <= c.mem.len(),
    ensures
        step_push32(c, value) is Ok,
        ({
            let pushed = step_push32(c, value)->Ok_0;
            step_pop32(pushed) is Ok && step_pop32(pushed)->Ok_0.1 == value && step_pop32(
                pushed,
            )->Ok_0.0 == (Cpu { mem: put_dword(c.mem, wrap32(c.regs[4] - 4), value), ..c })
        }),
{
    let a = wrap32(c.regs[4] - 4);
    let pushed = step_push32(c, value)->Ok_0;
    crate::emulator::lemma_dword_round_trip(c.mem, a, value);
    lemma_wrap32_shift(c.regs[4] - 4, 4);
    lemma_wrap32_small(c.regs[4] as int);
    assert(wrap32(a + 4) == c.regs[4]);
    let after = step_pop32(pushed)->Ok_0.0;
    assert(after.regs =~= c.regs);
}

/// The 64-bit wraparound value of `a` minus the signed `d`: the wide
/// subtraction result that the flag routine inspects.
fn wide_sub(a: u32, d: i64) -> (r: u64)
    requires
        -0x1_0000_0000 <= d <= 0x1_0000_0000,
    ensures
        r as int == wrap64(a - d),
{
    let e: i64 = a as i64 - d;
    if e >= 0 {
        proof {
            lemma_wrap64_in_range(a as int - d as int, e as int);
        }
        e as u64
    } else {
        let w = 0xFFFF_FFFF_FFFF_FFFFu64 - ((-e) as u64) + 1;
        proof {
            lemma_wrap64_in_range(a as int - d as int, w as int);
        }
        w
    }
}

/// The register encoding an opcode of a one-per-register family selects.
fn reg_encoding_x(op: u8, base: u8) -> (r: u8)
    requires
        base > 0,
    ensures
        r as int == reg_encoding(op, base),
{
    if op >= base {
        op - base
    } else {
        op + (255 - base) + 1
    }
}

} // verus!
