//! The ModR/M addressing-mode decoder: splits the ModR/M byte into its mode,
//! register and register-or-memory fields, consumes the optional SIB byte and
//! displacement from the instruction stream, computes effective addresses,
//! and reads or writes the operands the fields name.

use super::{
    Cpu, EmuError, Emulator, dword_at, lemma_gpr_roundtrip, lemma_wrap32_in_range,
    lemma_wrap32_small, outcome, put_dword, signed32, signed8, wrap32,
};
use vstd::prelude::*;

verus! {

/// The mathematical model of a decoded ModR/M sequence: the three bit
/// fields, the SIB byte, and the optional displacement.
pub ghost struct ModRmV {
    pub mode: u8,
    pub reg: u8,
    pub rm: u8,
    pub sib: u8,
    pub disp8: Option<i8>,
    pub disp32: Option<i32>,
}

/// The displacement decoded after a ModR/M byte: one signed byte, one
/// signed doubleword, or none.
pub struct Disp {
    disp8: Option<i8>,
    disp32: Option<i32>,
}

/// A decoded ModR/M sequence: addressing mode (bits 7-6), register or
/// opcode-extension field (bits 5-3), register-or-memory field (bits 2-0),
/// the SIB byte if one was consumed, and the displacement.
pub struct ModRM {
    md: u8,
    reg_bit: u8,
    rm: u8,
    sib: u8,
    disp: Disp,
}

impl View for ModRM {
    type V = ModRmV;

    closed spec fn view(&self) -> ModRmV {
        ModRmV {
            mode: self.md,
            reg: self.reg_bit,
            rm: self.rm,
            sib: self.sib,
            disp8: self.disp.disp8,
            disp32: self.disp.disp32,
        }
    }
}

/// The addressing mode held in bits 7-6 of a ModR/M byte.
pub open spec fn mrm_mode(b: u8) -> u8 {
    b / 64
}

/// The register (or opcode-extension) field held in bits 5-3 of a ModR/M
/// byte.
pub open spec fn mrm_reg(b: u8) -> u8 {
    (b / 8) % 8
}

/// The register-or-memory field held in bits 2-0 of a ModR/M byte.
pub open spec fn mrm_rm(b: u8) -> u8 {
    b % 8
}

/// Whether a SIB byte follows the ModR/M byte `b`.
pub open spec fn mrm_has_sib(b: u8) -> bool {
    mrm_mode(b) != 3 && mrm_rm(b) == 4
}

/// How many displacement bytes follow the ModR/M byte `b` (and its SIB
/// byte, if any): four, one, or none.
pub open spec fn mrm_disp_len(b: u8) -> int {
    if (mrm_mode(b) == 0 && mrm_rm(b) == 5) || mrm_mode(b) == 2 {
        4
    } else if mrm_mode(b) == 1 {
        1
    } else {
        0
    }
}

/// The total byte length of the ModR/M sequence that starts with byte `b`:
/// the ModR/M byte itself, the SIB byte if present, and the displacement.
pub open spec fn mrm_len(b: u8) -> int {
    1 + (if mrm_has_sib(b) {
        1int
    } else {
        0int
    }) + mrm_disp_len(b)
}

/// How many bytes `parse_modrm` consumes for the SIB byte, judged from the
/// already-decoded fields.
pub open spec fn parse_sib_len(v: ModRmV) -> int {
    if v.mode != 3 && v.rm == 4 {
        1
    } else {
        0
    }
}

/// How many displacement bytes `parse_modrm` consumes, judged from the
/// already-decoded fields.
pub open spec fn parse_disp_len(v: ModRmV) -> int {
    if (v.mode == 0 && v.rm == 5) || v.mode == 2 {
        4
    } else if v.mode == 1 {
        1
    } else {
        0
    }
}

/// What `calc_memory_address` returns for the decoded fields `v` and the
/// register file `regs`: the effective address, or the decode error that
/// stops it.
pub open spec fn calc_addr_spec(v: ModRmV, regs: Seq<u32>) -> Result<u32, EmuError> {
    if v.mode == 0 {
        if v.rm == 4 {
            Err(EmuError::SibAddressing)
        } else if v.rm == 5 {
            match v.disp32 {
                Some(d) => Ok(wrap32(d as int) as u32),
                None => Err(EmuError::MissingDisplacement),
            }
        } else if v.rm < 8 {
            Ok(regs[v.rm as int])
        } else {
            Err(EmuError::InvalidRegister { encoding: v.rm as u32 })
        }
    } else if v.mode == 1 {
        if v.rm == 4 {
            Err(EmuError::SibAddressing)
        } else if v.rm >= 8 {
            Err(EmuError::InvalidRegister { encoding: v.rm as u32 })
        } else {
            match v.disp8 {
                Some(d) => Ok(wrap32(regs[v.rm as int] + d) as u32),
                None => Err(EmuError::MissingDisplacement),
            }
        }
    } else if v.mode == 2 {
        if v.rm == 4 {
            Err(EmuError::SibAddressing)
        } else if v.rm >= 8 {
            Err(EmuError::InvalidRegister { encoding: v.rm as u32 })
        } else {
            match v.disp32 {
                Some(d) => Ok(wrap32(regs[v.rm as int] + d) as u32),
                None => Err(EmuError::MissingDisplacement),
            }
        }
    } else {
        Err(EmuError::NoMemoryOperand)
    }
}

/// What `get_rm32` returns for the decoded fields `v` on the CPU state `c`:
/// the named register's value in register-direct mode, else the doubleword
/// at the effective address.
pub open spec fn read_rm_spec(v: ModRmV, c: Cpu) -> Result<u32, EmuError> {
    if v.mode == 3 {
        if v.rm < 8 {
            Ok(c.regs[v.rm as int])
        } else {
            Err(EmuError::InvalidRegister { encoding: v.rm as u32 })
        }
    } else {
        match calc_addr_spec(v, c.regs) {
            Ok(a) => if a + 4 <= c.mem.len() {
                Ok(dword_at(c.mem, a as int) as u32)
            } else {
                Err(EmuError::OutOfBounds)
            },
            Err(e) => Err(e),
        }
    }
}

/// The CPU state after `set_rm32` wrote `value` through the decoded fields
/// `v`: the named register replaced in register-direct mode, else the four
/// little-endian bytes at the effective address replaced.
pub open spec fn write_rm_spec(v: ModRmV, c: Cpu, value: u32) -> Result<Cpu, EmuError> {
    if v.mode == 3 {
        if v.rm < 8 {
            Ok(Cpu { regs: c.regs.update(v.rm as int, value), ..c })
        } else {
            Err(EmuError::InvalidRegister { encoding: v.rm as u32 })
        }
    } else {
        match calc_addr_spec(v, c.regs) {
            Ok(a) => if a + 4 <= c.mem.len() {
                Ok(Cpu { mem: put_dword(c.mem, a as int, value), ..c })
            } else {
                Err(EmuError::OutOfBounds)
            },
            Err(e) => Err(e),
        }
    }
}

impl ModRM {
    /// Consumes the ModR/M byte at the instruction pointer, splits it into
    /// its three fields, and advances the pointer past it; the SIB byte and
    /// displacement are left for `parse_modrm`.
    pub fn new(emu: &mut Emulator) -> (r: Result<ModRM, EmuError>)
        requires
            old(emu).wf(),
        ensures
            final(emu).wf(),
            (r is Ok <==> old(emu)@.in_code(1)),
            (r matches Ok(m) ==> final(emu)@ == (Cpu {
                eip: (old(emu)@.eip + 1) as u32,
                ..old(emu)@
            }) && m@ == (ModRmV {
                mode: mrm_mode(old(emu)@.code(0)),
                reg: mrm_reg(old(emu)@.code(0)),
                rm: mrm_rm(old(emu)@.code(0)),
                sib: 0u8,
                disp8: None,
                disp32: None,
            })),
            (r is Err ==> final(emu)@ == old(emu)@ && r == Err::<ModRM, EmuError>(
                EmuError::OutOfBounds,
            )),
    {
        let code = match emu.get_code8(0) {
            Ok(b) => b,
            Err(e) => {
                return Err(e);
            },
        };
        emu.inc_eip(1);
        proof {
            lemma_wrap32_small(old(emu)@.eip + 1);
        }
        Ok(
            ModRM {
                md: code / 64,
                reg_bit: (code / 8) % 8,
                rm: code % 8,
                sib: 0,
                disp: Disp { disp8: None, disp32: None },
            },
        )
    }

    /// The addressing-mode field.
    pub fn get_mod(&self) -> (r: u8)
        ensures
            r == self@.mode,
    {
        self.md
    }

    /// The register field read as an opcode extension, for group opcodes
    /// that select a sub-operation with it.
    pub fn get_opcode(&self) -> (r: u8)
        ensures
            r == self@.reg,
    {
        self.reg_bit
    }

    /// The register field read as a register number.
    pub fn get_reg_index(&self) -> (r: u8)
        ensures
            r == self@.reg,
    {
        self.reg_bit
    }

    /// The register-or-memory field.
    pub fn get_rm(&self) -> (r: u8)
        ensures
            r == self@.rm,
    {
        self.rm
    }

    /// The SIB byte, zero when none was consumed.
    pub fn get_sib(&self) -> (r: u8)
        ensures
            r == self@.sib,
    {
        self.sib
    }

    /// The one-byte displacement, when one was decoded.
    pub fn get_disp8(&self) -> (r: Option<i8>)
        ensures
            r == self@.disp8,
    {
        self.disp.disp8
    }

    /// The four-byte displacement, when one was decoded.
    pub fn get_disp32(&self) -> (r: Option<i32>)
        ensures
            r == self@.disp32,
    {
        self.disp.disp32
    }

    /// Replaces the addressing-mode field.
    pub fn set_mod(&mut self, new_value: u8)
        ensures
            final(self)@ == (ModRmV { mode: new_value, ..old(self)@ }),
    {
        self.md = new_value;
    }

    /// Replaces the register-or-memory field.
    pub fn set_rm(&mut self, new_value: u8)
        ensures
            final(self)@ == (ModRmV { rm: new_value, ..old(self)@ }),
    {
        self.rm = new_value;
    }

    /// Replaces the SIB byte.
    pub fn set_sib(&mut self, new_value: u8)
        ensures
            final(self)@ == (ModRmV { sib: new_value, ..old(self)@ }),
    {
        self.sib = new_value;
    }

    /// Replaces the register field.
    pub fn set_regbit(&mut self, new_value: u8)
        ensures
            final(self)@ == (ModRmV { reg: new_value, ..old(self)@ }),
    {
        self.reg_bit = new_value;
    }

    /// Records a one-byte displacement.
    pub fn set_disp8(&mut self, disp: i8)
        ensures
            final(self)@ == (ModRmV { disp8: Some(disp), ..old(self)@ }),
    {
        self.disp.disp8 = Some(disp);
    }

    /// Records a four-byte displacement.
    pub fn set_disp32(&mut self, disp: i32)
        ensures
            final(self)@ == (ModRmV { disp32: Some(disp), ..old(self)@ }),
    {
        self.disp.disp32 = Some(disp);
    }

    /// Consumes the SIB byte and the displacement that the already-decoded
    /// fields call for, advancing the instruction pointer past what was
    /// consumed; fails when the bytes run past the end of memory.
    pub fn parse_modrm(&mut self, emu: &mut Emulator) -> (r: Result<(), EmuError>)
        requires
            old(emu).wf(),
        ensures
            final(emu).wf(),
            (r is Ok <==> parse_sib_len(old(self)@) + parse_disp_len(old(self)@) == 0 || old(
                emu,
            )@.in_code(parse_sib_len(old(self)@) + parse_disp_len(old(self)@))),
            (r is Ok ==> final(emu)@ == (Cpu {
                eip: (old(emu)@.eip + parse_sib_len(old(self)@) + parse_disp_len(
                    old(self)@,
                )) as u32,
                ..old(emu)@
            })),
            (r is Ok ==> final(self)@ == (ModRmV {
                sib: if parse_sib_len(old(self)@) == 1 {
                    old(emu)@.code(0)
                } else {
                    old(self)@.sib
                },
                disp8: if parse_disp_len(old(self)@) == 1 {
                    Some(
                        (signed8(
                            old(emu)@.mem[old(emu)@.eip + parse_sib_len(old(self)@)],
                        ) as i8),
                    )
                } else {
                    old(self)@.disp8
                },
                disp32: if parse_disp_len(old(self)@) == 4 {
                    Some(
                        (signed32(
                            dword_at(old(emu)@.mem, old(emu)@.eip + parse_sib_len(old(self)@)),
                        ) as i32),
                    )
                } else {
                    old(self)@.disp32
                },
                ..old(self)@
            })),
            (r is Err ==> r == Err::<(), EmuError>(EmuError::OutOfBounds)),
            (r is Err ==> final(self)@ == (ModRmV {
                sib: if parse_sib_len(old(self)@) == 1 && old(emu)@.in_code(1) {
                    old(emu)@.code(0)
                } else {
                    old(self)@.sib
                },
                ..old(self)@
            })),
            (r is Err ==> final(emu)@ == (Cpu {
                eip: (old(emu)@.eip + (if parse_sib_len(old(self)@) == 1 && old(emu)@.in_code(1) {
                    1int
                } else {
                    0int
                })) as u32,
                ..old(emu)@
            })),
    {
        if self.md != 3 && self.rm == 4 {
            let b = match emu.get_code8(0) {
                Ok(b) => b,
                Err(e) => {
                    return Err(e);
                },
            };
            self.sib = b;
            proof {
                lemma_wrap32_small(emu@.eip + 1);
            }
            emu.inc_eip(1);
        }
        if (self.md == 0 && self.rm == 5) || self.md == 2 {
            let d = match emu.get_signed_code32(0) {
                Ok(v) => v,
                Err(e) => {
                    return Err(e);
                },
            };
            self.disp.disp32 = Some(d);
            proof {
                lemma_wrap32_small(emu@.eip + 4);
            }
            emu.inc_eip(4);
        } else if self.md == 1 {
            let d = match emu.get_signed_code8(0) {
                Ok(v) => v,
                Err(e) => {
                    return Err(e);
                },
            };
            self.disp.disp8 = Some(d);
            proof {
                lemma_wrap32_small(emu@.eip + 1);
            }
            emu.inc_eip(1);
        }
        Ok(())
    }

    /// The effective address of the decoded memory operand: the raw
    /// displacement when mode 0 names no base register, else the base
    /// register's value plus the displacement, with 32-bit wraparound; a
    /// decode error for SIB addressing or a register-direct operand.
    pub fn calc_memory_address(&self, emu: &Emulator) -> (r: Result<u32, EmuError>)
        requires
            emu.wf(),
        ensures
            r == calc_addr_spec(self@, emu@.regs),
    {
        if self.md == 0 {
            if self.rm == 4 {
                Err(EmuError::SibAddressing)
            } else if self.rm == 5 {
                match self.disp.disp32 {
                    Some(d) => Ok(unsigned_bits(d)),
                    None => Err(EmuError::MissingDisplacement),
                }
            } else {
                match emu.get_gpr_id(self.rm as u32) {
                    Some(g) => {
                        proof {
                            lemma_gpr_roundtrip(self.rm as int);
                        }
                        Ok(emu.get_gpr_value(&g))
                    },
                    None => Err(EmuError::InvalidRegister { encoding: self.rm as u32 }),
                }
            }
        } else if self.md == 1 {
            match emu.get_gpr_id(self.rm as u32) {
                Some(g) => {
                    if self.rm == 4 {
                        return Err(EmuError::SibAddressing);
                    }
                    proof {
                        lemma_gpr_roundtrip(self.rm as int);
                    }
                    let base = emu.get_gpr_value(&g);
                    match self.disp.disp8 {
                        Some(d) => Ok(wrapped_add(base, d as i32)),
                        None => Err(EmuError::MissingDisplacement),
                    }
                },
                None => {
                    if self.rm == 4 {
                        return Err(EmuError::SibAddressing);
                    }
                    Err(EmuError::InvalidRegister { encoding: self.rm as u32 })
                },
            }
        } else if self.md == 2 {
            match emu.get_gpr_id(self.rm as u32) {
                Some(g) => {
                    if self.rm == 4 {
                        return Err(EmuError::SibAddressing);
                    }
                    proof {
                        lemma_gpr_roundtrip(self.rm as int);
                    }
                    let base = emu.get_gpr_value(&g);
                    match self.disp.disp32 {
                        Some(d) => Ok(wrapped_add(base, d)),
                        None => Err(EmuError::MissingDisplacement),
                    }
                },
                None => {
                    if self.rm == 4 {
                        return Err(EmuError::SibAddressing);
                    }
                    Err(EmuError::InvalidRegister { encoding: self.rm as u32 })
                },
            }
        } else {
            Err(EmuError::NoMemoryOperand)
        }
    }

    /// The value of the register named by the register field.
    pub fn get_r32(&self, emu: &Emulator) -> (r: Result<u32, EmuError>)
        requires
            emu.wf(),
        ensures
            (self@.reg < 8 ==> r == Ok::<u32, EmuError>(emu@.regs[self@.reg as int])),
            (self@.reg >= 8 ==> r == Err::<u32, EmuError>(
                EmuError::InvalidRegister { encoding: self@.reg as u32 },
            )),
    {
        match emu.get_gpr_id(self.reg_bit as u32) {
            Some(g) => {
                proof {
                    lemma_gpr_roundtrip(self.reg_bit as int);
                }
                Ok(emu.get_gpr_value(&g))
            },
            None => Err(EmuError::InvalidRegister { encoding: self.reg_bit as u32 }),
        }
    }

    /// The value of the register-or-memory operand: the register named by
    /// the register-or-memory field in register-direct mode, else the
    /// doubleword at the effective address.
    pub fn get_rm32(&self, emu: &Emulator) -> (r: Result<u32, EmuError>)
        requires
            emu.wf(),
        ensures
            r == read_rm_spec(self@, emu@),
    {
        if self.md == 3 {
            match emu.get_gpr_id(self.rm as u32) {
                Some(g) => {
                    proof {
                        lemma_gpr_roundtrip(self.rm as int);
                    }
                    Ok(emu.get_gpr_value(&g))
                },
                None => Err(EmuError::InvalidRegister { encoding: self.rm as u32 }),
            }
        } else {
            let addr = match self.calc_memory_address(emu) {
                Ok(a) => a,
                Err(e) => {
                    return Err(e);
                },
            };
            match emu.get_memory32(addr) {
                Ok(v) => {
                    proof {
                        lemma_dword_bound(emu@.mem, addr as int);
                    }
                    Ok(v)
                },
                Err(e) => Err(e),
            }
        }
    }

    /// Replaces the register named by the register field.
    pub fn set_r32(&self, emu: &mut Emulator, new_value: u32) -> (r: Result<(), EmuError>)
        requires
            old(emu).wf(),
        ensures
            final(emu).wf(),
            (self@.reg < 8 ==> r is Ok && final(emu)@ == (Cpu {
                regs: old(emu)@.regs.update(self@.reg as int, new_value),
                ..old(emu)@
            })),
            (self@.reg >= 8 ==> r == Err::<(), EmuError>(
                EmuError::InvalidRegister { encoding: self@.reg as u32 },
            ) && final(emu)@ == old(emu)@),
    {
        match emu.get_gpr_id(self.reg_bit as u32) {
            Some(g) => {
                proof {
                    lemma_gpr_roundtrip(self.reg_bit as int);
                }
                emu.set_gpr(&g, new_value);
                Ok(())
            },
            None => Err(EmuError::InvalidRegister { encoding: self.reg_bit as u32 }),
        }
    }

    /// Writes through the register-or-memory operand: into the register
    /// named by the register-or-memory field in register-direct mode, else
    /// into the four bytes at the effective address.
    pub fn set_rm32(&self, emu: &mut Emulator, value: u32) -> (r: Result<(), EmuError>)
        requires
            old(emu).wf(),
        ensures
            final(emu).wf(),
            outcome(r, final(emu)@) == write_rm_spec(self@, old(emu)@, value),
            (r is Err ==> final(emu)@ == old(emu)@),
    {
        if self.md == 3 {
            match emu.get_gpr_id(self.rm as u32) {
                Some(g) => {
                    proof {
                        lemma_gpr_roundtrip(self.rm as int);
                    }
                    emu.set_gpr(&g, value);
                    Ok(())
                },
                None => Err(EmuError::InvalidRegister { encoding: self.rm as u32 }),
            }
        } else {
            let addr = match self.calc_memory_address(emu) {
                Ok(a) => a,
                Err(e) => {
                    return Err(e);
                },
            };
            emu.set_memory32(addr, value)
        }
    }
}

/// The unsigned 32-bit value with the same bits as the signed `d`.
pub(crate) fn unsigned_bits(d: i32) -> (r: u32)
    ensures
        r as int == wrap32(d as int),
{
    if d >= 0 {
        proof {
            lemma_wrap32_small(d as int);
        }
        d as u32
    } else {
        let r = ((d as i64) + 0x1_0000_0000) as u32;
        proof {
            lemma_wrap32_in_range(d as int, r as int);
        }
        r
    }
}

/// The 32-bit wraparound sum of a base register value and a signed
/// displacement.
pub(crate) fn wrapped_add(base: u32, disp: i32) -> (r: u32)
    ensures
        r as int == wrap32(base + disp),
{
    let e: i64 = base as i64 + disp as i64;
    let w: i64 = if e < 0 {
        e + 0x1_0000_0000
    } else if e >= 0x1_0000_0000 {
        e - 0x1_0000_0000
    } else {
        e
    };
    proof {
        lemma_wrap32_in_range(base as int + disp as int, w as int);
    }
    w as u32
}

/// A ModR/M byte with mode 0 and register-or-memory field 5 names no base
/// register: the sequence is exactly the ModR/M byte plus a four-byte
/// displacement — five bytes, no SIB — and the effective address it decodes
/// to is the raw displacement, whatever any register holds.
pub proof fn lemma_modrm_disp32_addressing(b: u8, d: i32, regs1: Seq<u32>, regs2: Seq<u32>)
    requires
        mrm_mode(b) == 0,
        mrm_rm(b) == 5,
    ensures
        mrm_len(b) == 5,
        ({
            let v = ModRmV {
                mode: 0,
                reg: mrm_reg(b),
                rm: 5,
                sib: 0,
                disp8: None,
                disp32: Some(d),
            };
            calc_addr_spec(v, regs1) == Ok::<u32, EmuError>((wrap32(d as int) as u32))
                && calc_addr_spec(v, regs1) == calc_addr_spec(v, regs2)
        }),
{
}

/// The little-endian doubleword value of four bytes lies below 2^32.
pub(crate) proof fn lemma_dword_bound(m: Seq<u8>, a: int)
    requires
        0 <= a,
        a + 4 <= m.len(),
    ensures
        0 <= dword_at(m, a) < 0x1_0000_0000,
{
    assert(m[a] <= 0xFF && m[a + 1] <= 0xFF && m[a + 2] <= 0xFF && m[a + 3] <= 0xFF);
}

} // verus!
