//! Emulated CPU state: the eight general-purpose registers, the special
//! purpose registers (instruction pointer and flags), and the flat
//! byte-addressed memory, together with the bounds-checked accessors that the
//! instruction handlers build on.

use crate::instruction::{InstructionVector, lemma_runs_to_extend, runs_to, table_step};
use vstd::prelude::*;

pub mod modrm;

verus! {

/// Mask of the carry bit in the flags register.
pub const CARRY_FLAG: u32 = 0x1;
/// Mask of the zero bit in the flags register.
pub const ZERO_FLAG: u32 = 0x40;
/// Mask of the sign bit in the flags register.
pub const SIGN_FLAG: u32 = 0x80;
/// Mask of the overflow bit in the flags register.
pub const OVERFLOW_FLAG: u32 = 0x800;

/// The eight general-purpose registers, in x86 encoding order
/// (`EAX` is encoded as 0, `EDI` as 7).
#[derive(Clone, Copy, Debug, PartialEq, Eq, Structural)]
pub enum GPR {
    EAX,
    ECX,
    EDX,
    EBX,
    ESP,
    EBP,
    ESI,
    EDI,
}

/// The x86 register number of a general-purpose register.
pub open spec fn gpr_index(g: GPR) -> int {
    match g {
        GPR::EAX => 0,
        GPR::ECX => 1,
        GPR::EDX => 2,
        GPR::EBX => 3,
        GPR::ESP => 4,
        GPR::EBP => 5,
        GPR::ESI => 6,
        GPR::EDI => 7,
    }
}

/// The general-purpose register with x86 register number `encoding`,
/// meaningful for `0 <= encoding < 8`.
pub open spec fn gpr_from(encoding: int) -> GPR {
    if encoding == 0 {
        GPR::EAX
    } else if encoding == 1 {
        GPR::ECX
    } else if encoding == 2 {
        GPR::EDX
    } else if encoding == 3 {
        GPR::EBX
    } else if encoding == 4 {
        GPR::ESP
    } else if encoding == 5 {
        GPR::EBP
    } else if encoding == 6 {
        GPR::ESI
    } else {
        GPR::EDI
    }
}

/// Special-purpose registers: the flags register and the instruction pointer.
#[derive(PartialEq, Eq, Structural, Debug)]
pub struct SPR {
    eflags: u32,
    eip: u32,
}

/// The errors with which decoding, dispatch or execution stops.
#[derive(Clone, Copy, Debug, PartialEq, Eq, Structural)]
pub enum EmuError {
    /// A register field held an encoding with no corresponding register.
    InvalidRegister { encoding: u32 },
    /// A memory operand asked for scaled-index (SIB) addressing, which this
    /// core detects but does not implement.
    SibAddressing,
    /// An effective memory address was asked of a register-direct operand.
    NoMemoryOperand,
    /// A memory operand needed a displacement that was never decoded.
    MissingDisplacement,
    /// A code fetch or a data access fell outside the emulated memory.
    OutOfBounds,
    /// The fetched opcode has no handler in the dispatch table.
    UnknownOpcode { opcode: u8, eip: u32 },
    /// A group opcode carried an extension field with no sub-operation.
    UnknownExtension { opcode: u8, extension: u8 },
}

/// The mathematical model of the CPU state: register file, instruction
/// pointer, flags, and memory contents.
#[verifier::ext_equal]
pub ghost struct Cpu {
    pub regs: Seq<u32>,
    pub eip: u32,
    pub eflags: u32,
    pub mem: Seq<u8>,
}

impl Cpu {
    /// Well-formed CPU state: exactly eight registers, and a nonempty memory
    /// whose length fits the 32-bit address space.
    pub open spec fn wf(self) -> bool {
        self.regs.len() == 8 && 0 < self.mem.len() <= 0xFFFF_FFFF
    }

    /// The `n` code bytes starting at the instruction pointer lie in memory.
    pub open spec fn in_code(self, n: int) -> bool {
        self.eip + n <= self.mem.len()
    }

    /// The code byte `i` bytes past the instruction pointer.
    pub open spec fn code(self, i: int) -> u8 {
        self.mem[self.eip + i]
    }
}

/// `v` reduced modulo 2^32: the unsigned 32-bit value with the same low bits.
pub open spec fn wrap32(v: int) -> int {
    v % 0x1_0000_0000
}

/// `v` reduced modulo 2^64: the unsigned 64-bit value with the same low
/// bits; the width in which the subtraction-flag routine sees its result.
pub open spec fn wrap64(v: int) -> int {
    v % 0x1_0000_0000_0000_0000
}

/// The value of byte `b` read as a two's-complement signed 8-bit integer.
pub open spec fn signed8(b: u8) -> int {
    if b < 0x80 {
        b as int
    } else {
        b as int - 0x100
    }
}

/// The value of `v` (in `[0, 2^32)`) read as a two's-complement signed
/// 32-bit integer.
pub open spec fn signed32(v: int) -> int {
    if v < 0x8000_0000 {
        v
    } else {
        v - 0x1_0000_0000
    }
}

/// The unsigned value of the four little-endian bytes of `m` at `a`.
pub open spec fn dword_at(m: Seq<u8>, a: int) -> int {
    m[a] + 0x100 * m[a + 1] + 0x1_0000 * m[a + 2] + 0x100_0000 * m[a + 3]
}

/// `m` with the four little-endian bytes of `v` written at `a`.
pub open spec fn put_dword(m: Seq<u8>, a: int, v: u32) -> Seq<u8> {
    m.update(a, (v as int % 0x100) as u8).update(a + 1, ((v as int / 0x100) % 0x100) as u8).update(
        a + 2,
        ((v as int / 0x1_0000) % 0x100) as u8,
    ).update(a + 3, ((v as int / 0x100_0000) % 0x100) as u8)
}

/// Whether the flag bits selected by `mask` are set in `flags`.
pub open spec fn flag_set(flags: u32, mask: u32) -> bool {
    flags & mask != 0
}

/// `m` with the bytes of `b` copied in starting at `a`, every other byte kept.
pub open spec fn spliced(m: Seq<u8>, a: int, b: Seq<u8>) -> Seq<u8> {
    Seq::new(m.len(), |i: int| if a <= i < a + b.len() { b[i - a] } else { m[i] })
}

/// The flags register after the subtraction-flag routine ran on flags `f`
/// with operands `v1`, `v2` and the wide result `result` of `v1 - v2`:
/// carry from the borrow-out bit (bit 32 and above of the wide result),
/// zero from the wide result being zero, sign from bit 31 of the truncated
/// result, and overflow iff the operands' sign bits differ and the result's
/// sign bit differs from the first operand's.
pub open spec fn eflags_after_sub(f: u32, v1: u32, v2: u32, result: u64) -> u32 {
    let f1 = if result / 0x1_0000_0000 != 0 {
        f | CARRY_FLAG
    } else {
        f & !CARRY_FLAG
    };
    let f2 = if result == 0 {
        f1 | ZERO_FLAG
    } else {
        f1 & !ZERO_FLAG
    };
    let sr = (result / 0x8000_0000) % 2;
    let f3 = if sr != 0 {
        f2 | SIGN_FLAG
    } else {
        f2 & !SIGN_FLAG
    };
    let s1 = v1 / 0x8000_0000;
    let s2 = v2 / 0x8000_0000;
    if s1 != s2 && s1 as u64 != sr {
        f3 | OVERFLOW_FLAG
    } else {
        f3 & !OVERFLOW_FLAG
    }
}

/// The emulated CPU: the register file indexed by x86 register number, the
/// special-purpose registers, and the flat memory.
pub struct Emulator {
    reg_file: Vec<u32>,
    sp_reg: SPR,
    memory: Vec<u8>,
}

impl View for Emulator {
    type V = Cpu;

    closed spec fn view(&self) -> Cpu {
        Cpu {
            regs: self.reg_file@,
            eip: self.sp_reg.eip,
            eflags: self.sp_reg.eflags,
            mem: self.memory@,
        }
    }
}

impl Emulator {
    /// Well-formed emulator state.
    pub open spec fn wf(self) -> bool {
        self@.wf()
    }

    /// A fresh CPU with `size` bytes of zeroed memory, the instruction
    /// pointer at `eip_value`, the stack-pointer register at `esp_value`,
    /// and every other register and every flag cleared.
    pub fn new(size: usize, eip_value: u32, esp_value: u32) -> (r: Self)
        requires
            0 < size <= 0xFFFF_FFFF,
        ensures
            r.wf(),
            r@.eip == eip_value,
            r@.eflags == 0,
            r@.mem == Seq::<u8>::new(size as nat, |i: int| 0u8),
            r@.regs == Seq::<u32>::new(8, |i: int| if i == 4 { esp_value } else { 0u32 }),
    {
        let mut reg_file: Vec<u32> = Vec::new();
        reg_file.push(0);
        reg_file.push(0);
        reg_file.push(0);
        reg_file.push(0);
        reg_file.push(esp_value);
        reg_file.push(0);
        reg_file.push(0);
        reg_file.push(0);
        let sp_reg = SPR { eflags: 0, eip: eip_value };
        let mut memory: Vec<u8> = Vec::new();
        let mut i: usize = 0;
        while i < size
            invariant
                i <= size,
                memory@ =~= Seq::<u8>::new(i as nat, |j: int| 0u8),
            decreases size - i,
        {
            memory.push(0);
            i = i + 1;
        }
        proof {
            assert(reg_file@ =~= Seq::<u32>::new(8, |i: int| if i == 4 { esp_value } else { 0u32 }));
            assert(memory@ =~= Seq::<u8>::new(size as nat, |i: int| 0u8));
        }
        Self { reg_file, sp_reg, memory }
    }

    /// The register whose x86 register number is `reg`: defined exactly for
    /// the encodings 0 through 7, a reported failure for every other value.
    pub fn get_gpr_id(&self, reg: u32) -> (r: Option<GPR>)
        ensures
            reg < 8 ==> r == Some(gpr_from(reg as int)),
            reg >= 8 ==> r is None,
    {
        if reg == 0 {
            Some(GPR::EAX)
        } else if reg == 1 {
            Some(GPR::ECX)
        } else if reg == 2 {
            Some(GPR::EDX)
        } else if reg == 3 {
            Some(GPR::EBX)
        } else if reg == 4 {
            Some(GPR::ESP)
        } else if reg == 5 {
            Some(GPR::EBP)
        } else if reg == 6 {
            Some(GPR::ESI)
        } else if reg == 7 {
            Some(GPR::EDI)
        } else {
            None
        }
    }

    /// The current value of a general-purpose register.
    pub fn get_gpr_value(&self, reg: &GPR) -> (r: u32)
        requires
            self.wf(),
        ensures
            r == self@.regs[gpr_index(*reg)],
    {
        let i: usize = gpr_slot(reg);
        self.reg_file[i]
    }

    /// Replaces the value of a general-purpose register.
    pub fn set_gpr(&mut self, reg: &GPR, new_value: u32)
        requires
            old(self).wf(),
        ensures
            final(self).wf(),
            final(self)@ == (Cpu {
                regs: old(self)@.regs.update(gpr_index(*reg), new_value),
                ..old(self)@
            }),
    {
        let i: usize = gpr_slot(reg);
        self.reg_file[i] = new_value;
    }

    /// The current instruction pointer.
    pub fn get_eip(&self) -> (r: u32)
        ensures
            r == self@.eip,
    {
        self.sp_reg.eip
    }

    /// Replaces the instruction pointer.
    pub fn set_eip(&mut self, new_value: u32)
        ensures
            final(self)@ == (Cpu { eip: new_value, ..old(self)@ }),
    {
        self.sp_reg.eip = new_value;
    }

    /// Advances the instruction pointer by a signed byte count, with 32-bit
    /// wraparound, so that backward jumps (a negative delta) land correctly.
    pub fn inc_eip(&mut self, increment_by: i32)
        ensures
            final(self)@ == (Cpu {
                eip: wrap32(old(self)@.eip + increment_by) as u32,
                ..old(self)@
            }),
    {
        let e: i64 = self.sp_reg.eip as i64 + increment_by as i64;
        let w: i64 = if e < 0 {
            e + 0x1_0000_0000
        } else if e >= 0x1_0000_0000 {
            e - 0x1_0000_0000
        } else {
            e
        };
        proof {
            lemma_wrap32_in_range(self.sp_reg.eip as int + increment_by as int, w as int);
        }
        self.sp_reg.eip = w as u32;
    }

    /// The raw flags register.
    pub fn get_eflags(&self) -> (r: u32)
        ensures
            r == self@.eflags,
    {
        self.sp_reg.eflags
    }

    /// Whether the carry flag is set.
    pub fn is_carry(&self) -> (r: bool)
        ensures
            r == flag_set(self@.eflags, CARRY_FLAG),
    {
        self.get_eflags() & CARRY_FLAG != 0
    }

    /// Whether the zero flag is set.
    pub fn is_zero(&self) -> (r: bool)
        ensures
            r == flag_set(self@.eflags, ZERO_FLAG),
    {
        self.get_eflags() & ZERO_FLAG != 0
    }

    /// Whether the sign flag is set.
    pub fn is_signed(&self) -> (r: bool)
        ensures
            r == flag_set(self@.eflags, SIGN_FLAG),
    {
        self.get_eflags() & SIGN_FLAG != 0
    }

    /// Whether the overflow flag is set.
    pub fn is_overflow(&self) -> (r: bool)
        ensures
            r == flag_set(self@.eflags, OVERFLOW_FLAG),
    {
        self.get_eflags() & OVERFLOW_FLAG != 0
    }

    /// Runs the subtraction-flag routine on the operands `v1`, `v2` and the
    /// wide result `result` of `v1 - v2`, exactly as real `SUB`/`CMP` flag
    /// semantics demand: carry from the borrow-out, zero from the result,
    /// sign from bit 31, overflow from the classic sign rule; every other
    /// flag bit is left alone.
    pub fn update_eflags_sub(&mut self, v1: u32, v2: u32, result: u64)
        ensures
            final(self)@ == (Cpu {
                eflags: eflags_after_sub(old(self)@.eflags, v1, v2, result),
                ..old(self)@
            }),
            flag_set(final(self)@.eflags, CARRY_FLAG) == (result >= 0x1_0000_0000),
            flag_set(final(self)@.eflags, ZERO_FLAG) == (result == 0),
            flag_set(final(self)@.eflags, SIGN_FLAG) == ((result / 0x8000_0000) % 2 == 1),
            flag_set(final(self)@.eflags, OVERFLOW_FLAG) == (v1 / 0x8000_0000 != v2
                / 0x8000_0000 && (v1 / 0x8000_0000) as u64 != (result / 0x8000_0000) % 2),
            final(self)@.eflags & 0xFFFF_F73E == old(self)@.eflags & 0xFFFF_F73E,
    {
        let sign1: u32 = v1 / 0x8000_0000;
        let sign2: u32 = v2 / 0x8000_0000;
        let signr: u64 = (result / 0x8000_0000) % 2;

        self.set_carry(result / 0x1_0000_0000);
        self.set_zero(result == 0);
        self.set_sign(signr);
        self.set_overflow(sign1 != sign2 && sign1 as u64 != signr);
        proof {
            let f0 = old(self)@.eflags;
            let f1 = if result / 0x1_0000_0000 != 0 {
                f0 | CARRY_FLAG
            } else {
                f0 & !CARRY_FLAG
            };
            let f2 = if result == 0 {
                f1 | ZERO_FLAG
            } else {
                f1 & !ZERO_FLAG
            };
            let sr = (result / 0x8000_0000) % 2;
            let f3 = if sr != 0 {
                f2 | SIGN_FLAG
            } else {
                f2 & !SIGN_FLAG
            };
            assert(ZERO_FLAG & CARRY_FLAG == 0 && SIGN_FLAG & CARRY_FLAG == 0 && SIGN_FLAG
                & ZERO_FLAG == 0 && OVERFLOW_FLAG & CARRY_FLAG == 0 && OVERFLOW_FLAG & ZERO_FLAG
                == 0 && OVERFLOW_FLAG & SIGN_FLAG == 0 && CARRY_FLAG & 0xFFFF_F73Eu32 == 0
                && ZERO_FLAG & 0xFFFF_F73Eu32 == 0 && SIGN_FLAG & 0xFFFF_F73Eu32 == 0
                && OVERFLOW_FLAG & 0xFFFF_F73Eu32 == 0) by (bit_vector);
            assert(result / 0x1_0000_0000 != 0 <==> result >= 0x1_0000_0000) by (bit_vector);
            assert(sr == 0 || sr == 1) by (bit_vector)
                requires
                    sr == (result / 0x8000_0000) % 2,
            ;
            lemma_flag_bits(f0, CARRY_FLAG, 0xFFFF_F73E);
            lemma_flag_bits(f1, ZERO_FLAG, CARRY_FLAG);
            lemma_flag_bits(f1, ZERO_FLAG, 0xFFFF_F73E);
            lemma_flag_bits(f2, SIGN_FLAG, CARRY_FLAG);
            lemma_flag_bits(f2, SIGN_FLAG, ZERO_FLAG);
            lemma_flag_bits(f2, SIGN_FLAG, 0xFFFF_F73E);
            lemma_flag_bits(f3, OVERFLOW_FLAG, CARRY_FLAG);
            lemma_flag_bits(f3, OVERFLOW_FLAG, ZERO_FLAG);
            lemma_flag_bits(f3, OVERFLOW_FLAG, SIGN_FLAG);
            lemma_flag_bits(f3, OVERFLOW_FLAG, 0xFFFF_F73E);
        }
    }

    /// Sets or clears the carry flag, from a nonzero borrow-out value.
    fn set_carry(&mut self, is_carry: u64)
        ensures
            final(self)@ == (Cpu {
                eflags: if is_carry != 0 {
                    old(self)@.eflags | CARRY_FLAG
                } else {
                    old(self)@.eflags & !CARRY_FLAG
                },
                ..old(self)@
            }),
    {
        if is_carry != 0 {
            self.sp_reg.eflags = self.sp_reg.eflags | CARRY_FLAG;
        } else {
            self.sp_reg.eflags = self.sp_reg.eflags & !CARRY_FLAG;
        }
    }

    /// Sets or clears the zero flag.
    fn set_zero(&mut self, is_zero: bool)
        ensures
            final(self)@ == (Cpu {
                eflags: if is_zero {
                    old(self)@.eflags | ZERO_FLAG
                } else {
                    old(self)@.eflags & !ZERO_FLAG
                },
                ..old(self)@
            }),
    {
        if is_zero {
            self.sp_reg.eflags = self.sp_reg.eflags | ZERO_FLAG;
        } else {
            self.sp_reg.eflags = self.sp_reg.eflags & !ZERO_FLAG;
        }
    }

    /// Sets or clears the sign flag, from the result's nonzero sign bit.
    fn set_sign(&mut self, is_signed: u64)
        ensures
            final(self)@ == (Cpu {
                eflags: if is_signed != 0 {
                    old(self)@.eflags | SIGN_FLAG
                } else {
                    old(self)@.eflags & !SIGN_FLAG
                },
                ..old(self)@
            }),
    {
        if is_signed != 0 {
            self.sp_reg.eflags = self.sp_reg.eflags | SIGN_FLAG;
        } else {
            self.sp_reg.eflags = self.sp_reg.eflags & !SIGN_FLAG;
        }
    }

    /// Sets or clears the overflow flag.
    fn set_overflow(&mut self, is_overflow: bool)
        ensures
            final(self)@ == (Cpu {
                eflags: if is_overflow {
                    old(self)@.eflags | OVERFLOW_FLAG
                } else {
                    old(self)@.eflags & !OVERFLOW_FLAG
                },
                ..old(self)@
            }),
    {
        if is_overflow {
            self.sp_reg.eflags = self.sp_reg.eflags | OVERFLOW_FLAG;
        } else {
            self.sp_reg.eflags = self.sp_reg.eflags & !OVERFLOW_FLAG;
        }
    }

    /// Copies `binary` verbatim into memory starting at `address`,
    /// overwriting exactly that range; fails, touching nothing, when the
    /// range does not fit in memory.
    pub fn load_bin(&mut self, binary: Vec<u8>, address: u32) -> (r: Result<(), EmuError>)
        requires
            old(self).wf(),
        ensures
            final(self).wf(),
            (r is Ok <==> address + binary@.len() <= old(self)@.mem.len()),
            (r is Ok ==> final(self)@ == (Cpu {
                mem: spliced(old(self)@.mem, address as int, binary@),
                ..old(self)@
            })),
            (r is Err ==> final(self)@ == old(self)@ && r == Err::<(), EmuError>(
                EmuError::OutOfBounds,
            )),
    {
        let a = address as usize;
        if binary.len() > self.memory.len() || a > self.memory.len() - binary.len() {
            return Err(EmuError::OutOfBounds);
        }
        let ghost m0 = self.memory@;
        let mut i: usize = 0;
        while i < binary.len()
            invariant
                self.memory@.len() == m0.len(),
                a + binary@.len() <= m0.len(),
                a + binary@.len() <= usize::MAX,
                i <= binary@.len(),
                self.reg_file == old(self).reg_file,
                self.sp_reg == old(self).sp_reg,
                m0 == old(self)@.mem,
                forall|j: int|
                    0 <= j < m0.len() ==> self.memory@[j] == (if a <= j < a + i {
                        binary@[j - a]
                    } else {
                        m0[j]
                    }),
            decreases binary@.len() - i,
        {
            self.memory[a + i] = binary[i];
            i = i + 1;
        }
        proof {
            assert(self.memory@ =~= spliced(m0, address as int, binary@));
        }
        Ok(())
    }

    /// The code byte `index` bytes past the instruction pointer; fails when
    /// that position lies outside memory.
    pub fn get_code8(&self, index: usize) -> (r: Result<u8, EmuError>)
        ensures
            (r is Ok <==> self@.eip + index < self@.mem.len()),
            (r matches Ok(b) ==> b == self@.mem[self@.eip + index]),
            (r is Err ==> r == Err::<u8, EmuError>(EmuError::OutOfBounds)),
    {
        let e = self.sp_reg.eip as usize;
        if index < self.memory.len() && e < self.memory.len() - index {
            Ok(self.memory[e + index])
        } else {
            Err(EmuError::OutOfBounds)
        }
    }

    /// The code byte `index` bytes past the instruction pointer, read as a
    /// signed 8-bit integer.
    pub fn get_signed_code8(&self, index: usize) -> (r: Result<i8, EmuError>)
        ensures
            (r is Ok <==> self@.eip + index < self@.mem.len()),
            (r matches Ok(b) ==> b as int == signed8(self@.mem[self@.eip + index])),
            (r is Err ==> r == Err::<i8, EmuError>(EmuError::OutOfBounds)),
    {
        match self.get_code8(index) {
            Ok(b) => if b < 0x80 {
                Ok(b as i8)
            } else {
                Ok(((b as i16) - 0x100) as i8)
            },
            Err(e) => Err(e),
        }
    }

    /// The unsigned value of the four little-endian code bytes starting
    /// `index` bytes past the instruction pointer.
    pub fn get_code32(&self, index: usize) -> (r: Result<u32, EmuError>)
        ensures
            (r is Ok <==> self@.eip + index + 4 <= self@.mem.len()),
            (r matches Ok(v) ==> v as int == dword_at(self@.mem, self@.eip + index)),
            (r is Err ==> r == Err::<u32, EmuError>(EmuError::OutOfBounds)),
    {
        let len = self.memory.len();
        if index >= len || len - index < 4 {
            return Err(EmuError::OutOfBounds);
        }
        let e = self.sp_reg.eip as usize;
        if e > len - index - 4 {
            return Err(EmuError::OutOfBounds);
        }
        let b0 = self.memory[e + index];
        let b1 = self.memory[e + index + 1];
        let b2 = self.memory[e + index + 2];
        let b3 = self.memory[e + index + 3];
        Ok((b0 as u32) + 0x100 * (b1 as u32) + 0x1_0000 * (b2 as u32) + 0x100_0000 * (b3 as u32))
    }

    /// The four little-endian code bytes starting `index` bytes past the
    /// instruction pointer, read as a signed 32-bit integer.
    pub fn get_signed_code32(&self, index: usize) -> (r: Result<i32, EmuError>)
        ensures
            (r is Ok <==> self@.eip + index + 4 <= self@.mem.len()),
            (r matches Ok(v) ==> v as int == signed32(dword_at(self@.mem, self@.eip + index))),
            (r is Err ==> r == Err::<i32, EmuError>(EmuError::OutOfBounds)),
    {
        match self.get_code32(index) {
            Ok(v) => if v < 0x8000_0000 {
                Ok(v as i32)
            } else {
                Ok(((v as i64) - 0x1_0000_0000) as i32)
            },
            Err(e) => Err(e),
        }
    }

    /// The memory byte at the absolute address `address`.
    pub fn get_memory8(&self, address: u32) -> (r: Result<u8, EmuError>)
        ensures
            (r is Ok <==> address < self@.mem.len()),
            (r matches Ok(b) ==> b == self@.mem[address as int]),
            (r is Err ==> r == Err::<u8, EmuError>(EmuError::OutOfBounds)),
    {
        let a = address as usize;
        if a < self.memory.len() {
            Ok(self.memory[a])
        } else {
            Err(EmuError::OutOfBounds)
        }
    }

    /// The unsigned value of the four little-endian memory bytes at the
    /// absolute address `address`.
    pub fn get_memory32(&self, address: u32) -> (r: Result<u32, EmuError>)
        ensures
            (r is Ok <==> address + 4 <= self@.mem.len()),
            (r matches Ok(v) ==> v as int == dword_at(self@.mem, address as int)),
            (r is Err ==> r == Err::<u32, EmuError>(EmuError::OutOfBounds)),
    {
        let len = self.memory.len();
        let a = address as usize;
        if len < 4 || a > len - 4 {
            return Err(EmuError::OutOfBounds);
        }
        let b0 = self.memory[a];
        let b1 = self.memory[a + 1];
        let b2 = self.memory[a + 2];
        let b3 = self.memory[a + 3];
        Ok((b0 as u32) + 0x100 * (b1 as u32) + 0x1_0000 * (b2 as u32) + 0x100_0000 * (b3 as u32))
    }

    /// Stores the low byte of `value` at the absolute address `address`.
    pub fn set_memory8(&mut self, address: u32, value: u32) -> (r: Result<(), EmuError>)
        ensures
            (r is Ok <==> address < old(self)@.mem.len()),
            (r is Ok ==> final(self)@ == (Cpu {
                mem: old(self)@.mem.update(address as int, (value % 0x100) as u8),
                ..old(self)@
            })),
            (r is Err ==> final(self)@ == old(self)@ && r == Err::<(), EmuError>(
                EmuError::OutOfBounds,
            )),
    {
        let a = address as usize;
        if a < self.memory.len() {
            self.memory[a] = (value % 0x100) as u8;
            Ok(())
        } else {
            Err(EmuError::OutOfBounds)
        }
    }

    /// The fetch-decode-execute loop. While the instruction pointer lies
    /// inside memory, fetches the opcode byte at the pointer, looks its
    /// handler up in the dispatch table, and runs it; an opcode with no
    /// handler, or a handler that fails, stops the run with that error and
    /// the CPU exactly as the failing instruction found it. The run ends
    /// normally — `Ok(true)` — when the pointer leaves memory or lands on
    /// the halt sentinel, address zero, after an instruction; after
    /// `max_steps` instructions it gives up the slice with `Ok(false)`.
    pub fn run(&mut self, instructions: InstructionVector, max_steps: u64) -> (r: Result<
        bool,
        EmuError,
    >)
        requires
            old(self).wf(),
            instructions.0@.len() >= 0x100,
        ensures
            final(self).wf(),
            (exists|n: nat|
                n <= max_steps && #[trigger] runs_to(
                    instructions.0@,
                    old(self)@,
                    final(self)@,
                    n,
                )),
            (r == Ok::<bool, EmuError>(true) ==> final(self)@.eip == 0 || final(self)@.eip
                >= final(self)@.mem.len()),
            (r == Ok::<bool, EmuError>(true) && final(self)@.eip < final(self)@.mem.len()
                ==> exists|n: nat|
                1 <= n <= max_steps && #[trigger] runs_to(
                    instructions.0@,
                    old(self)@,
                    final(self)@,
                    n,
                )),
            (r == Ok::<bool, EmuError>(false) ==> runs_to(
                instructions.0@,
                old(self)@,
                final(self)@,
                max_steps as nat,
            ) && final(self)@.eip < final(self)@.mem.len()),
            (r matches Err(e) ==> final(self)@.eip < final(self)@.mem.len() && table_step(
                instructions.0@,
                final(self)@,
            ) == Err::<Cpu, EmuError>(e)),
    {
        let ghost c0 = self@;
        let ghost t = instructions.0@;
        let mut steps: u64 = 0;
        while self.sp_reg.eip < (self.memory.len() as u32)
            invariant
                self.wf(),
                c0 == old(self)@,
                t == instructions.0@,
                t.len() >= 0x100,
                steps <= max_steps,
                steps == 0 || self@.eip != 0,
                runs_to(t, c0, self@, steps as nat),
            decreases max_steps - steps,
        {
            if steps == max_steps {
                return Ok(false);
            }
            let ghost pre = self@;
            let code = self.memory[self.sp_reg.eip as usize];
            match instructions.0[code as usize] {
                Some(op) => {
                    match crate::instruction::execute(op, self) {
                        Ok(_) => {},
                        Err(e) => {
                            return Err(e);
                        },
                    }
                },
                None => {
                    return Err(EmuError::UnknownOpcode { opcode: code, eip: self.sp_reg.eip });
                },
            }
            proof {
                lemma_runs_to_extend(t, c0, pre, steps as nat, self@);
            }
            steps = steps + 1;
            if self.sp_reg.eip == 0 {
                return Ok(true);
            }
        }
        Ok(true)
    }

    /// Stores `value` as four little-endian bytes at the absolute address
    /// `address`; fails, touching nothing, when the range does not fit.
    pub fn set_memory32(&mut self, address: u32, value: u32) -> (r: Result<(), EmuError>)
        ensures
            (r is Ok <==> address + 4 <= old(self)@.mem.len()),
            (r is Ok ==> final(self)@ == (Cpu {
                mem: put_dword(old(self)@.mem, address as int, value),
                ..old(self)@
            })),
            (r is Err ==> final(self)@ == old(self)@ && r == Err::<(), EmuError>(
                EmuError::OutOfBounds,
            )),
    {
        let len = self.memory.len();
        let a = address as usize;
        if len < 4 || a > len - 4 {
            return Err(EmuError::OutOfBounds);
        }
        self.memory[a] = (value % 0x100) as u8;
        self.memory[a + 1] = ((value / 0x100) % 0x100) as u8;
        self.memory[a + 2] = ((value / 0x1_0000) % 0x100) as u8;
        self.memory[a + 3] = ((value / 0x100_0000) % 0x100) as u8;
        Ok(())
    }
}

/// The register-file slot of a general-purpose register; equals its x86
/// register number.
fn gpr_slot(reg: &GPR) -> (r: usize)
    ensures
        r == gpr_index(*reg),
        r < 8,
{
    match reg {
        GPR::EAX => 0,
        GPR::ECX => 1,
        GPR::EDX => 2,
        GPR::EBX => 3,
        GPR::ESP => 4,
        GPR::EBP => 5,
        GPR::ESI => 6,
        GPR::EDI => 7,
    }
}

/// `c` with the instruction pointer advanced by `n` bytes, with 32-bit
/// wraparound.
pub open spec fn advanced(c: Cpu, n: int) -> Cpu {
    Cpu { eip: wrap32(c.eip + n) as u32, ..c }
}

/// The state change of a fallible operation on the CPU: the new state when
/// it succeeded, its error when it failed.
pub open spec fn outcome(r: Result<(), EmuError>, c: Cpu) -> Result<Cpu, EmuError> {
    match r {
        Ok(_) => Ok(c),
        Err(e) => Err(e),
    }
}

/// Setting the bits of `mask` in `f` makes the flag named by `mask` read as
/// set, clearing them makes it read as clear, and either way every bit of
/// `other`, disjoint from `mask`, keeps its value.
proof fn lemma_flag_bits(f: u32, mask: u32, other: u32)
    requires
        mask != 0,
        mask & other == 0,
    ensures
        flag_set(f | mask, mask),
        !flag_set(f & !mask, mask),
        (f | mask) & other == f & other,
        (f & !mask) & other == f & other,
{
    assert((f | mask) & mask != 0 && (f & !mask) & mask == 0 && (f | mask) & other == f & other && (
    f & !mask) & other == f & other) by (bit_vector)
        requires
            mask != 0,
            mask & other == 0,
    ;
}

/// Writing a register and reading it back yields the written value
/// unchanged, and every other register keeps its value.
pub proof fn lemma_register_round_trip(c: Cpu, g: GPR, value: u32)
    requires
        c.wf(),
    ensures
        ({
            let c2 = Cpu { regs: c.regs.update(gpr_index(g), value), ..c };
            c2.regs[gpr_index(g)] == value && (forall|h: GPR|
                h != g ==> c2.regs[gpr_index(h)] == c.regs[gpr_index(h)])
        }),
{
}

/// Storing a doubleword and loading it back at the same address yields the
/// value unchanged, for every value and every in-bounds address: the
/// little-endian store and load are inverses.
pub proof fn lemma_dword_round_trip(m: Seq<u8>, a: int, v: u32)
    requires
        0 <= a,
        a + 4 <= m.len(),
    ensures
        dword_at(put_dword(m, a, v), a) == v,
{
    assert(v % 0x100 + 0x100 * ((v / 0x100) % 0x100) + 0x1_0000 * ((v / 0x1_0000) % 0x100)
        + 0x100_0000 * ((v / 0x100_0000) % 0x100) == v) by (bit_vector);
}

/// Reading a register number out of the register it names gives the number
/// back: the register enumeration and the x86 encoding agree.
pub proof fn lemma_gpr_roundtrip(k: int)
    requires
        0 <= k < 8,
    ensures
        gpr_index(gpr_from(k)) == k,
{
}

/// For `0 <= v < 2^32`, reducing `v` modulo 2^32 changes nothing.
pub proof fn lemma_wrap32_small(v: int)
    requires
        0 <= v < 0x1_0000_0000,
    ensures
        wrap32(v) == v,
{
    vstd::arithmetic::div_mod::lemma_small_mod(v as nat, 0x1_0000_0000);
}

/// Reducing modulo 2^32 may be done before or after adding an offset.
pub proof fn lemma_wrap32_shift(a: int, b: int)
    ensures
        wrap32(wrap32(a) + b) == wrap32(a + b),
{
    let m = 0x1_0000_0000;
    vstd::arithmetic::div_mod::lemma_fundamental_div_mod(a, m);
    vstd::arithmetic::div_mod::lemma_mod_multiples_vanish(a / m, a % m + b, m);
}

/// The low 32 bits of a value reduced modulo 2^64 are the value modulo 2^32.
pub proof fn lemma_wrap32_of_wrap64(v: int)
    ensures
        wrap32(wrap64(v)) == wrap32(v),
{
    vstd::arithmetic::div_mod::lemma_mod_mod(v, 0x1_0000_0000, 0x1_0000_0000);
}

/// For `-2^64 <= v < 2^64` and `w` equal to `v` shifted into `[0, 2^64)` by
/// one correction, `w` is `v` modulo 2^64.
pub proof fn lemma_wrap64_in_range(v: int, w: int)
    requires
        0 <= w < 0x1_0000_0000_0000_0000,
        w == v || w == v + 0x1_0000_0000_0000_0000 || w == v - 0x1_0000_0000_0000_0000,
    ensures
        w == wrap64(v),
{
    let m = 0x1_0000_0000_0000_0000;
    if w == v {
        assert(wrap64(v) == v) by {
            vstd::arithmetic::div_mod::lemma_small_mod(v as nat, m as nat);
        };
    } else if w == v + m {
        assert(wrap64(v) == wrap64(v + m)) by {
            vstd::arithmetic::div_mod::lemma_mod_add_multiples_vanish(v, m);
        };
        assert(wrap64(w) == w) by {
            vstd::arithmetic::div_mod::lemma_small_mod(w as nat, m as nat);
        };
    } else {
        assert(wrap64(v) == wrap64(v - m)) by {
            vstd::arithmetic::div_mod::lemma_mod_sub_multiples_vanish(v, m);
        };
        assert(wrap64(w) == w) by {
            vstd::arithmetic::div_mod::lemma_small_mod(w as nat, m as nat);
        };
    }
}

/// For `-2^32 <= v < 2^32` and `w` equal to `v` shifted into `[0, 2^32)` by
/// one correction, `w` is `v` modulo 2^32.
pub proof fn lemma_wrap32_in_range(v: int, w: int)
    requires
        0 <= w < 0x1_0000_0000,
        w == v || w == v + 0x1_0000_0000 || w == v - 0x1_0000_0000,
    ensures
        w == wrap32(v),
{
    if w == v {
        assert(wrap32(v) == v) by {
            vstd::arithmetic::div_mod::lemma_small_mod(v as nat, 0x1_0000_0000);
        };
    } else if w == v + 0x1_0000_0000 {
        assert(wrap32(v) == wrap32(v + 0x1_0000_0000)) by {
            vstd::arithmetic::div_mod::lemma_mod_add_multiples_vanish(v, 0x1_0000_0000);
        };
        assert(wrap32(w) == w) by {
            vstd::arithmetic::div_mod::lemma_small_mod(w as nat, 0x1_0000_0000);
        };
    } else {
        assert(wrap32(v) == wrap32(v - 0x1_0000_0000)) by {
            vstd::arithmetic::div_mod::lemma_mod_sub_multiples_vanish(v, 0x1_0000_0000);
        };
        assert(wrap32(w) == w) by {
            vstd::arithmetic::div_mod::lemma_small_mod(w as nat, 0x1_0000_0000);
        };
    }
}

} // verus!
