//! The opcode dispatch table: a total mapping from opcode byte to an
//! optional instruction handler, built once before execution and immutable
//! afterwards.

use crate::emulator::{
    CARRY_FLAG, Cpu, EmuError, Emulator, OVERFLOW_FLAG, SIGN_FLAG, ZERO_FLAG, flag_set, outcome,
};
use crate::instruction::operation::{
    add_rm32_r32, call_rel32, code_83, code_ff, jc, jl, jle, jnc, jno, jnz, jns, jo, js, jz, leave,
    mov_r32_imm32, mov_r32_rm32, mov_rm32_imm32, mov_rm32_r32, near_jump, pop_r32, push_imm32,
    push_imm8, push_r32, ret, short_jump, step_add_rm32_r32, step_call_rel32, step_code_83,
    step_code_ff, step_jcc, step_leave, step_mov_r32_imm32, step_mov_r32_rm32, step_mov_rm32_imm32,
    step_mov_rm32_r32, step_near_jump, step_pop_r32, step_push_imm32, step_push_imm8,
    step_push_r32, step_ret, step_short_jump,
};
use vstd::prelude::*;

pub mod io;
pub mod operation;

verus! {

/// The instruction handlers this core implements, one per opcode family.
/// A dispatch-table slot holds one of these; `execute` runs it.
#[derive(Clone, Copy, Debug, PartialEq, Eq, Structural)]
pub enum Handler {
    AddRm32R32,
    PushR32,
    PopR32,
    PushImm32,
    PushImm8,
    Jo,
    Jno,
    Jc,
    Jnc,
    Jz,
    Jnz,
    Js,
    Jns,
    Jl,
    Jle,
    Code83,
    MovRm32R32,
    MovR32Rm32,
    MovR32Imm32,
    Ret,
    MovRm32Imm32,
    Leave,
    CallRel32,
    NearJump,
    ShortJump,
    CodeFF,
}

/// The handler the dispatch table assigns to the opcode byte `code`, `None`
/// for an unimplemented opcode.
pub open spec fn handler_for(code: u8) -> Option<Handler> {
    if code == 0x01 {
        Some(Handler::AddRm32R32)
    } else if 0x50 <= code && code <= 0x57 {
        Some(Handler::PushR32)
    } else if 0x58 <= code && code <= 0x5F {
        Some(Handler::PopR32)
    } else if code == 0x68 {
        Some(Handler::PushImm32)
    } else if code == 0x6A {
        Some(Handler::PushImm8)
    } else if code == 0x70 {
        Some(Handler::Jo)
    } else if code == 0x71 {
        Some(Handler::Jno)
    } else if code == 0x72 {
        Some(Handler::Jc)
    } else if code == 0x73 {
        Some(Handler::Jnc)
    } else if code == 0x74 {
        Some(Handler::Jz)
    } else if code == 0x75 {
        Some(Handler::Jnz)
    } else if code == 0x78 {
        Some(Handler::Js)
    } else if code == 0x79 {
        Some(Handler::Jns)
    } else if code == 0x7C {
        Some(Handler::Jl)
    } else if code == 0x7E {
        Some(Handler::Jle)
    } else if code == 0x83 {
        Some(Handler::Code83)
    } else if code == 0x89 {
        Some(Handler::MovRm32R32)
    } else if code == 0x8B {
        Some(Handler::MovR32Rm32)
    } else if 0xB8 <= code && code <= 0xBF {
        Some(Handler::MovR32Imm32)
    } else if code == 0xC3 {
        Some(Handler::Ret)
    } else if code == 0xC7 {
        Some(Handler::MovRm32Imm32)
    } else if code == 0xC9 {
        Some(Handler::Leave)
    } else if code == 0xE8 {
        Some(Handler::CallRel32)
    } else if code == 0xE9 {
        Some(Handler::NearJump)
    } else if code == 0xEB {
        Some(Handler::ShortJump)
    } else if code == 0xFF {
        Some(Handler::CodeFF)
    } else {
        None
    }
}

/// The dispatch table: slot `i` holds the handler for opcode `i`, or `None`
/// for an unimplemented opcode.
pub struct InstructionVector(pub Vec<Option<Handler>>);

impl InstructionVector {
    /// Builds the dispatch table with `size` slots (at least 256, so every
    /// opcode byte has one), wiring each implemented opcode to its handler.
    pub fn new(size: usize) -> (r: InstructionVector)
        requires
            size >= 0x100,
        ensures
            r.0@.len() == size,
            forall|i: int|
                0 <= i < size ==> r.0@[i] == (if i < 0x100 {
                    handler_for(i as u8)
                } else {
                    None
                }),
    {
        let mut instructions: Vec<Option<Handler>> = Vec::new();
        let mut i: usize = 0;
        while i < size
            invariant
                i <= size,
                instructions@.len() == i,
                forall|j: int|
                    0 <= j < i ==> instructions@[j] == (if j < 0x100 {
                        handler_for(j as u8)
                    } else {
                        None
                    }),
            decreases size - i,
        {
            if i < 0x100 {
                instructions.push(handler_for_code(i as u8));
            } else {
                instructions.push(None);
            }
            i = i + 1;
        }
        InstructionVector(instructions)
    }
}

/// What one dispatched handler does to the CPU.
#[verifier::opaque]
pub open spec fn step_handler(h: Handler, c: Cpu) -> Result<Cpu, EmuError> {
    match h {
        Handler::AddRm32R32 => step_add_rm32_r32(c),
        Handler::PushR32 => step_push_r32(c),
        Handler::PopR32 => step_pop_r32(c),
        Handler::PushImm32 => step_push_imm32(c),
        Handler::PushImm8 => step_push_imm8(c),
        Handler::Jo => step_jcc(c, flag_set(c.eflags, OVERFLOW_FLAG)),
        Handler::Jno => step_jcc(c, !flag_set(c.eflags, OVERFLOW_FLAG)),
        Handler::Jc => step_jcc(c, flag_set(c.eflags, CARRY_FLAG)),
        Handler::Jnc => step_jcc(c, !flag_set(c.eflags, CARRY_FLAG)),
        Handler::Jz => step_jcc(c, flag_set(c.eflags, ZERO_FLAG)),
        Handler::Jnz => step_jcc(c, !flag_set(c.eflags, ZERO_FLAG)),
        Handler::Js => step_jcc(c, flag_set(c.eflags, SIGN_FLAG)),
        Handler::Jns => step_jcc(c, !flag_set(c.eflags, SIGN_FLAG)),
        Handler::Jl => step_jcc(
            c,
            flag_set(c.eflags, SIGN_FLAG) != flag_set(c.eflags, OVERFLOW_FLAG),
        ),
        Handler::Jle => step_jcc(
            c,
            flag_set(c.eflags, ZERO_FLAG) || flag_set(c.eflags, SIGN_FLAG) != flag_set(
                c.eflags,
                OVERFLOW_FLAG,
            ),
        ),
        Handler::Code83 => step_code_83(c),
        Handler::MovRm32R32 => step_mov_rm32_r32(c),
        Handler::MovR32Rm32 => step_mov_r32_rm32(c),
        Handler::MovR32Imm32 => step_mov_r32_imm32(c),
        Handler::Ret => step_ret(c),
        Handler::MovRm32Imm32 => step_mov_rm32_imm32(c),
        Handler::Leave => step_leave(c),
        Handler::CallRel32 => step_call_rel32(c),
        Handler::NearJump => step_near_jump(c),
        Handler::ShortJump => step_short_jump(c),
        Handler::CodeFF => step_code_ff(c),
    }
}

/// Runs the handler `h`: the full effect of one instruction on the CPU.
pub fn execute(h: Handler, emu: &mut Emulator) -> (r: Result<(), EmuError>)
    requires
        old(emu).wf(),
    ensures
        final(emu).wf(),
        outcome(r, final(emu)@) == step_handler(h, old(emu)@),
        (r is Err ==> final(emu)@ == old(emu)@),
{
    proof {
        reveal(step_handler);
    }
    match h {
        Handler::AddRm32R32 => add_rm32_r32(emu),
        Handler::PushR32 => push_r32(emu),
        Handler::PopR32 => pop_r32(emu),
        Handler::PushImm32 => push_imm32(emu),
        Handler::PushImm8 => push_imm8(emu),
        Handler::Jo => jo(emu),
        Handler::Jno => jno(emu),
        Handler::Jc => jc(emu),
        Handler::Jnc => jnc(emu),
        Handler::Jz => jz(emu),
        Handler::Jnz => jnz(emu),
        Handler::Js => js(emu),
        Handler::Jns => jns(emu),
        Handler::Jl => jl(emu),
        Handler::Jle => jle(emu),
        Handler::Code83 => code_83(emu),
        Handler::MovRm32R32 => mov_rm32_r32(emu),
        Handler::MovR32Rm32 => mov_r32_rm32(emu),
        Handler::MovR32Imm32 => mov_r32_imm32(emu),
        Handler::Ret => ret(emu),
        Handler::MovRm32Imm32 => mov_rm32_imm32(emu),
        Handler::Leave => leave(emu),
        Handler::CallRel32 => call_rel32(emu),
        Handler::NearJump => near_jump(emu),
        Handler::ShortJump => short_jump(emu),
        Handler::CodeFF => code_ff(emu),
    }
}

/// One fetch-dispatch-execute step of the execution loop on the dispatch
/// table `t`, meaningful for a state whose instruction pointer lies inside
/// memory: look up the opcode byte at the pointer and run its handler, or
/// stop on an opcode with none.
pub open spec fn table_step(t: Seq<Option<Handler>>, c: Cpu) -> Result<Cpu, EmuError> {
    match t[c.mem[c.eip as int] as int] {
        Some(h) => step_handler(h, c),
        None => Err(EmuError::UnknownOpcode { opcode: c.mem[c.eip as int], eip: c.eip }),
    }
}

/// The execution loop on table `t` carries the CPU from `c` to `c2` in
/// exactly `n` steps: before each step the instruction pointer lies inside
/// memory, each dispatched handler succeeds, and no state after a step —
/// save possibly the last — has hit the halt sentinel of instruction
/// pointer zero.
pub open spec fn runs_to(t: Seq<Option<Handler>>, c: Cpu, c2: Cpu, n: nat) -> bool
    decreases n,
{
    if n == 0 {
        c2 == c
    } else if !(c.eip < c.mem.len() && table_step(t, c) is Ok) {
        false
    } else {
        let mid = table_step(t, c)->Ok_0;
        if mid.eip == 0 {
            n == 1 && c2 == mid
        } else {
            runs_to(t, mid, c2, (n - 1) as nat)
        }
    }
}

/// A successful run of `n` steps, ending anywhere but the halt sentinel,
/// extends by one more successful step.
pub proof fn lemma_runs_to_extend(t: Seq<Option<Handler>>, a: Cpu, b: Cpu, n: nat, m: Cpu)
    requires
        runs_to(t, a, b, n),
        n == 0 || b.eip != 0,
        b.eip < b.mem.len(),
        table_step(t, b) == Ok::<Cpu, EmuError>(m),
    ensures
        runs_to(t, a, m, n + 1),
    decreases n,
{
    if n == 0 {
        assert(runs_to(t, m, m, 0));
    } else {
        let mid = table_step(t, a)->Ok_0;
        lemma_runs_to_extend(t, mid, b, (n - 1) as nat, m);
    }
}

/// The handler for the opcode byte `code`, as the dispatch table stores it.
fn handler_for_code(code: u8) -> (r: Option<Handler>)
    ensures
        r == handler_for(code),
{
    if code == 0x01 {
        Some(Handler::AddRm32R32)
    } else if 0x50 <= code && code <= 0x57 {
        Some(Handler::PushR32)
    } else if 0x58 <= code && code <= 0x5F {
        Some(Handler::PopR32)
    } else if code == 0x68 {
        Some(Handler::PushImm32)
    } else if code == 0x6A {
        Some(Handler::PushImm8)
    } else if code == 0x70 {
        Some(Handler::Jo)
    } else if code == 0x71 {
        Some(Handler::Jno)
    } else if code == 0x72 {
        Some(Handler::Jc)
    } else if code == 0x73 {
        Some(Handler::Jnc)
    } else if code == 0x74 {
        Some(Handler::Jz)
    } else if code == 0x75 {
        Some(Handler::Jnz)
    } else if code == 0x78 {
        Some(Handler::Js)
    } else if code == 0x79 {
        Some(Handler::Jns)
    } else if code == 0x7C {
        Some(Handler::Jl)
    } else if code == 0x7E {
        Some(Handler::Jle)
    } else if code == 0x83 {
        Some(Handler::Code83)
    } else if code == 0x89 {
        Some(Handler::MovRm32R32)
    } else if code == 0x8B {
        Some(Handler::MovR32Rm32)
    } else if 0xB8 <= code && code <= 0xBF {
        Some(Handler::MovR32Imm32)
    } else if code == 0xC3 {
        Some(Handler::Ret)
    } else if code == 0xC7 {
        Some(Handler::MovRm32Imm32)
    } else if code == 0xC9 {
        Some(Handler::Leave)
    } else if code == 0xE8 {
        Some(Handler::CallRel32)
    } else if code == 0xE9 {
        Some(Handler::NearJump)
    } else if code == 0xEB {
        Some(Handler::ShortJump)
    } else if code == 0xFF {
        Some(Handler::CodeFF)
    } else {
        None
    }
}

} // verus!
