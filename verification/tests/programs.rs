use rpx86::emulator::{EmuError, Emulator, GPR};
use rpx86::instruction::{Handler, InstructionVector};

const MEM_SIZE: usize = 0x10000;
const ORG: u32 = 0x7C00;
// The stack grows down from zeroed memory, so the first `ret` with an
// untouched stack pops the zero sentinel and halts the run.
const STACK: u32 = 0x8000;

fn machine_with(image: Vec<u8>) -> Emulator {
    let mut emu = Emulator::new(MEM_SIZE, ORG, STACK);
    emu.load_bin(image, ORG).unwrap();
    emu
}

#[test]
fn dispatch_table_layout() {
    let iv = InstructionVector::new(0x100);
    assert_eq!(iv.0.len(), 0x100);
    assert_eq!(iv.0[0x01], Some(Handler::AddRm32R32));
    for i in 0x50..0x58 {
        assert_eq!(iv.0[i], Some(Handler::PushR32));
    }
    for i in 0x58..0x60 {
        assert_eq!(iv.0[i], Some(Handler::PopR32));
    }
    assert_eq!(iv.0[0x68], Some(Handler::PushImm32));
    assert_eq!(iv.0[0x6A], Some(Handler::PushImm8));
    assert_eq!(iv.0[0x74], Some(Handler::Jz));
    assert_eq!(iv.0[0x83], Some(Handler::Code83));
    assert_eq!(iv.0[0x89], Some(Handler::MovRm32R32));
    assert_eq!(iv.0[0x8B], Some(Handler::MovR32Rm32));
    for i in 0xB8..0xC0 {
        assert_eq!(iv.0[i], Some(Handler::MovR32Imm32));
    }
    assert_eq!(iv.0[0xC3], Some(Handler::Ret));
    assert_eq!(iv.0[0xC7], Some(Handler::MovRm32Imm32));
    assert_eq!(iv.0[0xC9], Some(Handler::Leave));
    assert_eq!(iv.0[0xE8], Some(Handler::CallRel32));
    assert_eq!(iv.0[0xE9], Some(Handler::NearJump));
    assert_eq!(iv.0[0xEB], Some(Handler::ShortJump));
    assert_eq!(iv.0[0xFF], Some(Handler::CodeFF));
    assert_eq!(iv.0[0x00], None);
    assert_eq!(iv.0[0x90], None);
    // A larger table leaves every slot past the opcode range empty.
    let big = InstructionVector::new(0x180);
    assert_eq!(big.0.len(), 0x180);
    assert_eq!(big.0[0x150], None);
}

#[test]
fn mov_immediate_then_halt_leaves_forty_one_in_eax() {
    // mov eax, 41; ret with 0 on the stack — the return-to-zero sentinel.
    let mut emu = machine_with(vec![0xB8, 0x29, 0x00, 0x00, 0x00, 0xC3]);
    let done = emu
        .run(InstructionVector::new(0x100), 1000)
        .expect("the program halts without a fatal error");
    assert!(done);
    assert_eq!(emu.get_gpr_value(&GPR::EAX), 41);
    assert_eq!(emu.get_eip(), 0);
}

#[test]
fn short_jump_back_two_spins_in_place() {
    // A short jump with displacement -2 lands back on its own opcode.
    let mut emu = machine_with(vec![0xEB, 0xFE]);
    let done = emu.run(InstructionVector::new(0x100), 5).unwrap();
    assert!(!done);
    assert_eq!(emu.get_eip(), ORG);
}

#[test]
fn countdown_loop_runs_to_halt() {
    // mov ecx, 3; sub ecx, 1; jnz -5; ret (stack holds the zero sentinel).
    let mut emu = machine_with(vec![
        0xB9, 0x03, 0x00, 0x00, 0x00, // mov ecx, 3
        0x83, 0xE9, 0x01, // sub ecx, 1
        0x75, 0xFB, // jnz back to the sub
        0xC3, // ret
    ]);
    let done = emu.run(InstructionVector::new(0x100), 1000).unwrap();
    assert!(done);
    assert_eq!(emu.get_gpr_value(&GPR::ECX), 0);
    assert!(emu.is_zero());
    assert_eq!(emu.get_eip(), 0);
}

#[test]
fn call_and_ret_balance_the_stack() {
    // call +1; ret (the sentinel) / at the callee: ret back.
    let mut emu = machine_with(vec![
        0xE8, 0x01, 0x00, 0x00, 0x00, // call ORG+6
        0xC3, // ret — pops the zero sentinel and halts
        0xC3, // callee: ret back to ORG+5
    ]);
    let done = emu.run(InstructionVector::new(0x100), 1000).unwrap();
    assert!(done);
    // The call/ret pair balanced; only the final sentinel pop moved ESP.
    assert_eq!(emu.get_gpr_value(&GPR::ESP), STACK + 4);
    assert_eq!(emu.get_eip(), 0);
}

#[test]
fn unimplemented_opcode_stops_the_run() {
    let mut emu = machine_with(vec![0x90]);
    assert_eq!(
        emu.run(InstructionVector::new(0x100), 1000).unwrap_err(),
        EmuError::UnknownOpcode { opcode: 0x90, eip: ORG }
    );
    assert_eq!(emu.get_eip(), ORG);
}

#[test]
fn failing_instruction_stops_the_run_where_it_stood() {
    // mov eax, imm32 whose immediate runs past the end of memory.
    let mut emu = Emulator::new(0x20, 0x1E, 0x10);
    emu.load_bin(vec![0xB8, 0x01], 0x1E).unwrap();
    assert_eq!(
        emu.run(InstructionVector::new(0x100), 1000).unwrap_err(),
        EmuError::OutOfBounds
    );
    assert_eq!(emu.get_eip(), 0x1E);
    assert_eq!(emu.get_gpr_value(&GPR::EAX), 0);
}

#[test]
fn run_ends_when_the_pointer_leaves_memory() {
    let mut emu = Emulator::new(0x10, 0x20, 0x8);
    let done = emu.run(InstructionVector::new(0x100), 1000).unwrap();
    assert!(done);
    assert_eq!(emu.get_eip(), 0x20);
}

#[test]
fn memory_round_trip_through_a_program() {
    // mov dword [0x7D00], 0x12345678; mov ebx, [0x7D00]; ret sentinel.
    let mut emu = machine_with(vec![
        0xC7, 0x05, 0x00, 0x7D, 0x00, 0x00, 0x78, 0x56, 0x34, 0x12, // mov [0x7D00], imm
        0x8B, 0x1D, 0x00, 0x7D, 0x00, 0x00, // mov ebx, [0x7D00]
        0xC3, // ret
    ]);
    let done = emu.run(InstructionVector::new(0x100), 1000).unwrap();
    assert!(done);
    assert_eq!(emu.get_gpr_value(&GPR::EBX), 0x12345678);
    assert_eq!(emu.get_memory32(0x7D00).unwrap(), 0x12345678);
}
