use hack86::decode::{DecodeError, Instruction, InstructionCategory, Mnemonic, RegisterMemory, RegisterName};
use hack86::simulate::{ExecuteError, Flags, Hack86, SimulateError, CPU, MEMORY_SIZE};

fn fresh_memory() -> Vec<u8> {
    vec![0u8; MEMORY_SIZE]
}

#[test]
fn new_machine_is_zeroed() {
    let machine = Hack86::new(vec![0x90]);
    assert_eq!(machine.cpu, CPU::new());
    assert_eq!(machine.cpu.cycle_count, 0);
    assert_eq!(machine.memory().len(), MEMORY_SIZE);
    assert!(machine.memory().iter().all(|b| *b == 0));
}

#[test]
fn immediate_mov_and_cycle_cost() {
    // MOV AX, 1 costs four clocks and never touches the flags.
    let mut machine = Hack86::new(vec![0xB8, 0x01, 0x00]);
    let instruction = machine.step().unwrap();
    assert_eq!(instruction.length, 3);
    assert_eq!(machine.cpu.ax, 1);
    assert_eq!(machine.cpu.ip, 3);
    assert_eq!(machine.cpu.cycle_count, 4);
    assert_eq!(machine.cpu.flags, Flags { sf: false, zf: false });
}

#[test]
fn register_mov_costs_two_clocks() {
    // MOV AX, 1; MOV BX, AX.
    let mut machine = Hack86::new(vec![0xB8, 0x01, 0x00, 0x89, 0xC3]);
    machine.step().unwrap();
    machine.step().unwrap();
    assert_eq!(machine.cpu.bx, 1);
    assert_eq!(machine.cpu.cycle_count, 4 + 2);
}

#[test]
fn countdown_loop_runs_to_completion() {
    // MOV CX, 3; MOV BX, 1; SUB CX, BX; JNZ -4 (back to the SUB).
    let program = vec![0xB9, 0x03, 0x00, 0xBB, 0x01, 0x00, 0x29, 0xD9, 0x75, 0xFC];
    let mut machine = Hack86::new(program);
    let finished = machine.run(1000).unwrap();
    assert!(finished);
    assert_eq!(machine.cpu.cx, 0);
    assert_eq!(machine.cpu.bx, 1);
    assert_eq!(machine.cpu.ip, 10);
    assert_eq!(machine.cpu.flags, Flags { sf: false, zf: true });
    // Two immediate loads at 4 clocks, three SUBs at 3, three JNZs at 16.
    assert_eq!(machine.cpu.cycle_count, 4 + 4 + 3 * 3 + 3 * 16);
}

#[test]
fn run_twice_is_byte_identical() {
    let program = vec![0xB9, 0x03, 0x00, 0xBB, 0x01, 0x00, 0x29, 0xD9, 0x75, 0xFC];
    let mut first = Hack86::new(program.clone());
    let mut second = Hack86::new(program);
    first.run(1000).unwrap();
    second.run(1000).unwrap();
    assert_eq!(first.cpu, second.cpu);
    assert_eq!(first.cpu.cycle_count, second.cpu.cycle_count);
    assert_eq!(first.memory(), second.memory());
}

#[test]
fn memory_store_and_load_little_endian() {
    // MOV BX, 0x10; MOV AX, 0x3412; MOV [BX+4], AX; MOV CX, [BX+4].
    let program = vec![
        0xBB, 0x10, 0x00, 0xB8, 0x12, 0x34, 0x89, 0x47, 0x04, 0x8B, 0x4F, 0x04,
    ];
    let mut machine = Hack86::new(program);
    machine.run(100).unwrap();
    assert_eq!(machine.memory()[0x14], 0x12);
    assert_eq!(machine.memory()[0x15], 0x34);
    assert_eq!(machine.cpu.cx, 0x3412);
}

#[test]
fn memory_load_refreshes_flags() {
    // Loading zero from untouched memory is one of the MOV forms that
    // refreshes the flags: the zero flag comes on.
    let program = vec![0xBB, 0x10, 0x00, 0x8B, 0x57, 0x06];
    let mut machine = Hack86::new(program);
    machine.run(100).unwrap();
    assert_eq!(machine.cpu.dx, 0);
    assert_eq!(machine.cpu.flags, Flags { sf: false, zf: true });
}

#[test]
fn cmp_equal_sets_zero_clears_sign() {
    // MOV AX, 5; MOV BX, 5; CMP AX, BX.
    let program = vec![0xB8, 0x05, 0x00, 0xBB, 0x05, 0x00, 0x39, 0xD8];
    let mut machine = Hack86::new(program);
    machine.run(100).unwrap();
    assert_eq!(machine.cpu.flags, Flags { sf: false, zf: true });
    assert_eq!(machine.cpu.ax, 5);
}

#[test]
fn sub_wraparound_sets_sign() {
    // MOV BX, 1; SUB AX, BX with AX = 0 wraps to 0xFFFF: sign comes on.
    let program = vec![0xBB, 0x01, 0x00, 0x29, 0xD8];
    let mut machine = Hack86::new(program);
    machine.run(100).unwrap();
    assert_eq!(machine.cpu.ax, 0xFFFF);
    assert_eq!(machine.cpu.flags, Flags { sf: true, zf: false });
}

#[test]
fn taken_jnz_moves_pointer_by_length_plus_increment() {
    // The driver advances past the two-byte JNZ before executing it, so a
    // taken jump with increment -5 lands at pointer + 2 - 5.
    let mut cpu = CPU::new();
    let mut memory = fresh_memory();
    cpu.ip = 10;
    let jnz = Instruction {
        length: 2,
        instruction_category: InstructionCategory::Jump(Mnemonic::JNZ, -5),
    };
    cpu.execute(&jnz, &mut memory).unwrap();
    assert_eq!(cpu.ip, 5);
}

#[test]
fn untaken_jnz_leaves_pointer() {
    let mut cpu = CPU::new();
    let mut memory = fresh_memory();
    cpu.ip = 10;
    cpu.flags = Flags { sf: false, zf: true };
    let jnz = Instruction {
        length: 2,
        instruction_category: InstructionCategory::Jump(Mnemonic::JNZ, -5),
    };
    cpu.execute(&jnz, &mut memory).unwrap();
    assert_eq!(cpu.ip, 10);
}

#[test]
fn jnz_pointer_underflow_is_fatal() {
    let mut cpu = CPU::new();
    let mut memory = fresh_memory();
    cpu.ip = 2;
    let before = cpu;
    let jnz = Instruction {
        length: 2,
        instruction_category: InstructionCategory::Jump(Mnemonic::JNZ, -5),
    };
    assert_eq!(
        cpu.execute(&jnz, &mut memory),
        Err(ExecuteError::InstructionPointerOverflow)
    );
    assert_eq!(cpu, before);
}

#[test]
fn immediate_store_and_direct_load() {
    let mut cpu = CPU::new();
    let mut memory = fresh_memory();
    let store = Instruction {
        length: 6,
        instruction_category: InstructionCategory::ImmediateToRegisterMemory(
            Mnemonic::MOV,
            42,
            RegisterMemory::DirectAddress(0x100),
            true,
        ),
    };
    cpu.execute(&store, &mut memory).unwrap();
    assert_eq!(memory[0x100], 42);
    assert_eq!(memory[0x101], 0);
    let load = Instruction {
        length: 4,
        instruction_category: InstructionCategory::RegisterMemoryAndRegister(
            Mnemonic::MOV,
            RegisterMemory::DirectAddress(0x100),
            RegisterMemory::Register(RegisterName::AX),
        ),
    };
    cpu.execute(&load, &mut memory).unwrap();
    assert_eq!(cpu.ax, 42);
    assert_eq!(cpu.flags, Flags { sf: false, zf: false });
}

#[test]
fn unsupported_combinations_are_errors() {
    let mut cpu = CPU::new();
    let mut memory = fresh_memory();
    let accumulator = Instruction {
        length: 3,
        instruction_category: InstructionCategory::ImmediateToAccumulator(
            Mnemonic::ADD,
            5,
            RegisterName::AX,
        ),
    };
    assert_eq!(
        cpu.execute(&accumulator, &mut memory),
        Err(ExecuteError::NotSupported)
    );
    let byte_mov = Instruction {
        length: 2,
        instruction_category: InstructionCategory::RegisterMemoryAndRegister(
            Mnemonic::MOV,
            RegisterMemory::Register(RegisterName::AL),
            RegisterMemory::Register(RegisterName::BL),
        ),
    };
    let before = cpu;
    assert_eq!(cpu.execute(&byte_mov, &mut memory), Err(ExecuteError::NotSupported));
    assert_eq!(cpu, before);
}

#[test]
fn unsupported_instruction_stops_the_run() {
    // ADD AL, 1 decodes fine but the accumulator form is not executable.
    let mut machine = Hack86::new(vec![0x04, 0x01]);
    assert_eq!(
        machine.run(10),
        Err(SimulateError::Execute(ExecuteError::NotSupported, 0))
    );
    assert_eq!(machine.cpu.ip, 0);
    assert_eq!(machine.cpu.cycle_count, 0);
}

#[test]
fn decode_failure_stops_the_run() {
    let mut machine = Hack86::new(vec![0x0F]);
    assert_eq!(
        machine.run(10),
        Err(SimulateError::Decode(DecodeError::InvalidInstruction, 0))
    );
    assert_eq!(machine.cpu.ip, 0);
}

#[test]
fn run_respects_step_budget() {
    // An infinite loop: JNZ back onto itself never terminates, but the
    // budget bounds the run.  (Flags start clear, so the jump is taken.)
    let mut machine = Hack86::new(vec![0xBB, 0x01, 0x00, 0x29, 0xD8, 0x75, 0xFE]);
    let finished = machine.run(5).unwrap();
    assert!(!finished);
}

#[test]
fn add_register_and_immediate_forms() {
    // MOV AX, 0xFFFF; MOV BX, 2; ADD AX, BX wraps to 1.
    let program = vec![0xB8, 0xFF, 0xFF, 0xBB, 0x02, 0x00, 0x01, 0xD8];
    let mut machine = Hack86::new(program);
    machine.run(100).unwrap();
    assert_eq!(machine.cpu.ax, 1);
    assert_eq!(machine.cpu.flags, Flags { sf: false, zf: false });

    // ADD CX, 5 in the immediate group (sign-extended form).
    let mut second = Hack86::new(vec![0x83, 0xC1, 0x05]);
    second.run(10).unwrap();
    assert_eq!(second.cpu.cx, 5);
}

#[test]
fn add_negative_immediate_subtracts() {
    // MOV CX, 10; ADD CX, -5 (sign-extended immediate form): the wrapped
    // addition of 0xFFFB subtracts five.
    let program = vec![0xB9, 0x0A, 0x00, 0x83, 0xC1, 0xFB];
    let mut machine = Hack86::new(program);
    machine.run(10).unwrap();
    assert_eq!(machine.cpu.cx, 5);
    assert_eq!(machine.cpu.flags, Flags { sf: false, zf: false });
}

#[test]
fn add_to_memory_leaves_flags() {
    // MOV BX, 8; MOV AX, 7; MOV [BX+0], AX; ADD [BX+0], AX: memory holds
    // 14, and the add-to-memory form leaves the flags untouched.
    let program = vec![
        0xBB, 0x08, 0x00, 0xB8, 0x07, 0x00, 0x89, 0x47, 0x00, 0x01, 0x47, 0x00,
    ];
    let mut machine = Hack86::new(program);
    machine.run(100).unwrap();
    assert_eq!(machine.memory()[8], 14);
    assert_eq!(machine.cpu.flags, Flags { sf: false, zf: false });
}

#[test]
fn clock_estimate_includes_effective_address() {
    // ADD [BX + SI], AX: base 16 for ADD to memory plus 7 for the
    // base-plus-index form.
    let add = Instruction {
        length: 2,
        instruction_category: InstructionCategory::RegisterMemoryAndRegister(
            Mnemonic::ADD,
            RegisterMemory::Register(RegisterName::AX),
            RegisterMemory::RegisterAddressOffset(RegisterName::BX, RegisterName::SI),
        ),
    };
    assert_eq!(add.clocks(), (16, 7));
    let mov = Instruction {
        length: 4,
        instruction_category: InstructionCategory::RegisterMemoryAndRegister(
            Mnemonic::MOV,
            RegisterMemory::DirectAddress(0x10),
            RegisterMemory::Register(RegisterName::DX),
        ),
    };
    assert_eq!(mov.clocks(), (8, 6));
}
