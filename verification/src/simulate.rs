//! Execution engine for decoded instructions.
//!
//! [`CPU`] owns the register file, the sign/zero flags, the 16-bit
//! instruction pointer and a cycle counter; [`Hack86`] couples a `CPU` with
//! an instruction stream and a flat 64 KiB memory image.  One instruction is
//! executed per [`CPU::execute`] call; the driver advances the instruction
//! pointer by the decoded length *before* executing, so that jumps can
//! overwrite it.  The whole state transition is pinned down by the spec-level
//! model [`spec_execute`].
//!
//! Operand combinations the engine has not been taught are reported as
//! explicit [`ExecuteError::NotSupported`] results rather than executed
//! wrongly; no state changes on any error.

use vstd::prelude::*;

use crate::decode::{
    spec_decode, spec_word, DecodeError, Instruction, InstructionCategory, Mnemonic, RegisterMemory,
    RegisterName,
};

verus! {

/// Size in bytes of the flat memory image: the full 16-bit address space.
pub const MEMORY_SIZE: usize = 65536;

/// The two arithmetic flags the engine models.
#[derive(Clone, Copy, Debug, PartialEq, Eq, Structural)]
pub struct Flags {
    pub sf: bool,
    pub zf: bool,
}

/// Why an instruction could not be executed.
#[derive(Clone, Copy, Debug, PartialEq, Eq, Structural)]
pub enum ExecuteError {
    /// The mnemonic/operand combination is outside the supported subset.
    NotSupported,
    /// A jump target or advanced instruction pointer left the 16-bit range.
    InstructionPointerOverflow,
}

/// Why a simulation run stopped early, with the instruction pointer value at
/// which the offending instruction started.
#[derive(Clone, Copy, Debug, PartialEq, Eq, Structural)]
pub enum SimulateError {
    Decode(DecodeError, u16),
    Execute(ExecuteError, u16),
}

/// Register file, instruction pointer, flags and cycle counter.
#[derive(Clone, Copy, Debug, PartialEq, Eq, Structural)]
pub struct CPU {
    pub ax: u16,
    pub cx: u16,
    pub dx: u16,
    pub bx: u16,
    pub sp: u16,
    pub bp: u16,
    pub si: u16,
    pub di: u16,
    pub ip: u16,
    pub flags: Flags,
    pub cycle_count: u32,
}

/// A `CPU` together with the instruction stream it runs and the memory image
/// it owns.
pub struct Hack86 {
    pub cpu: CPU,
    pub instructions: Vec<u8>,
    pub memory: Vec<u8>,
}

/// 16-bit wrapping addition.
pub open spec fn spec_wrapping_add16(a: u16, b: u16) -> u16 {
    if a + b > 0xFFFF {
        (a + b - 0x10000) as u16
    } else {
        (a + b) as u16
    }
}

/// 16-bit wrapping subtraction.
pub open spec fn spec_wrapping_sub16(a: u16, b: u16) -> u16 {
    if a - b < 0 {
        (a - b + 0x10000) as u16
    } else {
        (a - b) as u16
    }
}

/// 32-bit wrapping addition.
pub open spec fn spec_wrapping_add32(a: u32, b: u32) -> u32 {
    if a + b > u32::MAX {
        (a + b - 0x1_0000_0000) as u32
    } else {
        (a + b) as u32
    }
}

/// Whether the register is one of the eight word-sized ones the engine can
/// read and write.
pub open spec fn spec_is_word_register(name: RegisterName) -> bool {
    match name {
        RegisterName::AX => true,
        RegisterName::CX => true,
        RegisterName::DX => true,
        RegisterName::BX => true,
        RegisterName::SP => true,
        RegisterName::BP => true,
        RegisterName::SI => true,
        RegisterName::DI => true,
        _ => false,
    }
}

/// Value of a word-sized register.
pub open spec fn spec_get_register(cpu: CPU, name: RegisterName) -> u16 {
    match name {
        RegisterName::AX => cpu.ax,
        RegisterName::CX => cpu.cx,
        RegisterName::DX => cpu.dx,
        RegisterName::BX => cpu.bx,
        RegisterName::SP => cpu.sp,
        RegisterName::BP => cpu.bp,
        RegisterName::SI => cpu.si,
        RegisterName::DI => cpu.di,
        _ => 0,
    }
}

/// The CPU with one word-sized register replaced.
pub open spec fn spec_set_register(cpu: CPU, name: RegisterName, value: u16) -> CPU {
    match name {
        RegisterName::AX => CPU { ax: value, ..cpu },
        RegisterName::CX => CPU { cx: value, ..cpu },
        RegisterName::DX => CPU { dx: value, ..cpu },
        RegisterName::BX => CPU { bx: value, ..cpu },
        RegisterName::SP => CPU { sp: value, ..cpu },
        RegisterName::BP => CPU { bp: value, ..cpu },
        RegisterName::SI => CPU { si: value, ..cpu },
        RegisterName::DI => CPU { di: value, ..cpu },
        _ => cpu,
    }
}

/// Flags recomputed from scratch for a 16-bit result: sign is its top bit,
/// zero is equality with zero.
pub open spec fn spec_flags_for(value: u16) -> Flags {
    Flags { sf: value & 0x8000 != 0, zf: value == 0 }
}

/// A register write, optionally refreshing both flags from the written value.
pub open spec fn spec_register_write(cpu: CPU, name: RegisterName, value: u16, set_flags: bool) -> CPU {
    let written = spec_set_register(cpu, name, value);
    if set_flags {
        CPU { flags: spec_flags_for(value), ..written }
    } else {
        written
    }
}

/// Flags produced by comparing `b` against `a`: those of the wrapped
/// difference `b - a`.
pub open spec fn spec_compare_flags(a: u16, b: u16) -> Flags {
    spec_flags_for(spec_wrapping_sub16(b, a))
}

/// The 16-bit word stored little-endian at `address`, the high byte wrapping
/// around the top of the address space.
pub open spec fn spec_read_word(memory: Seq<u8>, address: u16) -> u16 {
    spec_word(memory[address as int], memory[spec_wrapping_add16(address, 1) as int])
}

/// The memory image with a 16-bit word stored little-endian at `address`.
pub open spec fn spec_write_word(memory: Seq<u8>, address: u16, value: u16) -> Seq<u8> {
    memory.update(address as int, (value % 256) as u8).update(
        spec_wrapping_add16(address, 1) as int,
        (value / 256) as u8,
    )
}

/// Estimated effective-address cost in clocks of one operand; register
/// operands cost nothing.
pub open spec fn spec_effective_address_clocks(operand: RegisterMemory) -> u16 {
    match operand {
        RegisterMemory::Register(_) => 0,
        RegisterMemory::RegisterAddress(_) => 5,
        RegisterMemory::RegisterAddressDisplacement(_, _) => 9,
        RegisterMemory::RegisterAddressOffset(_, _) => 7,
        RegisterMemory::RegisterAddressOffsetDisplacement(_, _, _) => 11,
        RegisterMemory::DirectAddress(_) => 6,
    }
}

/// Whether an operand names a memory location rather than a register.
pub open spec fn spec_is_memory_operand(operand: RegisterMemory) -> bool {
    !(operand matches RegisterMemory::Register(_))
}

/// Estimated base clock cost of a two-operand register/memory instruction.
pub open spec fn spec_reg_memory_base_clocks(
    mnemonic: Mnemonic,
    src: RegisterMemory,
    dest: RegisterMemory,
) -> u16 {
    if !spec_is_memory_operand(src) && !spec_is_memory_operand(dest) {
        if mnemonic == Mnemonic::MOV {
            2
        } else {
            3
        }
    } else if spec_is_memory_operand(src) {
        if mnemonic == Mnemonic::MOV {
            8
        } else {
            9
        }
    } else {
        if mnemonic == Mnemonic::MOV {
            9
        } else if mnemonic == Mnemonic::CMP {
            9
        } else {
            16
        }
    }
}

/// Estimated clock cost of an instruction as a pair of base cost and
/// effective-address cost.  The table follows the coarse base-plus-EA model
/// of the 8086 timing listings; conditional jumps are charged their
/// taken-branch cost regardless of the flags.
pub open spec fn spec_clocks(instruction: Instruction) -> (u16, u16) {
    match instruction.instruction_category {
        InstructionCategory::RegisterMemoryAndRegister(mnemonic, src, dest) => (
            spec_reg_memory_base_clocks(mnemonic, src, dest),
            spec_wrapping_add16(
                spec_effective_address_clocks(src),
                spec_effective_address_clocks(dest),
            ),
        ),
        InstructionCategory::ImmediateToRegister(_, _, _) => (4, 0),
        InstructionCategory::ImmediateToRegisterMemory(mnemonic, _, dest, _) => {
            if !spec_is_memory_operand(dest) {
                (4, 0)
            } else if mnemonic == Mnemonic::MOV || mnemonic == Mnemonic::CMP {
                (10, spec_effective_address_clocks(dest))
            } else {
                (17, spec_effective_address_clocks(dest))
            }
        },
        InstructionCategory::ImmediateToAccumulator(_, _, _) => (4, 0),
        InstructionCategory::Jump(_, _) => (16, 0),
    }
}

/// The CPU with its cycle counter advanced by an instruction's estimated
/// clock cost.
pub open spec fn spec_charge_clocks(cpu: CPU, instruction: Instruction) -> CPU {
    let clocks = spec_clocks(instruction);
    CPU {
        cycle_count: spec_wrapping_add32(cpu.cycle_count, (clocks.0 + clocks.1) as u32),
        ..cpu
    }
}

/// One execution step of the engine, as a pure function from the CPU state,
/// the memory image and the decoded instruction to either the next state or
/// the error that makes the run fatal.  The instruction pointer is expected
/// to have been advanced past the instruction already.
pub open spec fn spec_execute(cpu: CPU, memory: Seq<u8>, instruction: Instruction) -> Result<
    (CPU, Seq<u8>),
    ExecuteError,
> {
    let charged = spec_charge_clocks(cpu, instruction);
    match instruction.instruction_category {
        InstructionCategory::RegisterMemoryAndRegister(mnemonic, src, dest) => match mnemonic {
            Mnemonic::MOV => spec_execute_mov(charged, memory, src, dest),
            Mnemonic::ADD => spec_execute_add(charged, memory, src, dest),
            Mnemonic::SUB => match (src, dest) {
                (RegisterMemory::Register(s), RegisterMemory::Register(d)) => {
                    if spec_is_word_register(s) && spec_is_word_register(d) {
                        let value = spec_wrapping_sub16(
                            spec_get_register(charged, d),
                            spec_get_register(charged, s),
                        );
                        Ok((spec_register_write(charged, d, value, true), memory))
                    } else {
                        Err(ExecuteError::NotSupported)
                    }
                },
                _ => Err(ExecuteError::NotSupported),
            },
            Mnemonic::CMP => match (src, dest) {
                (RegisterMemory::Register(s), RegisterMemory::Register(d)) => {
                    if spec_is_word_register(s) && spec_is_word_register(d) {
                        let flags = spec_compare_flags(
                            spec_get_register(charged, s),
                            spec_get_register(charged, d),
                        );
                        Ok((CPU { flags, ..charged }, memory))
                    } else {
                        Err(ExecuteError::NotSupported)
                    }
                },
                _ => Err(ExecuteError::NotSupported),
            },
            _ => Err(ExecuteError::NotSupported),
        },
        InstructionCategory::ImmediateToRegister(mnemonic, immediate, dest) => {
            if mnemonic == Mnemonic::MOV && spec_is_word_register(dest) {
                Ok((spec_register_write(charged, dest, immediate, false), memory))
            } else {
                Err(ExecuteError::NotSupported)
            }
        },
        InstructionCategory::ImmediateToRegisterMemory(mnemonic, immediate, dest, _) => match mnemonic {
            Mnemonic::ADD => match dest {
                RegisterMemory::Register(d) => {
                    if spec_is_word_register(d) {
                        let value = spec_wrapping_add16(spec_get_register(charged, d), immediate);
                        Ok((spec_register_write(charged, d, value, true), memory))
                    } else {
                        Err(ExecuteError::NotSupported)
                    }
                },
                _ => Err(ExecuteError::NotSupported),
            },
            Mnemonic::SUB => match dest {
                RegisterMemory::Register(d) => {
                    if spec_is_word_register(d) {
                        let value = spec_wrapping_sub16(spec_get_register(charged, d), immediate);
                        Ok((spec_register_write(charged, d, value, true), memory))
                    } else {
                        Err(ExecuteError::NotSupported)
                    }
                },
                _ => Err(ExecuteError::NotSupported),
            },
            Mnemonic::MOV => match dest {
                RegisterMemory::DirectAddress(address) => Ok(
                    (charged, spec_write_word(memory, address, immediate)),
                ),
                RegisterMemory::RegisterAddressDisplacement(base, displacement) => {
                    if spec_is_word_register(base) {
                        let address = spec_wrapping_add16(
                            spec_get_register(charged, base),
                            displacement,
                        );
                        Ok((charged, spec_write_word(memory, address, immediate)))
                    } else {
                        Err(ExecuteError::NotSupported)
                    }
                },
                _ => Err(ExecuteError::NotSupported),
            },
            Mnemonic::CMP => match dest {
                RegisterMemory::Register(d) => {
                    if spec_is_word_register(d) {
                        let flags = spec_compare_flags(immediate, spec_get_register(charged, d));
                        Ok((CPU { flags, ..charged }, memory))
                    } else {
                        Err(ExecuteError::NotSupported)
                    }
                },
                _ => Err(ExecuteError::NotSupported),
            },
            _ => Err(ExecuteError::NotSupported),
        },
        InstructionCategory::ImmediateToAccumulator(_, _, _) => Err(ExecuteError::NotSupported),
        InstructionCategory::Jump(mnemonic, increment) => {
            if mnemonic == Mnemonic::JNZ {
                if !charged.flags.zf {
                    let target = charged.ip + increment;
                    if target < 0 || target > 0xFFFF {
                        Err(ExecuteError::InstructionPointerOverflow)
                    } else {
                        Ok((CPU { ip: target as u16, ..charged }, memory))
                    }
                } else {
                    Ok((charged, memory))
                }
            } else {
                Err(ExecuteError::NotSupported)
            }
        },
    }
}

/// The `MOV` cases of the register/memory-with-register family.  Loads from
/// memory into a register refresh the flags from the loaded value; pure
/// register copies and stores to memory leave them untouched.
pub open spec fn spec_execute_mov(
    cpu: CPU,
    memory: Seq<u8>,
    src: RegisterMemory,
    dest: RegisterMemory,
) -> Result<(CPU, Seq<u8>), ExecuteError> {
    match (src, dest) {
        (RegisterMemory::Register(s), RegisterMemory::Register(d)) => {
            if spec_is_word_register(s) && spec_is_word_register(d) {
                Ok((spec_register_write(cpu, d, spec_get_register(cpu, s), false), memory))
            } else {
                Err(ExecuteError::NotSupported)
            }
        },
        (RegisterMemory::DirectAddress(address), RegisterMemory::Register(d)) => {
            if spec_is_word_register(d) {
                Ok((spec_register_write(cpu, d, spec_read_word(memory, address), true), memory))
            } else {
                Err(ExecuteError::NotSupported)
            }
        },
        (RegisterMemory::Register(s), RegisterMemory::RegisterAddressOffset(base, offset)) => {
            if spec_is_word_register(s) && spec_is_word_register(base) && spec_is_word_register(
                offset,
            ) {
                let address = spec_wrapping_add16(
                    spec_get_register(cpu, base),
                    spec_get_register(cpu, offset),
                );
                Ok((cpu, spec_write_word(memory, address, spec_get_register(cpu, s))))
            } else {
                Err(ExecuteError::NotSupported)
            }
        },
        (RegisterMemory::RegisterAddressOffset(base, offset), RegisterMemory::Register(d)) => {
            if spec_is_word_register(d) && spec_is_word_register(base) && spec_is_word_register(
                offset,
            ) {
                let address = spec_wrapping_add16(
                    spec_get_register(cpu, base),
                    spec_get_register(cpu, offset),
                );
                Ok((spec_register_write(cpu, d, spec_read_word(memory, address), true), memory))
            } else {
                Err(ExecuteError::NotSupported)
            }
        },
        (
            RegisterMemory::RegisterAddressDisplacement(base, displacement),
            RegisterMemory::Register(d),
        ) => {
            if spec_is_word_register(d) && spec_is_word_register(base) {
                let address = spec_wrapping_add16(spec_get_register(cpu, base), displacement);
                Ok((spec_register_write(cpu, d, spec_read_word(memory, address), true), memory))
            } else {
                Err(ExecuteError::NotSupported)
            }
        },
        (
            RegisterMemory::Register(s),
            RegisterMemory::RegisterAddressDisplacement(base, displacement),
        ) => {
            if spec_is_word_register(s) && spec_is_word_register(base) {
                let address = spec_wrapping_add16(spec_get_register(cpu, base), displacement);
                Ok((cpu, spec_write_word(memory, address, spec_get_register(cpu, s))))
            } else {
                Err(ExecuteError::NotSupported)
            }
        },
        (RegisterMemory::RegisterAddress(base), RegisterMemory::Register(d)) => {
            if spec_is_word_register(d) && spec_is_word_register(base) {
                let address = spec_get_register(cpu, base);
                Ok((spec_register_write(cpu, d, spec_read_word(memory, address), true), memory))
            } else {
                Err(ExecuteError::NotSupported)
            }
        },
        (RegisterMemory::Register(s), RegisterMemory::RegisterAddress(base)) => {
            if spec_is_word_register(s) && spec_is_word_register(base) {
                let address = spec_get_register(cpu, base);
                Ok((cpu, spec_write_word(memory, address, spec_get_register(cpu, s))))
            } else {
                Err(ExecuteError::NotSupported)
            }
        },
        _ => Err(ExecuteError::NotSupported),
    }
}

/// The `ADD` cases of the register/memory-with-register family.  The
/// register-to-memory form updates memory in place and leaves the flags
/// untouched; the register-to-register form refreshes them.
pub open spec fn spec_execute_add(
    cpu: CPU,
    memory: Seq<u8>,
    src: RegisterMemory,
    dest: RegisterMemory,
) -> Result<(CPU, Seq<u8>), ExecuteError> {
    match (src, dest) {
        (RegisterMemory::Register(s), RegisterMemory::Register(d)) => {
            if spec_is_word_register(s) && spec_is_word_register(d) {
                let value = spec_wrapping_add16(
                    spec_get_register(cpu, d),
                    spec_get_register(cpu, s),
                );
                Ok((spec_register_write(cpu, d, value, true), memory))
            } else {
                Err(ExecuteError::NotSupported)
            }
        },
        (
            RegisterMemory::Register(s),
            RegisterMemory::RegisterAddressDisplacement(base, displacement),
        ) => {
            if spec_is_word_register(s) && spec_is_word_register(base) {
                let address = spec_wrapping_add16(spec_get_register(cpu, base), displacement);
                let value = spec_wrapping_add16(
                    spec_get_register(cpu, s),
                    spec_read_word(memory, address),
                );
                Ok((cpu, spec_write_word(memory, address, value)))
            } else {
                Err(ExecuteError::NotSupported)
            }
        },
        _ => Err(ExecuteError::NotSupported),
    }
}

/// Whether the register is one of the eight word-sized ones.
pub fn is_word_register(name: RegisterName) -> (r: bool)
    ensures
        r == spec_is_word_register(name),
{
    match name {
        RegisterName::AX => true,
        RegisterName::CX => true,
        RegisterName::DX => true,
        RegisterName::BX => true,
        RegisterName::SP => true,
        RegisterName::BP => true,
        RegisterName::SI => true,
        RegisterName::DI => true,
        _ => false,
    }
}

/// Estimated effective-address clock cost of one operand.
pub fn effective_address_clocks(operand: &RegisterMemory) -> (r: u16)
    ensures
        r == spec_effective_address_clocks(*operand),
{
    match operand {
        RegisterMemory::Register(_) => 0,
        RegisterMemory::RegisterAddress(_) => 5,
        RegisterMemory::RegisterAddressDisplacement(_, _) => 9,
        RegisterMemory::RegisterAddressOffset(_, _) => 7,
        RegisterMemory::RegisterAddressOffsetDisplacement(_, _, _) => 11,
        RegisterMemory::DirectAddress(_) => 6,
    }
}

impl Instruction {
    /// Estimated clock cost as a pair of base cost and effective-address
    /// cost, per the coarse base-plus-EA timing model.
    pub fn clocks(&self) -> (r: (u16, u16))
        ensures
            r == spec_clocks(*self),
    {
        match self.instruction_category {
            InstructionCategory::RegisterMemoryAndRegister(mnemonic, src, dest) => {
                let src_is_memory = !matches!(src, RegisterMemory::Register(_));
                let dest_is_memory = !matches!(dest, RegisterMemory::Register(_));
                let base: u16 = if !src_is_memory && !dest_is_memory {
                    if matches!(mnemonic, Mnemonic::MOV) {
                        2
                    } else {
                        3
                    }
                } else if src_is_memory {
                    if matches!(mnemonic, Mnemonic::MOV) {
                        8
                    } else {
                        9
                    }
                } else {
                    if matches!(mnemonic, Mnemonic::MOV) {
                        9
                    } else if matches!(mnemonic, Mnemonic::CMP) {
                        9
                    } else {
                        16
                    }
                };
                (base, effective_address_clocks(&src) + effective_address_clocks(&dest))
            },
            InstructionCategory::ImmediateToRegister(_, _, _) => (4, 0),
            InstructionCategory::ImmediateToRegisterMemory(mnemonic, _, dest, _) => {
                if matches!(dest, RegisterMemory::Register(_)) {
                    (4, 0)
                } else if matches!(mnemonic, Mnemonic::MOV) || matches!(mnemonic, Mnemonic::CMP) {
                    (10, effective_address_clocks(&dest))
                } else {
                    (17, effective_address_clocks(&dest))
                }
            },
            InstructionCategory::ImmediateToAccumulator(_, _, _) => (4, 0),
            InstructionCategory::Jump(_, _) => (16, 0),
        }
    }
}

/// Reads the 16-bit word stored little-endian at `address`.
fn read_word(memory: &Vec<u8>, address: u16) -> (r: u16)
    requires
        memory@.len() == MEMORY_SIZE,
    ensures
        r == spec_read_word(memory@, address),
{
    let lo = memory[address as usize];
    let hi = memory[address.wrapping_add(1) as usize];
    lo as u16 + hi as u16 * 0x100
}

/// Stores a 16-bit word little-endian at `address`.
fn write_word(memory: &mut Vec<u8>, address: u16, value: u16)
    requires
        old(memory)@.len() == MEMORY_SIZE,
    ensures
        final(memory)@ == spec_write_word(old(memory)@, address, value),
        final(memory)@.len() == MEMORY_SIZE,
{
    let lo = (value % 256) as u8;
    let hi = (value / 256) as u8;
    memory[address as usize] = lo;
    memory[address.wrapping_add(1) as usize] = hi;
}

/// The freshly powered-on CPU state: all registers, flags and counters zero.
pub open spec fn spec_initial_cpu() -> CPU {
    CPU {
        ax: 0,
        cx: 0,
        dx: 0,
        bx: 0,
        sp: 0,
        bp: 0,
        si: 0,
        di: 0,
        ip: 0,
        flags: Flags { sf: false, zf: false },
        cycle_count: 0,
    }
}

impl CPU {
    /// A freshly constructed CPU: every register, flag and counter is zero.
    pub fn new() -> (r: CPU)
        ensures
            r == spec_initial_cpu(),
    {
        CPU {
            ax: 0,
            bx: 0,
            cx: 0,
            dx: 0,
            bp: 0,
            sp: 0,
            di: 0,
            si: 0,
            ip: 0,
            flags: Flags { sf: false, zf: false },
            cycle_count: 0,
        }
    }

    /// Value of a word-sized register.
    pub fn get_register(&self, name: RegisterName) -> (r: u16)
        requires
            spec_is_word_register(name),
        ensures
            r == spec_get_register(*self, name),
    {
        match name {
            RegisterName::AX => self.ax,
            RegisterName::CX => self.cx,
            RegisterName::DX => self.dx,
            RegisterName::BX => self.bx,
            RegisterName::SP => self.sp,
            RegisterName::BP => self.bp,
            RegisterName::SI => self.si,
            RegisterName::DI => self.di,
            _ => 0,
        }
    }

    /// Writes a word-sized register and, when asked to, refreshes both flags
    /// from the written value.
    fn set_register(&mut self, dest: RegisterName, value: u16, set_flags: bool)
        requires
            spec_is_word_register(dest),
        ensures
            *final(self) == spec_register_write(*old(self), dest, value, set_flags),
    {
        match dest {
            RegisterName::AX => self.ax = value,
            RegisterName::CX => self.cx = value,
            RegisterName::DX => self.dx = value,
            RegisterName::BX => self.bx = value,
            RegisterName::SP => self.sp = value,
            RegisterName::BP => self.bp = value,
            RegisterName::SI => self.si = value,
            RegisterName::DI => self.di = value,
            _ => {},
        }

        let new_flags = Flags { sf: value & 0x8000 != 0, zf: value == 0 };
        if set_flags && self.flags != new_flags {
            self.flags = new_flags;
        }
    }

    /// Recomputes both flags from the wrapped difference `b - a`.
    fn update_flags(&mut self, a: u16, b: u16)
        ensures
            *final(self) == (CPU { flags: spec_compare_flags(a, b), ..*old(self) }),
    {
        let result = b.wrapping_sub(a);

        let new_flags = Flags { sf: result & 0x8000 != 0, zf: result == 0 };
        if self.flags != new_flags {
            self.flags = new_flags;
        }
    }

    /// Advances the cycle counter by the instruction's estimated clock cost.
    fn charge_clocks(&mut self, instruction: &Instruction)
        ensures
            *final(self) == spec_charge_clocks(*old(self), *instruction),
    {
        let clocks = instruction.clocks();
        assert(clocks.0 <= 17 && clocks.1 <= 22);
        self.cycle_count = self.cycle_count.wrapping_add((clocks.0 + clocks.1) as u32);
    }

    /// Executes one decoded instruction against the register file, the flags
    /// and the memory image, charging its estimated clock cost.
    ///
    /// The caller is expected to have advanced `self.ip` past the instruction
    /// already, so a taken jump simply overwrites it.  On any error the whole
    /// state, memory included, is left exactly as it was.
    pub fn execute(&mut self, instruction: &Instruction, memory: &mut Vec<u8>) -> (r: Result<
        (),
        ExecuteError,
    >)
        requires
            old(memory)@.len() == MEMORY_SIZE,
        ensures
            final(memory)@.len() == MEMORY_SIZE,
            match spec_execute(*old(self), old(memory)@, *instruction) {
                Ok((cpu, mem)) => r is Ok && *final(self) == cpu && final(memory)@ == mem,
                Err(e) => r == Err::<(), ExecuteError>(e) && *final(self) == *old(self) && final(memory)@ == old(memory)@,
            },
    {
        match instruction.instruction_category {
            InstructionCategory::RegisterMemoryAndRegister(mnemonic, src, dest) => match mnemonic {
                Mnemonic::MOV => self.execute_mov(instruction, memory, src, dest),
                Mnemonic::ADD => self.execute_add(instruction, memory, src, dest),
                Mnemonic::SUB => match (src, dest) {
                    (RegisterMemory::Register(src_name), RegisterMemory::Register(dest_name)) => {
                        if !is_word_register(src_name) || !is_word_register(dest_name) {
                            return Err(ExecuteError::NotSupported);
                        }
                        self.charge_clocks(instruction);
                        let new_value = self.get_register(dest_name).wrapping_sub(
                            self.get_register(src_name),
                        );
                        self.set_register(dest_name, new_value, true);
                        Ok(())
                    },
                    _ => Err(ExecuteError::NotSupported),
                },
                Mnemonic::CMP => match (src, dest) {
                    (RegisterMemory::Register(src_name), RegisterMemory::Register(dest_name)) => {
                        if !is_word_register(src_name) || !is_word_register(dest_name) {
                            return Err(ExecuteError::NotSupported);
                        }
                        self.charge_clocks(instruction);
                        let a = self.get_register(src_name);
                        let b = self.get_register(dest_name);
                        self.update_flags(a, b);
                        Ok(())
                    },
                    _ => Err(ExecuteError::NotSupported),
                },
                _ => Err(ExecuteError::NotSupported),
            },
            InstructionCategory::ImmediateToRegister(mnemonic, immediate, dest) => match mnemonic {
                Mnemonic::MOV => {
                    if !is_word_register(dest) {
                        return Err(ExecuteError::NotSupported);
                    }
                    self.charge_clocks(instruction);
                    self.set_register(dest, immediate, false);
                    Ok(())
                },
                _ => Err(ExecuteError::NotSupported),
            },
            InstructionCategory::ImmediateToRegisterMemory(mnemonic, immediate, dest, _) => {
                match mnemonic {
                    Mnemonic::ADD => match dest {
                        RegisterMemory::Register(dest_name) => {
                            if !is_word_register(dest_name) {
                                return Err(ExecuteError::NotSupported);
                            }
                            self.charge_clocks(instruction);
                            let dest_value = self.get_register(dest_name);
                            self.set_register(dest_name, dest_value.wrapping_add(immediate), true);
                            Ok(())
                        },
                        _ => Err(ExecuteError::NotSupported),
                    },
                    Mnemonic::SUB => match dest {
                        RegisterMemory::Register(dest_name) => {
                            if !is_word_register(dest_name) {
                                return Err(ExecuteError::NotSupported);
                            }
                            self.charge_clocks(instruction);
                            let dest_value = self.get_register(dest_name);
                            self.set_register(dest_name, dest_value.wrapping_sub(immediate), true);
                            Ok(())
                        },
                        _ => Err(ExecuteError::NotSupported),
                    },
                    Mnemonic::MOV => match dest {
                        RegisterMemory::DirectAddress(address) => {
                            self.charge_clocks(instruction);
                            write_word(memory, address, immediate);
                            Ok(())
                        },
                        RegisterMemory::RegisterAddressDisplacement(dest_name, displacement) => {
                            if !is_word_register(dest_name) {
                                return Err(ExecuteError::NotSupported);
                            }
                            self.charge_clocks(instruction);
                            let address = self.get_register(dest_name).wrapping_add(displacement);
                            write_word(memory, address, immediate);
                            Ok(())
                        },
                        _ => Err(ExecuteError::NotSupported),
                    },
                    Mnemonic::CMP => match dest {
                        RegisterMemory::Register(dest_name) => {
                            if !is_word_register(dest_name) {
                                return Err(ExecuteError::NotSupported);
                            }
                            self.charge_clocks(instruction);
                            let dest_value = self.get_register(dest_name);
                            self.update_flags(immediate, dest_value);
                            Ok(())
                        },
                        _ => Err(ExecuteError::NotSupported),
                    },
                    _ => Err(ExecuteError::NotSupported),
                }
            },
            InstructionCategory::ImmediateToAccumulator(_, _, _) => Err(
                ExecuteError::NotSupported,
            ),
            InstructionCategory::Jump(mnemonic, increment) => match mnemonic {
                Mnemonic::JNZ => {
                    if !self.flags.zf {
                        match self.ip.checked_add_signed(increment as i16) {
                            Some(new_ip) => {
                                self.charge_clocks(instruction);
                                self.ip = new_ip;
                                Ok(())
                            },
                            None => Err(ExecuteError::InstructionPointerOverflow),
                        }
                    } else {
                        self.charge_clocks(instruction);
                        Ok(())
                    }
                },
                _ => Err(ExecuteError::NotSupported),
            },
        }
    }

    /// The `MOV` arms of the two-operand family.
    fn execute_mov(
        &mut self,
        instruction: &Instruction,
        memory: &mut Vec<u8>,
        src: RegisterMemory,
        dest: RegisterMemory,
    ) -> (r: Result<(), ExecuteError>)
        requires
            old(memory)@.len() == MEMORY_SIZE,
        ensures
            final(memory)@.len() == MEMORY_SIZE,
            match spec_execute_mov(
                spec_charge_clocks(*old(self), *instruction),
                old(memory)@,
                src,
                dest,
            ) {
                Ok((cpu, mem)) => r is Ok && *final(self) == cpu && final(memory)@ == mem,
                Err(e) => r == Err::<(), ExecuteError>(e) && *final(self) == *old(self) && final(memory)@ == old(memory)@,
            },
    {
        match (src, dest) {
            (RegisterMemory::Register(src_name), RegisterMemory::Register(dest_name)) => {
                if !is_word_register(src_name) || !is_word_register(dest_name) {
                    return Err(ExecuteError::NotSupported);
                }
                self.charge_clocks(instruction);
                let new_value = self.get_register(src_name);
                self.set_register(dest_name, new_value, false);
                Ok(())
            },
            (RegisterMemory::DirectAddress(address), RegisterMemory::Register(dest_name)) => {
                if !is_word_register(dest_name) {
                    return Err(ExecuteError::NotSupported);
                }
                self.charge_clocks(instruction);
                let value = read_word(memory, address);
                self.set_register(dest_name, value, true);
                Ok(())
            },
            (
                RegisterMemory::Register(src_name),
                RegisterMemory::RegisterAddressOffset(dest_name, offset_name),
            ) => {
                if !is_word_register(src_name) || !is_word_register(dest_name)
                    || !is_word_register(offset_name) {
                    return Err(ExecuteError::NotSupported);
                }
                self.charge_clocks(instruction);
                let src_value = self.get_register(src_name);
                let address = self.get_register(dest_name).wrapping_add(
                    self.get_register(offset_name),
                );
                write_word(memory, address, src_value);
                Ok(())
            },
            (
                RegisterMemory::RegisterAddressOffset(src_name, offset_name),
                RegisterMemory::Register(dest_name),
            ) => {
                if !is_word_register(src_name) || !is_word_register(offset_name)
                    || !is_word_register(dest_name) {
                    return Err(ExecuteError::NotSupported);
                }
                self.charge_clocks(instruction);
                let address = self.get_register(src_name).wrapping_add(
                    self.get_register(offset_name),
                );
                let value = read_word(memory, address);
                self.set_register(dest_name, value, true);
                Ok(())
            },
            (
                RegisterMemory::RegisterAddressDisplacement(src_name, displacement),
                RegisterMemory::Register(dest_name),
            ) => {
                if !is_word_register(src_name) || !is_word_register(dest_name) {
                    return Err(ExecuteError::NotSupported);
                }
                self.charge_clocks(instruction);
                let address = self.get_register(src_name).wrapping_add(displacement);
                let value = read_word(memory, address);
                self.set_register(dest_name, value, true);
                Ok(())
            },
            (
                RegisterMemory::Register(src_name),
                RegisterMemory::RegisterAddressDisplacement(dest_name, displacement),
            ) => {
                if !is_word_register(src_name) || !is_word_register(dest_name) {
                    return Err(ExecuteError::NotSupported);
                }
                self.charge_clocks(instruction);
                let value = self.get_register(src_name);
                let address = self.get_register(dest_name).wrapping_add(displacement);
                write_word(memory, address, value);
                Ok(())
            },
            (RegisterMemory::RegisterAddress(src_name), RegisterMemory::Register(dest_name)) => {
                if !is_word_register(src_name) || !is_word_register(dest_name) {
                    return Err(ExecuteError::NotSupported);
                }
                self.charge_clocks(instruction);
                let address = self.get_register(src_name);
                let value = read_word(memory, address);
                self.set_register(dest_name, value, true);
                Ok(())
            },
            (RegisterMemory::Register(src_name), RegisterMemory::RegisterAddress(dest_name)) => {
                if !is_word_register(src_name) || !is_word_register(dest_name) {
                    return Err(ExecuteError::NotSupported);
                }
                self.charge_clocks(instruction);
                let value = self.get_register(src_name);
                let address = self.get_register(dest_name);
                write_word(memory, address, value);
                Ok(())
            },
            _ => Err(ExecuteError::NotSupported),
        }
    }

    /// The `ADD` arms of the two-operand family.
    fn execute_add(
        &mut self,
        instruction: &Instruction,
        memory: &mut Vec<u8>,
        src: RegisterMemory,
        dest: RegisterMemory,
    ) -> (r: Result<(), ExecuteError>)
        requires
            old(memory)@.len() == MEMORY_SIZE,
        ensures
            final(memory)@.len() == MEMORY_SIZE,
            match spec_execute_add(
                spec_charge_clocks(*old(self), *instruction),
                old(memory)@,
                src,
                dest,
            ) {
                Ok((cpu, mem)) => r is Ok && *final(self) == cpu && final(memory)@ == mem,
                Err(e) => r == Err::<(), ExecuteError>(e) && *final(self) == *old(self) && final(memory)@ == old(memory)@,
            },
    {
        match (src, dest) {
            (RegisterMemory::Register(src_name), RegisterMemory::Register(dest_name)) => {
                if !is_word_register(src_name) || !is_word_register(dest_name) {
                    return Err(ExecuteError::NotSupported);
                }
                self.charge_clocks(instruction);
                let new_value = self.get_register(dest_name).wrapping_add(
                    self.get_register(src_name),
                );
                self.set_register(dest_name, new_value, true);
                Ok(())
            },
            (
                RegisterMemory::Register(src_name),
                RegisterMemory::RegisterAddressDisplacement(dest_name, displacement),
            ) => {
                if !is_word_register(src_name) || !is_word_register(dest_name) {
                    return Err(ExecuteError::NotSupported);
                }
                self.charge_clocks(instruction);
                let a = self.get_register(src_name);
                let address = self.get_register(dest_name).wrapping_add(displacement);
                let b = read_word(memory, address);
                let value = a.wrapping_add(b);
                write_word(memory, address, value);
                Ok(())
            },
            _ => Err(ExecuteError::NotSupported),
        }
    }
}

/// One driver-loop step as a pure function: decode at the instruction
/// pointer, advance the pointer past the instruction, then execute it.
/// Errors carry the pointer value at which the offending instruction starts.
pub open spec fn spec_step(stream: Seq<u8>, cpu: CPU, memory: Seq<u8>) -> Result<
    (CPU, Seq<u8>, Instruction),
    SimulateError,
> {
    match spec_decode(stream.skip(cpu.ip as int)) {
        Err(e) => Err(SimulateError::Decode(e, cpu.ip)),
        Ok(instruction) => {
            if cpu.ip + instruction.length > 0xFFFF {
                Err(SimulateError::Execute(ExecuteError::InstructionPointerOverflow, cpu.ip))
            } else {
                let advanced = CPU { ip: (cpu.ip + instruction.length) as u16, ..cpu };
                match spec_execute(advanced, memory, instruction) {
                    Err(e) => Err(SimulateError::Execute(e, cpu.ip)),
                    Ok((next_cpu, next_memory)) => Ok((next_cpu, next_memory, instruction)),
                }
            }
        },
    }
}

/// The driver loop as a pure function: step until the instruction pointer
/// leaves the stream, an error occurs, or `fuel` steps have been taken.  The
/// boolean reports whether the stream was exhausted; an error carries the
/// state reached when it struck.
pub open spec fn spec_run(stream: Seq<u8>, cpu: CPU, memory: Seq<u8>, fuel: nat) -> Result<
    (CPU, Seq<u8>, bool),
    (SimulateError, CPU, Seq<u8>),
>
    decreases fuel,
{
    if cpu.ip as int >= stream.len() {
        Ok((cpu, memory, true))
    } else if fuel == 0 {
        Ok((cpu, memory, false))
    } else {
        match spec_step(stream, cpu, memory) {
            Err(e) => Err((e, cpu, memory)),
            Ok((next_cpu, next_memory, _)) => spec_run(
                stream,
                next_cpu,
                next_memory,
                (fuel - 1) as nat,
            ),
        }
    }
}

impl Hack86 {
    /// Well-formedness: the memory image spans the full 16-bit address space.
    pub open spec fn wf(&self) -> bool {
        self.memory@.len() == MEMORY_SIZE
    }

    /// A simulator over the given instruction stream, with a fresh CPU and
    /// zeroed memory.
    pub fn new(instructions: Vec<u8>) -> (r: Hack86)
        ensures
            r.wf(),
            r.cpu == spec_initial_cpu(),
            r.instructions@ == instructions@,
            forall|i: int| 0 <= i < r.memory@.len() ==> r.memory@[i] == 0,
    {
        Hack86 { cpu: CPU::new(), instructions, memory: vec![0u8; MEMORY_SIZE] }
    }

    /// The full memory image.
    pub fn memory(&self) -> (r: &[u8])
        ensures
            r@ == self.memory@,
    {
        self.memory.as_slice()
    }

    /// Decodes and executes the instruction at the current instruction
    /// pointer, returning the decoded instruction so that a caller can render
    /// a trace from the states before and after.  On any error the whole
    /// simulator state is left exactly as it was.
    pub fn step(&mut self) -> (r: Result<Instruction, SimulateError>)
        requires
            old(self).wf(),
            old(self).cpu.ip < old(self).instructions@.len(),
        ensures
            final(self).wf(),
            final(self).instructions@ == old(self).instructions@,
            match spec_step(old(self).instructions@, old(self).cpu, old(self).memory@) {
                Ok((cpu, memory, instruction)) => r == Ok::<Instruction, SimulateError>(instruction)
                    && final(self).cpu == cpu && final(self).memory@ == memory,
                Err(e) => r == Err::<Instruction, SimulateError>(e) && final(self).cpu == old(self).cpu && final(self).memory@ == old(self).memory@,
            },
    {
        let offset = self.cpu.ip as usize;
        let rest = vstd::slice::slice_subrange(
            self.instructions.as_slice(),
            offset,
            self.instructions.len(),
        );

        let instruction = match crate::decode::decode_instruction(rest) {
            Ok(instruction) => instruction,
            Err(e) => {
                return Err(SimulateError::Decode(e, self.cpu.ip));
            },
        };

        proof {
            crate::decode::lemma_decode_length(rest@);
        }

        if offset + instruction.length > 0xFFFF {
            return Err(
                SimulateError::Execute(ExecuteError::InstructionPointerOverflow, self.cpu.ip),
            );
        }
        let previous_ip = self.cpu.ip;
        self.cpu.ip = (offset + instruction.length) as u16;

        match self.cpu.execute(&instruction, &mut self.memory) {
            Ok(()) => Ok(instruction),
            Err(e) => {
                self.cpu.ip = previous_ip;
                Err(SimulateError::Execute(e, previous_ip))
            },
        }
    }

    /// Steps the simulation until the instruction pointer leaves the stream,
    /// an error occurs, or `max_steps` instructions have been executed.
    /// Returns whether the stream was exhausted.
    pub fn run(&mut self, max_steps: usize) -> (r: Result<bool, SimulateError>)
        requires
            old(self).wf(),
        ensures
            final(self).wf(),
            final(self).instructions@ == old(self).instructions@,
            match spec_run(
                old(self).instructions@,
                old(self).cpu,
                old(self).memory@,
                max_steps as nat,
            ) {
                Ok((cpu, memory, finished)) => r == Ok::<bool, SimulateError>(finished) && final(self).cpu == cpu && final(self).memory@ == memory,
                Err((e, cpu, memory)) => r == Err::<bool, SimulateError>(e) && final(self).cpu
                    == cpu && final(self).memory@ == memory,
            },
    {
        let mut remaining = max_steps;
        while (self.cpu.ip as usize) < self.instructions.len() && remaining > 0
            invariant
                self.wf(),
                self.instructions@ == old(self).instructions@,
                remaining <= max_steps,
                spec_run(
                    old(self).instructions@,
                    old(self).cpu,
                    old(self).memory@,
                    max_steps as nat,
                ) == spec_run(self.instructions@, self.cpu, self.memory@, remaining as nat),
            decreases remaining,
        {
            match self.step() {
                Ok(_) => {
                    remaining = remaining - 1;
                },
                Err(e) => {
                    return Err(e);
                },
            }
        }
        Ok(self.cpu.ip as usize >= self.instructions.len())
    }
}

/// Simulation is a pure function of the instruction stream and the starting
/// state: two runs over equal streams from equal states — in particular two
/// runs of one stream from freshly constructed simulators — end in identical
/// registers, flags, memory images and cycle counts.
pub proof fn lemma_run_deterministic(
    stream1: Seq<u8>,
    cpu1: CPU,
    memory1: Seq<u8>,
    stream2: Seq<u8>,
    cpu2: CPU,
    memory2: Seq<u8>,
    fuel: nat,
)
    requires
        stream1 == stream2,
        cpu1 == cpu2,
        memory1 == memory2,
    ensures
        spec_run(stream1, cpu1, memory1, fuel) == spec_run(stream2, cpu2, memory2, fuel),
{
}

/// Comparing equal values leaves zero set and sign clear.
pub proof fn lemma_compare_equal_flags(value: u16)
    ensures
        spec_compare_flags(value, value) == (Flags { sf: false, zf: true }),
{
    assert(spec_wrapping_sub16(value, value) == 0);
    assert(0u16 & 0x8000u16 == 0) by (bit_vector);
}

/// Executing `CMP` between two word registers holding equal values sets the
/// zero flag and clears the sign flag, and touches nothing but the flags and
/// the cycle counter.
pub proof fn lemma_cmp_equal_sets_zero(
    cpu: CPU,
    memory: Seq<u8>,
    instruction: Instruction,
    src: RegisterName,
    dest: RegisterName,
)
    requires
        spec_is_word_register(src),
        spec_is_word_register(dest),
        instruction.instruction_category == InstructionCategory::RegisterMemoryAndRegister(
            Mnemonic::CMP,
            RegisterMemory::Register(src),
            RegisterMemory::Register(dest),
        ),
        spec_get_register(cpu, src) == spec_get_register(cpu, dest),
    ensures
        spec_execute(cpu, memory, instruction) matches Ok((next_cpu, next_memory))
            && next_cpu.flags == (Flags { sf: false, zf: true }) && next_memory == memory,
{
    let charged = spec_charge_clocks(cpu, instruction);
    lemma_compare_equal_flags(spec_get_register(charged, src));
}

/// A taken `JNZ` (zero flag clear) moves the instruction pointer by the
/// two-byte instruction length plus the signed increment, and changes
/// neither the flags nor the memory image.
pub proof fn lemma_jnz_taken(stream: Seq<u8>, cpu: CPU, memory: Seq<u8>, increment: i8)
    requires
        !cpu.flags.zf,
        spec_decode(stream.skip(cpu.ip as int)) == Ok::<Instruction, DecodeError>(
            Instruction {
                length: 2,
                instruction_category: InstructionCategory::Jump(Mnemonic::JNZ, increment),
            },
        ),
        cpu.ip + 2 <= 0xFFFF,
        0 <= cpu.ip + 2 + increment <= 0xFFFF,
    ensures
        spec_step(stream, cpu, memory) matches Ok((next_cpu, next_memory, _))
            && next_cpu.ip == cpu.ip + 2 + increment && next_memory == memory && next_cpu.flags
            == cpu.flags,
{
}

/// The edge [`lemma_jnz_taken`] leaves out: a taken `JNZ` whose target falls
/// outside the 16-bit pointer range is fatal — the step reports an
/// instruction-pointer overflow, and the step contract then guarantees that
/// the whole simulator state is left unchanged.
pub proof fn lemma_jnz_overflow_is_fatal(stream: Seq<u8>, cpu: CPU, memory: Seq<u8>, increment: i8)
    requires
        !cpu.flags.zf,
        spec_decode(stream.skip(cpu.ip as int)) == Ok::<Instruction, DecodeError>(
            Instruction {
                length: 2,
                instruction_category: InstructionCategory::Jump(Mnemonic::JNZ, increment),
            },
        ),
        cpu.ip + 2 <= 0xFFFF,
        cpu.ip + 2 + increment < 0 || cpu.ip + 2 + increment > 0xFFFF,
    ensures
        spec_step(stream, cpu, memory) == Err::<(CPU, Seq<u8>, Instruction), SimulateError>(
            SimulateError::Execute(ExecuteError::InstructionPointerOverflow, cpu.ip),
        ),
{
}

} // verus!
