//! Instruction decoder for a subset of the 8086 instruction set.
//!
//! [`decode_instruction`] turns a byte slice that starts at an instruction
//! boundary into an [`Instruction`]: the decoded category plus the exact
//! number of bytes the encoding occupies.  The slice may hold trailing bytes
//! belonging to later instructions; only a prefix is consumed.  The whole
//! decoder is a pure function of its input, and its behaviour is pinned down
//! by the spec-level model [`spec_decode`].
//!
//! Displacements and immediates wider than one byte are always read
//! little-endian, and a single-byte immediate under the sign-extension bit of
//! a word operation is widened with sign-preserving high bits.  The one
//! irregular encoding is r/m = 6 under `MemoryModeNoDisplacement`, which
//! denotes a 16-bit direct address rather than `[BP]`.

use vstd::prelude::*;

verus! {

/// Addressing mode, taken from the top two bits of the mode byte.
#[derive(Clone, Copy, Debug, PartialEq, Eq, Structural)]
pub enum Mode {
    MemoryModeNoDisplacement,
    MemoryMode8BitDisplacement,
    MemoryMode16BitDisplacement,
    RegisterMode,
}

/// One of the eight byte-sized or eight word-sized register names.
///
/// Byte and word registers are modelled as independent identities; no
/// partial-register aliasing is represented.
#[derive(Clone, Copy, Debug, PartialEq, Eq, Structural)]
pub enum RegisterName {
    AL,
    BL,
    CL,
    DL,
    AH,
    BH,
    CH,
    DH,
    AX,
    BX,
    CX,
    DX,
    BP,
    SP,
    DI,
    SI,
}

/// Operation named by an instruction's opcode.
#[derive(Clone, Copy, Debug, PartialEq, Eq, Structural)]
pub enum Mnemonic {
    ADD,
    CMP,
    JA,
    JC,
    JCXZ,
    JG,
    JL,
    JNA,
    JNC,
    JNG,
    JNL,
    JNO,
    JNS,
    JNZ,
    JO,
    JPE,
    JPO,
    JS,
    JZ,
    LOOP,
    LOOPE,
    LOOPNE,
    MOV,
    SUB,
}

/// An operand location: a register, or one of the memory addressing forms.
#[derive(Clone, Copy, Debug, PartialEq, Eq, Structural)]
pub enum RegisterMemory {
    Register(RegisterName),
    RegisterAddress(RegisterName),
    RegisterAddressDisplacement(RegisterName, u16),
    RegisterAddressOffset(RegisterName, RegisterName),
    RegisterAddressOffsetDisplacement(RegisterName, RegisterName, u16),
    DirectAddress(u16),
}

/// The shape of a decoded instruction together with its operands.
#[derive(Clone, Copy, Debug, PartialEq, Eq, Structural)]
pub enum InstructionCategory {
    RegisterMemoryAndRegister(Mnemonic, RegisterMemory, RegisterMemory),
    ImmediateToRegister(Mnemonic, u16, RegisterName),
    ImmediateToRegisterMemory(Mnemonic, u16, RegisterMemory, bool),
    ImmediateToAccumulator(Mnemonic, u16, RegisterName),
    Jump(Mnemonic, i8),
}

/// A decoded instruction: its exact encoded length in bytes (2 to 6) and its
/// category.
#[derive(Clone, Copy, Debug, PartialEq, Eq, Structural)]
pub struct Instruction {
    pub length: usize,
    pub instruction_category: InstructionCategory,
}

/// Why a byte sequence could not be decoded.
///
/// `InvalidMode` and `InvalidRegister` are structurally unreachable from
/// [`decode_instruction`] (the fields they guard are two and three bits wide)
/// and are retained defensively.  `TruncatedInstruction` reports an input that
/// ends before the encoding selected by its leading bytes is complete.
#[derive(Clone, Copy, Debug, PartialEq, Eq, Structural)]
pub enum DecodeError {
    InvalidInstruction,
    InvalidMode,
    InvalidRegister,
    InvalidImmediateToRegisterInstruction,
    TruncatedInstruction,
}

/// The 16-bit value encoded little-endian by two consecutive bytes.
pub open spec fn spec_word(lo: u8, hi: u8) -> u16 {
    (lo + hi * 0x100) as u16
}

/// Mode selected by the (already shifted) top two bits of the mode byte.
pub open spec fn spec_mode(mod_bits: u8) -> Result<Mode, DecodeError> {
    if mod_bits == 0 {
        Ok(Mode::MemoryModeNoDisplacement)
    } else if mod_bits == 1 {
        Ok(Mode::MemoryMode8BitDisplacement)
    } else if mod_bits == 2 {
        Ok(Mode::MemoryMode16BitDisplacement)
    } else if mod_bits == 3 {
        Ok(Mode::RegisterMode)
    } else {
        Err(DecodeError::InvalidMode)
    }
}

/// Register selected by a 3-bit field, split by operand width.
pub open spec fn spec_register(reg_bits: u8, word_operation: bool) -> Result<
    RegisterName,
    DecodeError,
> {
    if word_operation {
        if reg_bits == 0 {
            Ok(RegisterName::AX)
        } else if reg_bits == 1 {
            Ok(RegisterName::CX)
        } else if reg_bits == 2 {
            Ok(RegisterName::DX)
        } else if reg_bits == 3 {
            Ok(RegisterName::BX)
        } else if reg_bits == 4 {
            Ok(RegisterName::SP)
        } else if reg_bits == 5 {
            Ok(RegisterName::BP)
        } else if reg_bits == 6 {
            Ok(RegisterName::SI)
        } else if reg_bits == 7 {
            Ok(RegisterName::DI)
        } else {
            Err(DecodeError::InvalidRegister)
        }
    } else {
        if reg_bits == 0 {
            Ok(RegisterName::AL)
        } else if reg_bits == 1 {
            Ok(RegisterName::CL)
        } else if reg_bits == 2 {
            Ok(RegisterName::DL)
        } else if reg_bits == 3 {
            Ok(RegisterName::BL)
        } else if reg_bits == 4 {
            Ok(RegisterName::AH)
        } else if reg_bits == 5 {
            Ok(RegisterName::CH)
        } else if reg_bits == 6 {
            Ok(RegisterName::DH)
        } else if reg_bits == 7 {
            Ok(RegisterName::BH)
        } else {
            Err(DecodeError::InvalidRegister)
        }
    }
}

/// Base register of the memory form selected by r/m values 0 to 3.
pub open spec fn spec_pair_base(rm: u8) -> RegisterName {
    if rm == 0 || rm == 1 {
        RegisterName::BX
    } else {
        RegisterName::BP
    }
}

/// Index register of the memory form selected by r/m values 0 to 3.
pub open spec fn spec_pair_offset(rm: u8) -> RegisterName {
    if rm == 0 || rm == 2 {
        RegisterName::SI
    } else {
        RegisterName::DI
    }
}

/// Base register of the single-register memory form (r/m values 4, 5, 7).
pub open spec fn spec_single_base(rm: u8) -> RegisterName {
    if rm == 4 {
        RegisterName::SI
    } else if rm == 5 {
        RegisterName::DI
    } else {
        RegisterName::BX
    }
}

/// Operand location selected by the r/m field under a given mode.
///
/// r/m = 6 under `MemoryModeNoDisplacement` is the direct-address special
/// case; under that mode every other r/m value carries no displacement.
pub open spec fn spec_register_memory(
    rm: u8,
    mode: Mode,
    displacement: u16,
    word_operation: bool,
) -> Result<RegisterMemory, DecodeError> {
    if rm >= 8 {
        Err(DecodeError::InvalidInstruction)
    } else {
        match mode {
            Mode::RegisterMode => match spec_register(rm, word_operation) {
                Ok(r) => Ok(RegisterMemory::Register(r)),
                Err(e) => Err(e),
            },
            Mode::MemoryModeNoDisplacement => {
                if rm <= 3 {
                    Ok(RegisterMemory::RegisterAddressOffset(spec_pair_base(rm), spec_pair_offset(rm)))
                } else if rm == 6 {
                    Ok(RegisterMemory::DirectAddress(displacement))
                } else {
                    Ok(RegisterMemory::RegisterAddress(spec_single_base(rm)))
                }
            },
            _ => {
                if rm <= 3 {
                    Ok(
                        RegisterMemory::RegisterAddressOffsetDisplacement(
                            spec_pair_base(rm),
                            spec_pair_offset(rm),
                            displacement,
                        ),
                    )
                } else if rm == 6 {
                    Ok(RegisterMemory::RegisterAddressDisplacement(RegisterName::BP, displacement))
                } else {
                    Ok(
                        RegisterMemory::RegisterAddressDisplacement(
                            spec_single_base(rm),
                            displacement,
                        ),
                    )
                }
            },
        }
    }
}

/// Number of displacement bytes that follow the mode byte.
pub open spec fn spec_displacement_len(mode: Mode, rm: u8) -> int {
    match mode {
        Mode::MemoryModeNoDisplacement => if rm == 6 {
            2int
        } else {
            0int
        },
        Mode::MemoryMode8BitDisplacement => 1int,
        Mode::MemoryMode16BitDisplacement => 2int,
        Mode::RegisterMode => 0int,
    }
}

/// Displacement value read from the bytes after the mode byte: one byte is
/// zero-extended, two bytes are read little-endian, none yields zero.
pub open spec fn spec_displacement(bytes: Seq<u8>, mode: Mode, rm: u8) -> u16 {
    if spec_displacement_len(mode, rm) == 2 {
        spec_word(bytes[2], bytes[3])
    } else if spec_displacement_len(mode, rm) == 1 {
        bytes[2] as u16
    } else {
        0u16
    }
}

/// The register operand, memory operand and length shared by the
/// register/memory-with-register instruction forms.
#[derive(Clone, Copy, Debug, PartialEq, Eq, Structural)]
pub struct RegMemoryWithRegisterToEitherOperands {
    pub instruction_length: usize,
    pub register: RegisterName,
    pub register_memory: RegisterMemory,
}

/// The destination operand, immediate and length shared by the
/// immediate-to-register/memory instruction forms.
#[derive(Clone, Copy, Debug, PartialEq, Eq, Structural)]
pub struct ImmediateToRegisterMemoryOperands {
    pub instruction_length: usize,
    pub register_memory: RegisterMemory,
    pub immediate: u16,
}

/// Operand fields of the register/memory-with-register families: the `reg`
/// field is always a register, the r/m field resolves through the
/// addressing-mode table, and the length is two plus the displacement bytes.
pub open spec fn spec_reg_memory_operands(bytes: Seq<u8>, word_operation: bool) -> Result<
    RegMemoryWithRegisterToEitherOperands,
    DecodeError,
> {
    if bytes.len() < 2 {
        Err(DecodeError::TruncatedInstruction)
    } else {
        let operands_byte = bytes[1];
        match spec_register((operands_byte & 0x38) >> 3u8, word_operation) {
            Err(e) => Err(e),
            Ok(register) => match spec_mode(operands_byte >> 6u8) {
                Err(e) => Err(e),
                Ok(mode) => {
                    let rm = operands_byte & 0x7;
                    let length = 2 + spec_displacement_len(mode, rm);
                    if bytes.len() < length {
                        Err(DecodeError::TruncatedInstruction)
                    } else {
                        let displacement = spec_displacement(bytes, mode, rm);
                        match spec_register_memory(rm, mode, displacement, word_operation) {
                            Err(e) => Err(e),
                            Ok(register_memory) => Ok(
                                RegMemoryWithRegisterToEitherOperands {
                                    instruction_length: length as usize,
                                    register,
                                    register_memory,
                                },
                            ),
                        }
                    }
                },
            },
        }
    }
}

/// Decoding of the register/memory-with-register family (`MOV`, `ADD`, `SUB`,
/// `CMP` in their two-operand form).  Bit 0 of byte 0 is the width bit, bit 1
/// selects whether the `reg` field is the destination.
pub open spec fn spec_decode_reg_memory_and_register(m: Mnemonic, bytes: Seq<u8>) -> Result<
    Instruction,
    DecodeError,
> {
    if bytes.len() < 2 {
        Err(DecodeError::TruncatedInstruction)
    } else {
        let word_operation = bytes[0] & 0x1 != 0;
        let reg_is_destination = bytes[0] & 0x2 != 0;
        match spec_reg_memory_operands(bytes, word_operation) {
            Err(e) => Err(e),
            Ok(operands) => {
                let reg_operand = RegisterMemory::Register(operands.register);
                let category = if reg_is_destination {
                    InstructionCategory::RegisterMemoryAndRegister(
                        m,
                        operands.register_memory,
                        reg_operand,
                    )
                } else {
                    InstructionCategory::RegisterMemoryAndRegister(
                        m,
                        reg_operand,
                        operands.register_memory,
                    )
                };
                Ok(
                    Instruction {
                        length: operands.instruction_length,
                        instruction_category: category,
                    },
                )
            },
        }
    }
}

/// The 16-bit immediate carried by a single encoded byte: widened with
/// sign-preserving high bits when the sign-extension bit accompanies a word
/// operation, and a plain byte value otherwise.
pub open spec fn spec_immediate_from_byte(byte: u8, sign_extension: bool, word_operation: bool) -> u16 {
    if sign_extension && word_operation {
        ((byte as i8) as i16) as u16
    } else {
        byte as u16
    }
}

/// Operand fields of the immediate-to-register/memory family.  When the
/// sign-extension bit is set together with the width bit, the immediate is a
/// single sign-extended byte instead of a little-endian pair, which shortens
/// the encoding by one byte; a direct-address destination additionally
/// carries a two-byte displacement before the immediate.
pub open spec fn spec_immediate_to_register_memory_operands(
    bytes: Seq<u8>,
    sign_extension: bool,
    word_operation: bool,
) -> Result<ImmediateToRegisterMemoryOperands, DecodeError> {
    if bytes.len() < 2 {
        Err(DecodeError::TruncatedInstruction)
    } else {
        let word_immediate = !sign_extension && word_operation;
        let operands_byte = bytes[1];
        match spec_mode(operands_byte >> 6u8) {
            Err(e) => Err(e),
            Ok(mode) => {
                let rm = operands_byte & 0x7;
                let disp_len = spec_displacement_len(mode, rm);
                let imm_len: int = if word_immediate {
                    2
                } else {
                    1
                };
                let length = 2 + disp_len + imm_len;
                if bytes.len() < length {
                    Err(DecodeError::TruncatedInstruction)
                } else {
                    let displacement = spec_displacement(bytes, mode, rm);
                    let immediate = if word_immediate {
                        spec_word(bytes[2 + disp_len], bytes[3 + disp_len])
                    } else {
                        spec_immediate_from_byte(
                            bytes[2 + disp_len],
                            sign_extension,
                            word_operation,
                        )
                    };
                    match spec_register_memory(rm, mode, displacement, word_operation) {
                        Err(e) => Err(e),
                        Ok(register_memory) => Ok(
                            ImmediateToRegisterMemoryOperands {
                                instruction_length: length as usize,
                                register_memory,
                                immediate,
                            },
                        ),
                    }
                }
            },
        }
    }
}

/// Decoding of the immediate-to-register/memory family, given the mnemonic
/// already selected from the mode byte's bits 3 to 5.
pub open spec fn spec_decode_immediate_to_register_memory(m: Mnemonic, bytes: Seq<u8>) -> Result<
    Instruction,
    DecodeError,
> {
    if bytes.len() < 2 {
        Err(DecodeError::TruncatedInstruction)
    } else {
        let word_operation = bytes[0] & 0x1 != 0;
        let sign_extension = bytes[0] & 0x2 != 0;
        match spec_immediate_to_register_memory_operands(bytes, sign_extension, word_operation) {
            Err(e) => Err(e),
            Ok(operands) => Ok(
                Instruction {
                    length: operands.instruction_length,
                    instruction_category: InstructionCategory::ImmediateToRegisterMemory(
                        m,
                        operands.immediate,
                        operands.register_memory,
                        word_operation,
                    ),
                },
            ),
        }
    }
}

/// Decoding of the immediate-to-register `MOV` form.  Bit 3 of byte 0 is the
/// width bit and its low three bits select the register.
pub open spec fn spec_decode_immediate_to_register(m: Mnemonic, bytes: Seq<u8>) -> Result<
    Instruction,
    DecodeError,
> {
    let word_operation = bytes[0] & 0x8 != 0;
    let length: int = if word_operation {
        3
    } else {
        2
    };
    if bytes.len() < length {
        Err(DecodeError::TruncatedInstruction)
    } else {
        match spec_register(bytes[0] & 0x7, word_operation) {
            Err(e) => Err(e),
            Ok(register) => {
                let immediate = if word_operation {
                    spec_word(bytes[1], bytes[2])
                } else {
                    bytes[1] as u16
                };
                Ok(
                    Instruction {
                        length: length as usize,
                        instruction_category: InstructionCategory::ImmediateToRegister(
                            m,
                            immediate,
                            register,
                        ),
                    },
                )
            },
        }
    }
}

/// Decoding of the immediate-to-accumulator family: the operand is AL or AX
/// depending on the width bit of byte 0.
pub open spec fn spec_decode_immediate_to_accumulator(m: Mnemonic, bytes: Seq<u8>) -> Result<
    Instruction,
    DecodeError,
> {
    let word_operation = bytes[0] & 0x1 != 0;
    let length: int = if word_operation {
        3
    } else {
        2
    };
    if bytes.len() < length {
        Err(DecodeError::TruncatedInstruction)
    } else {
        let immediate = if word_operation {
            spec_word(bytes[1], bytes[2])
        } else {
            bytes[1] as u16
        };
        let register = if word_operation {
            RegisterName::AX
        } else {
            RegisterName::AL
        };
        Ok(
            Instruction {
                length: length as usize,
                instruction_category: InstructionCategory::ImmediateToAccumulator(
                    m,
                    immediate,
                    register,
                ),
            },
        )
    }
}

/// Decoding of a conditional jump or loop: byte 1 is a signed 8-bit relative
/// increment and the length is always two.
pub open spec fn spec_decode_jump(m: Mnemonic, bytes: Seq<u8>) -> Result<
    Instruction,
    DecodeError,
> {
    if bytes.len() < 2 {
        Err(DecodeError::TruncatedInstruction)
    } else {
        Ok(
            Instruction {
                length: 2,
                instruction_category: InstructionCategory::Jump(m, bytes[1] as i8),
            },
        )
    }
}

/// Mnemonic selected by bits 3 to 5 of the mode byte within the
/// immediate-to-register/memory group.
pub open spec fn spec_immediate_group_mnemonic(operands_byte: u8) -> Result<
    Mnemonic,
    DecodeError,
> {
    let bits = (operands_byte & 0x38) >> 3u8;
    if bits == 0 {
        Ok(Mnemonic::ADD)
    } else if bits == 5 {
        Ok(Mnemonic::SUB)
    } else if bits == 7 {
        Ok(Mnemonic::CMP)
    } else {
        Err(DecodeError::InvalidImmediateToRegisterInstruction)
    }
}

/// Mnemonic of the fixed one-byte jump and loop opcodes, if any.
pub open spec fn spec_jump_mnemonic(opcode: u8) -> Option<Mnemonic> {
    if opcode == 0x74 {
        Some(Mnemonic::JZ)
    } else if opcode == 0x7C {
        Some(Mnemonic::JL)
    } else if opcode == 0x7E {
        Some(Mnemonic::JNG)
    } else if opcode == 0x72 {
        Some(Mnemonic::JC)
    } else if opcode == 0x76 {
        Some(Mnemonic::JNA)
    } else if opcode == 0x7A {
        Some(Mnemonic::JPE)
    } else if opcode == 0x70 {
        Some(Mnemonic::JO)
    } else if opcode == 0x78 {
        Some(Mnemonic::JS)
    } else if opcode == 0x75 {
        Some(Mnemonic::JNZ)
    } else if opcode == 0x7D {
        Some(Mnemonic::JNL)
    } else if opcode == 0x7F {
        Some(Mnemonic::JG)
    } else if opcode == 0x73 {
        Some(Mnemonic::JNC)
    } else if opcode == 0x77 {
        Some(Mnemonic::JA)
    } else if opcode == 0x7B {
        Some(Mnemonic::JPO)
    } else if opcode == 0x71 {
        Some(Mnemonic::JNO)
    } else if opcode == 0x79 {
        Some(Mnemonic::JNS)
    } else if opcode == 0xE2 {
        Some(Mnemonic::LOOP)
    } else if opcode == 0xE1 {
        Some(Mnemonic::LOOPE)
    } else if opcode == 0xE0 {
        Some(Mnemonic::LOOPNE)
    } else if opcode == 0xE3 {
        Some(Mnemonic::JCXZ)
    } else {
        None
    }
}

/// The complete decoder: classifies the first byte by fixed bit patterns in a
/// fixed priority order and hands off to the family decoders above.
pub open spec fn spec_decode(bytes: Seq<u8>) -> Result<Instruction, DecodeError> {
    if bytes.len() < 1 {
        Err(DecodeError::TruncatedInstruction)
    } else {
        let b0 = bytes[0];
        if b0 & 0xFC == 0x80 {
            if bytes.len() < 2 {
                Err(DecodeError::TruncatedInstruction)
            } else {
                match spec_immediate_group_mnemonic(bytes[1]) {
                    Err(e) => Err(e),
                    Ok(m) => spec_decode_immediate_to_register_memory(m, bytes),
                }
            }
        } else if b0 & 0xFC == 0x88 {
            spec_decode_reg_memory_and_register(Mnemonic::MOV, bytes)
        } else if b0 & 0xF0 == 0xB0 {
            spec_decode_immediate_to_register(Mnemonic::MOV, bytes)
        } else if b0 & 0xFC == 0x00 {
            spec_decode_reg_memory_and_register(Mnemonic::ADD, bytes)
        } else if b0 & 0xFE == 0x04 {
            spec_decode_immediate_to_accumulator(Mnemonic::ADD, bytes)
        } else if b0 & 0xFC == 0x28 {
            spec_decode_reg_memory_and_register(Mnemonic::SUB, bytes)
        } else if b0 & 0xFE == 0x2C {
            spec_decode_immediate_to_accumulator(Mnemonic::SUB, bytes)
        } else if b0 & 0xFC == 0x38 {
            spec_decode_reg_memory_and_register(Mnemonic::CMP, bytes)
        } else if b0 & 0xFE == 0x3C {
            spec_decode_immediate_to_accumulator(Mnemonic::CMP, bytes)
        } else {
            match spec_jump_mnemonic(b0) {
                Some(m) => spec_decode_jump(m, bytes),
                None => Err(DecodeError::InvalidInstruction),
            }
        }
    }
}

/// Every successfully decoded instruction reports a length between two and
/// six bytes, and that many bytes were present in the input: the length is
/// exactly the byte count consumed, so a well-formed stream can be walked by
/// advancing the offset by each decoded length in turn.
pub proof fn lemma_decode_length(bytes: Seq<u8>)
    ensures
        spec_decode(bytes) matches Ok(i) ==> 2 <= i.length <= 6 && i.length <= bytes.len(),
{
}

/// A successful decode reads nothing beyond the bytes it reports consumed:
/// any input agreeing on those bytes decodes to the same instruction.
pub proof fn lemma_decode_reads_only_prefix(bytes: Seq<u8>, other: Seq<u8>)
    requires
        spec_decode(bytes) matches Ok(i),
        other.len() >= (spec_decode(bytes)->Ok_0).length,
        forall|k: int|
            0 <= k < (spec_decode(bytes)->Ok_0).length ==> bytes[k] == #[trigger] other[k],
    ensures
        spec_decode(other) == spec_decode(bytes),
{
}

/// r/m = 6 under `MemoryModeNoDisplacement` always decodes to a direct
/// address whose value is read little-endian from the two bytes after the
/// mode byte — never to a `[BP]`-based form.  This covers both families that
/// carry a mode byte; the remaining families do not read one.
pub proof fn lemma_direct_address(bytes: Seq<u8>)
    requires
        bytes.len() >= 2,
        bytes[1] >> 6u8 == 0,
        bytes[1] & 0x7 == 6,
        spec_decode(bytes) matches Ok(i),
    ensures
        spec_decode(bytes) matches Ok(i) ==> match i.instruction_category {
            InstructionCategory::RegisterMemoryAndRegister(_, src, dest) => {
                let direct = RegisterMemory::DirectAddress(spec_word(bytes[2], bytes[3]));
                &&& if bytes[0] & 0x2 != 0 {
                    src == direct
                } else {
                    dest == direct
                }
                &&& i.length >= 4
            },
            InstructionCategory::ImmediateToRegisterMemory(_, _, dest, _) => dest
                == RegisterMemory::DirectAddress(spec_word(bytes[2], bytes[3])),
            _ => true,
        },
{
}

/// Setting the sign-extension bit together with the width bit shrinks an
/// immediate-to-register/memory encoding by exactly one byte: the immediate
/// is a single byte rather than a little-endian pair.
pub proof fn lemma_sign_extension_shortens(bytes: Seq<u8>)
    requires
        spec_immediate_to_register_memory_operands(bytes, true, true) is Ok,
        spec_immediate_to_register_memory_operands(bytes, false, true) is Ok,
    ensures
        spec_immediate_to_register_memory_operands(bytes, true, true)->Ok_0.instruction_length + 1
            == spec_immediate_to_register_memory_operands(bytes, false, true)->Ok_0.instruction_length,
{
}

/// `InvalidMode` and `InvalidRegister` guard two- and three-bit fields and
/// can never actually be produced by the decoder.
pub proof fn lemma_defensive_errors_unreachable(bytes: Seq<u8>)
    ensures
        spec_decode(bytes) != Err::<Instruction, DecodeError>(DecodeError::InvalidMode),
        spec_decode(bytes) != Err::<Instruction, DecodeError>(DecodeError::InvalidRegister),
{
    if bytes.len() >= 1 {
        let b0 = bytes[0];
        assert(b0 & 0x7 <= 7) by (bit_vector);
        if bytes.len() >= 2 {
            let b1 = bytes[1];
            assert(b1 >> 6u8 <= 3 && (b1 & 0x38) >> 3u8 <= 7 && b1 & 0x7 <= 7) by (bit_vector);
        }
    }
}

/// Reads the 16-bit value encoded little-endian by two bytes.
fn word16(lo: u8, hi: u8) -> (r: u16)
    ensures
        r == spec_word(lo, hi),
{
    lo as u16 + hi as u16 * 0x100
}

/// Resolves the (already shifted) top two bits of the mode byte.
pub fn decode_mod(mod_byte: u8) -> (r: Result<Mode, DecodeError>)
    ensures
        r == spec_mode(mod_byte),
{
    match mod_byte {
        0x0 => Ok(Mode::MemoryModeNoDisplacement),
        0x1 => Ok(Mode::MemoryMode8BitDisplacement),
        0x2 => Ok(Mode::MemoryMode16BitDisplacement),
        0x3 => Ok(Mode::RegisterMode),
        _ => Err(DecodeError::InvalidMode),
    }
}

/// Resolves a 3-bit register selector, split by operand width.
pub fn decode_register(register_byte: u8, word_operation: bool) -> (r: Result<
    RegisterName,
    DecodeError,
>)
    ensures
        r == spec_register(register_byte, word_operation),
{
    match (register_byte, word_operation) {
        (0x0, false) => Ok(RegisterName::AL),
        (0x1, false) => Ok(RegisterName::CL),
        (0x2, false) => Ok(RegisterName::DL),
        (0x3, false) => Ok(RegisterName::BL),
        (0x4, false) => Ok(RegisterName::AH),
        (0x5, false) => Ok(RegisterName::CH),
        (0x6, false) => Ok(RegisterName::DH),
        (0x7, false) => Ok(RegisterName::BH),
        (0x0, true) => Ok(RegisterName::AX),
        (0x1, true) => Ok(RegisterName::CX),
        (0x2, true) => Ok(RegisterName::DX),
        (0x3, true) => Ok(RegisterName::BX),
        (0x4, true) => Ok(RegisterName::SP),
        (0x5, true) => Ok(RegisterName::BP),
        (0x6, true) => Ok(RegisterName::SI),
        (0x7, true) => Ok(RegisterName::DI),
        _ => Err(DecodeError::InvalidRegister),
    }
}

/// Resolves the r/m field under a mode, with the displacement already read.
pub fn decode_register_memory(
    register_memory_byte: u8,
    mode: &Mode,
    displacement: u16,
    word_operation: bool,
) -> (r: Result<RegisterMemory, DecodeError>)
    ensures
        r == spec_register_memory(register_memory_byte, *mode, displacement, word_operation),
{
    if register_memory_byte >= 8 {
        return Err(DecodeError::InvalidInstruction);
    }
    match mode {
        Mode::RegisterMode => match decode_register(register_memory_byte, word_operation) {
            Ok(name) => Ok(RegisterMemory::Register(name)),
            Err(e) => Err(e),
        },
        Mode::MemoryModeNoDisplacement => match register_memory_byte {
            0x0 => Ok(RegisterMemory::RegisterAddressOffset(RegisterName::BX, RegisterName::SI)),
            0x1 => Ok(RegisterMemory::RegisterAddressOffset(RegisterName::BX, RegisterName::DI)),
            0x2 => Ok(RegisterMemory::RegisterAddressOffset(RegisterName::BP, RegisterName::SI)),
            0x3 => Ok(RegisterMemory::RegisterAddressOffset(RegisterName::BP, RegisterName::DI)),
            0x4 => Ok(RegisterMemory::RegisterAddress(RegisterName::SI)),
            0x5 => Ok(RegisterMemory::RegisterAddress(RegisterName::DI)),
            0x6 => Ok(RegisterMemory::DirectAddress(displacement)),
            _ => Ok(RegisterMemory::RegisterAddress(RegisterName::BX)),
        },
        _ => match register_memory_byte {
            0x0 => Ok(
                RegisterMemory::RegisterAddressOffsetDisplacement(
                    RegisterName::BX,
                    RegisterName::SI,
                    displacement,
                ),
            ),
            0x1 => Ok(
                RegisterMemory::RegisterAddressOffsetDisplacement(
                    RegisterName::BX,
                    RegisterName::DI,
                    displacement,
                ),
            ),
            0x2 => Ok(
                RegisterMemory::RegisterAddressOffsetDisplacement(
                    RegisterName::BP,
                    RegisterName::SI,
                    displacement,
                ),
            ),
            0x3 => Ok(
                RegisterMemory::RegisterAddressOffsetDisplacement(
                    RegisterName::BP,
                    RegisterName::DI,
                    displacement,
                ),
            ),
            0x4 => Ok(RegisterMemory::RegisterAddressDisplacement(RegisterName::SI, displacement)),
            0x5 => Ok(RegisterMemory::RegisterAddressDisplacement(RegisterName::DI, displacement)),
            0x6 => Ok(RegisterMemory::RegisterAddressDisplacement(RegisterName::BP, displacement)),
            _ => Ok(RegisterMemory::RegisterAddressDisplacement(RegisterName::BX, displacement)),
        },
    }
}

/// Reads the operand fields shared by the register/memory-with-register
/// forms, including any displacement bytes.
pub fn decode_reg_memory_with_register_to_either_operands(
    instruction_stream: &[u8],
    word_operation: bool,
) -> (r: Result<RegMemoryWithRegisterToEitherOperands, DecodeError>)
    ensures
        r == spec_reg_memory_operands(instruction_stream@, word_operation),
{
    if instruction_stream.len() < 2 {
        return Err(DecodeError::TruncatedInstruction);
    }
    let operands_byte = instruction_stream[1];

    let register = match decode_register((operands_byte & 0x38) >> 3u8, word_operation) {
        Ok(register) => register,
        Err(e) => return Err(e),
    };

    let mode = match decode_mod(operands_byte >> 6u8) {
        Ok(mode) => mode,
        Err(e) => return Err(e),
    };

    let rm = operands_byte & 0x7;
    let instruction_length: usize;
    let mut displacement: u16 = 0;
    match mode {
        Mode::MemoryModeNoDisplacement => {
            if rm == 0x6 {
                if instruction_stream.len() < 4 {
                    return Err(DecodeError::TruncatedInstruction);
                }
                instruction_length = 4;
                displacement = word16(instruction_stream[2], instruction_stream[3]);
            } else {
                instruction_length = 2;
            }
        },
        Mode::RegisterMode => {
            instruction_length = 2;
        },
        Mode::MemoryMode8BitDisplacement => {
            if instruction_stream.len() < 3 {
                return Err(DecodeError::TruncatedInstruction);
            }
            instruction_length = 3;
            displacement = instruction_stream[2] as u16;
        },
        Mode::MemoryMode16BitDisplacement => {
            if instruction_stream.len() < 4 {
                return Err(DecodeError::TruncatedInstruction);
            }
            instruction_length = 4;
            displacement = word16(instruction_stream[2], instruction_stream[3]);
        },
    }

    let register_memory = match decode_register_memory(rm, &mode, displacement, word_operation) {
        Ok(register_memory) => register_memory,
        Err(e) => return Err(e),
    };

    Ok(RegMemoryWithRegisterToEitherOperands { instruction_length, register, register_memory })
}

/// Reads the 16-bit immediate carried by a single encoded byte, widening it
/// with sign-preserving high bits when the sign-extension bit accompanies a
/// word operation.
fn immediate_from_byte(byte: u8, sign_extension: bool, word_operation: bool) -> (r: u16)
    ensures
        r == spec_immediate_from_byte(byte, sign_extension, word_operation),
{
    if sign_extension && word_operation {
        let signed = #[verifier::truncate] (byte as i8);
        #[verifier::truncate] ((signed as i16) as u16)
    } else {
        byte as u16
    }
}

/// Reads the operand fields of the immediate-to-register/memory forms: any
/// displacement bytes, then the one- or two-byte immediate.
pub fn decode_immediate_to_register_memory_operands(
    instruction_stream: &[u8],
    sign_extension: bool,
    word_operation: bool,
) -> (r: Result<ImmediateToRegisterMemoryOperands, DecodeError>)
    ensures
        r == spec_immediate_to_register_memory_operands(
            instruction_stream@,
            sign_extension,
            word_operation,
        ),
{
    if instruction_stream.len() < 2 {
        return Err(DecodeError::TruncatedInstruction);
    }
    let operands_byte = instruction_stream[1];
    let word_immediate = !sign_extension && word_operation;

    let register_memory_byte = operands_byte & 0x7;

    let mode = match decode_mod(operands_byte >> 6u8) {
        Ok(mode) => mode,
        Err(e) => return Err(e),
    };

    let instruction_length: usize;
    let mut displacement: u16 = 0;
    let immediate: u16;
    match mode {
        Mode::RegisterMode => {
            if word_immediate {
                if instruction_stream.len() < 4 {
                    return Err(DecodeError::TruncatedInstruction);
                }
                instruction_length = 4;
                immediate = word16(instruction_stream[2], instruction_stream[3]);
            } else {
                if instruction_stream.len() < 3 {
                    return Err(DecodeError::TruncatedInstruction);
                }
                instruction_length = 3;
                immediate = immediate_from_byte(
                    instruction_stream[2],
                    sign_extension,
                    word_operation,
                );
            }
        },
        Mode::MemoryModeNoDisplacement => {
            if register_memory_byte == 0x6 {
                // A direct address interposes its two displacement bytes
                // between the mode byte and the immediate.
                if word_immediate {
                    if instruction_stream.len() < 6 {
                        return Err(DecodeError::TruncatedInstruction);
                    }
                    instruction_length = 6;
                    displacement = word16(instruction_stream[2], instruction_stream[3]);
                    immediate = word16(instruction_stream[4], instruction_stream[5]);
                } else {
                    if instruction_stream.len() < 5 {
                        return Err(DecodeError::TruncatedInstruction);
                    }
                    instruction_length = 5;
                    displacement = word16(instruction_stream[2], instruction_stream[3]);
                    immediate = immediate_from_byte(
                        instruction_stream[4],
                        sign_extension,
                        word_operation,
                    );
                }
            } else {
                if word_immediate {
                    if instruction_stream.len() < 4 {
                        return Err(DecodeError::TruncatedInstruction);
                    }
                    instruction_length = 4;
                    immediate = word16(instruction_stream[2], instruction_stream[3]);
                } else {
                    if instruction_stream.len() < 3 {
                        return Err(DecodeError::TruncatedInstruction);
                    }
                    instruction_length = 3;
                    immediate = immediate_from_byte(
                        instruction_stream[2],
                        sign_extension,
                        word_operation,
                    );
                }
            }
        },
        Mode::MemoryMode8BitDisplacement => {
            if word_immediate {
                if instruction_stream.len() < 5 {
                    return Err(DecodeError::TruncatedInstruction);
                }
                instruction_length = 5;
                displacement = instruction_stream[2] as u16;
                immediate = word16(instruction_stream[3], instruction_stream[4]);
            } else {
                if instruction_stream.len() < 4 {
                    return Err(DecodeError::TruncatedInstruction);
                }
                instruction_length = 4;
                displacement = instruction_stream[2] as u16;
                immediate = immediate_from_byte(
                    instruction_stream[3],
                    sign_extension,
                    word_operation,
                );
            }
        },
        Mode::MemoryMode16BitDisplacement => {
            if word_immediate {
                if instruction_stream.len() < 6 {
                    return Err(DecodeError::TruncatedInstruction);
                }
                instruction_length = 6;
                displacement = word16(instruction_stream[2], instruction_stream[3]);
                immediate = word16(instruction_stream[4], instruction_stream[5]);
            } else {
                if instruction_stream.len() < 5 {
                    return Err(DecodeError::TruncatedInstruction);
                }
                instruction_length = 5;
                displacement = word16(instruction_stream[2], instruction_stream[3]);
                immediate = immediate_from_byte(
                    instruction_stream[4],
                    sign_extension,
                    word_operation,
                );
            }
        },
    }

    let register_memory = match decode_register_memory(
        register_memory_byte,
        &mode,
        displacement,
        word_operation,
    ) {
        Ok(register_memory) => register_memory,
        Err(e) => return Err(e),
    };

    Ok(ImmediateToRegisterMemoryOperands { instruction_length, register_memory, immediate })
}

/// Decodes one instruction of the register/memory-with-register family.
pub fn decode_reg_memory_and_register_to_either(mnemonic: Mnemonic, bytes: &[u8]) -> (r: Result<
    Instruction,
    DecodeError,
>)
    ensures
        r == spec_decode_reg_memory_and_register(mnemonic, bytes@),
{
    if bytes.len() < 2 {
        return Err(DecodeError::TruncatedInstruction);
    }
    let word_operation = (bytes[0] & 0x1) != 0;
    let reg_is_destination = (bytes[0] & 0x2) != 0;

    let operands = match decode_reg_memory_with_register_to_either_operands(bytes, word_operation) {
        Ok(operands) => operands,
        Err(e) => return Err(e),
    };

    if reg_is_destination {
        Ok(
            Instruction {
                length: operands.instruction_length,
                instruction_category: InstructionCategory::RegisterMemoryAndRegister(
                    mnemonic,
                    operands.register_memory,
                    RegisterMemory::Register(operands.register),
                ),
            },
        )
    } else {
        Ok(
            Instruction {
                length: operands.instruction_length,
                instruction_category: InstructionCategory::RegisterMemoryAndRegister(
                    mnemonic,
                    RegisterMemory::Register(operands.register),
                    operands.register_memory,
                ),
            },
        )
    }
}

/// Decodes one instruction of the immediate-to-register/memory family.
pub fn decode_immediate_to_register_memory(mnemonic: Mnemonic, bytes: &[u8]) -> (r: Result<
    Instruction,
    DecodeError,
>)
    ensures
        r == spec_decode_immediate_to_register_memory(mnemonic, bytes@),
{
    if bytes.len() < 2 {
        return Err(DecodeError::TruncatedInstruction);
    }
    let word_operation = (bytes[0] & 0x1) != 0;
    let sign_extension = (bytes[0] & 0x2) != 0;

    let operands = match decode_immediate_to_register_memory_operands(
        bytes,
        sign_extension,
        word_operation,
    ) {
        Ok(operands) => operands,
        Err(e) => return Err(e),
    };

    Ok(
        Instruction {
            length: operands.instruction_length,
            instruction_category: InstructionCategory::ImmediateToRegisterMemory(
                mnemonic,
                operands.immediate,
                operands.register_memory,
                word_operation,
            ),
        },
    )
}

/// Decodes one immediate-to-register instruction.
pub fn decode_immediate_to_register(mnemonic: Mnemonic, bytes: &[u8]) -> (r: Result<
    Instruction,
    DecodeError,
>)
    ensures
        r == spec_decode_immediate_to_register(mnemonic, bytes@),
{
    if bytes.len() < 1 {
        return Err(DecodeError::TruncatedInstruction);
    }
    let word_operation = (bytes[0] & 0x8) != 0;

    let length: usize = if word_operation {
        3
    } else {
        2
    };
    if bytes.len() < length {
        return Err(DecodeError::TruncatedInstruction);
    }

    let register = match decode_register(bytes[0] & 0x7, word_operation) {
        Ok(register) => register,
        Err(e) => return Err(e),
    };
    let immediate = if word_operation {
        word16(bytes[1], bytes[2])
    } else {
        bytes[1] as u16
    };

    Ok(
        Instruction {
            length,
            instruction_category: InstructionCategory::ImmediateToRegister(
                mnemonic,
                immediate,
                register,
            ),
        },
    )
}

/// Decodes one immediate-to-accumulator instruction.
pub fn decode_immediate_to_accumulator(mnemonic: Mnemonic, bytes: &[u8]) -> (r: Result<
    Instruction,
    DecodeError,
>)
    ensures
        r == spec_decode_immediate_to_accumulator(mnemonic, bytes@),
{
    if bytes.len() < 1 {
        return Err(DecodeError::TruncatedInstruction);
    }
    let word_operation = (bytes[0] & 0x1) != 0;

    let length: usize = if word_operation {
        3
    } else {
        2
    };
    if bytes.len() < length {
        return Err(DecodeError::TruncatedInstruction);
    }

    let data = if word_operation {
        word16(bytes[1], bytes[2])
    } else {
        bytes[1] as u16
    };

    let register_name = if word_operation {
        RegisterName::AX
    } else {
        RegisterName::AL
    };

    Ok(
        Instruction {
            length,
            instruction_category: InstructionCategory::ImmediateToAccumulator(
                mnemonic,
                data,
                register_name,
            ),
        },
    )
}

/// Decodes one conditional jump or loop instruction.
pub fn decode_jump(mnemonic: Mnemonic, remaining_bytes: &[u8]) -> (r: Result<
    Instruction,
    DecodeError,
>)
    ensures
        r == spec_decode_jump(mnemonic, remaining_bytes@),
{
    if remaining_bytes.len() < 2 {
        return Err(DecodeError::TruncatedInstruction);
    }
    let increment = #[verifier::truncate] (remaining_bytes[1] as i8);

    Ok(Instruction { length: 2, instruction_category: InstructionCategory::Jump(mnemonic, increment) })
}

/// Selects the ALU mnemonic encoded in bits 3 to 5 of the mode byte within
/// the immediate-to-register/memory group.
pub fn identify_immediate_to_register_instruction(byte: u8) -> (r: Result<Mnemonic, DecodeError>)
    ensures
        r == spec_immediate_group_mnemonic(byte),
{
    match (byte & 0x38) >> 3u8 {
        0x0 => Ok(Mnemonic::ADD),
        0x5 => Ok(Mnemonic::SUB),
        0x7 => Ok(Mnemonic::CMP),
        _ => Err(DecodeError::InvalidImmediateToRegisterInstruction),
    }
}

/// Decodes the instruction at the start of the slice.
///
/// The result equals [`spec_decode`] on the slice's contents: on success the
/// returned length is the exact number of bytes the instruction occupies, and
/// every failure is reported as the matching [`DecodeError`].
pub fn decode_instruction(remaining_bytes: &[u8]) -> (r: Result<Instruction, DecodeError>)
    ensures
        r == spec_decode(remaining_bytes@),
{
    if remaining_bytes.len() < 1 {
        return Err(DecodeError::TruncatedInstruction);
    }
    let instruction = remaining_bytes[0];

    if (instruction & 0b11111100) == 0b10000000 {
        if remaining_bytes.len() < 2 {
            return Err(DecodeError::TruncatedInstruction);
        }
        let mnemonic = match identify_immediate_to_register_instruction(remaining_bytes[1]) {
            Ok(mnemonic) => mnemonic,
            Err(e) => return Err(e),
        };
        return decode_immediate_to_register_memory(mnemonic, remaining_bytes);
    }

    if (instruction & 0b11111100) == 0b10001000 {
        return decode_reg_memory_and_register_to_either(Mnemonic::MOV, remaining_bytes);
    }
    if (instruction & 0b11110000) == 0b10110000 {
        return decode_immediate_to_register(Mnemonic::MOV, remaining_bytes);
    }

    if (instruction & 0b11111100) == 0b00000000 {
        return decode_reg_memory_and_register_to_either(Mnemonic::ADD, remaining_bytes);
    }
    if (instruction & 0b11111110) == 0b00000100 {
        return decode_immediate_to_accumulator(Mnemonic::ADD, remaining_bytes);
    }

    if (instruction & 0b11111100) == 0b00101000 {
        return decode_reg_memory_and_register_to_either(Mnemonic::SUB, remaining_bytes);
    }
    if (instruction & 0b11111110) == 0b00101100 {
        return decode_immediate_to_accumulator(Mnemonic::SUB, remaining_bytes);
    }

    if (instruction & 0b11111100) == 0b00111000 {
        return decode_reg_memory_and_register_to_either(Mnemonic::CMP, remaining_bytes);
    }
    if (instruction & 0b11111110) == 0b00111100 {
        return decode_immediate_to_accumulator(Mnemonic::CMP, remaining_bytes);
    }

    match instruction {
        0b01110100 => decode_jump(Mnemonic::JZ, remaining_bytes),
        0b01111100 => decode_jump(Mnemonic::JL, remaining_bytes),
        0b01111110 => decode_jump(Mnemonic::JNG, remaining_bytes),
        0b01110010 => decode_jump(Mnemonic::JC, remaining_bytes),
        0b01110110 => decode_jump(Mnemonic::JNA, remaining_bytes),
        0b01111010 => decode_jump(Mnemonic::JPE, remaining_bytes),
        0b01110000 => decode_jump(Mnemonic::JO, remaining_bytes),
        0b01111000 => decode_jump(Mnemonic::JS, remaining_bytes),
        0b01110101 => decode_jump(Mnemonic::JNZ, remaining_bytes),
        0b01111101 => decode_jump(Mnemonic::JNL, remaining_bytes),
        0b01111111 => decode_jump(Mnemonic::JG, remaining_bytes),
        0b01110011 => decode_jump(Mnemonic::JNC, remaining_bytes),
        0b01110111 => decode_jump(Mnemonic::JA, remaining_bytes),
        0b01111011 => decode_jump(Mnemonic::JPO, remaining_bytes),
        0b01110001 => decode_jump(Mnemonic::JNO, remaining_bytes),
        0b01111001 => decode_jump(Mnemonic::JNS, remaining_bytes),
        0b11100010 => decode_jump(Mnemonic::LOOP, remaining_bytes),
        0b11100001 => decode_jump(Mnemonic::LOOPE, remaining_bytes),
        0b11100000 => decode_jump(Mnemonic::LOOPNE, remaining_bytes),
        0b11100011 => decode_jump(Mnemonic::JCXZ, remaining_bytes),
        _ => Err(DecodeError::InvalidInstruction),
    }
}

} // verus!
