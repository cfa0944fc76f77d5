use hack86::decode::{
    decode_instruction, decode_mod, decode_register, DecodeError, Instruction,
    InstructionCategory, Mnemonic, Mode, RegisterMemory, RegisterName,
};

#[test]
fn immediate_to_register_word() {
    let bytes = [0xB8, 0x01, 0x00];
    let instruction = decode_instruction(&bytes).unwrap();
    assert_eq!(instruction.length, 3);
    assert_eq!(
        instruction.instruction_category,
        InstructionCategory::ImmediateToRegister(Mnemonic::MOV, 1, RegisterName::AX)
    );
}

#[test]
fn immediate_to_register_byte() {
    // MOV CL, 12: byte-sized immediate, so only two bytes are consumed.
    let bytes = [0xB1, 0x0C];
    let instruction = decode_instruction(&bytes).unwrap();
    assert_eq!(instruction.length, 2);
    assert_eq!(
        instruction.instruction_category,
        InstructionCategory::ImmediateToRegister(Mnemonic::MOV, 12, RegisterName::CL)
    );
}

#[test]
fn register_to_register_mov() {
    // MOV AX, BX: direction bit clear, so the reg field (BX) is the source.
    let bytes = [0x89, 0xD8];
    let instruction = decode_instruction(&bytes).unwrap();
    assert_eq!(instruction.length, 2);
    assert_eq!(
        instruction.instruction_category,
        InstructionCategory::RegisterMemoryAndRegister(
            Mnemonic::MOV,
            RegisterMemory::Register(RegisterName::BX),
            RegisterMemory::Register(RegisterName::AX),
        )
    );
}

#[test]
fn direct_address_special_case() {
    // MOV DX, [16]: mode 00 with r/m 6 is a direct address, never [BP],
    // and its two displacement bytes are read little-endian.
    let bytes = [0x8B, 0x16, 0x10, 0x00];
    let instruction = decode_instruction(&bytes).unwrap();
    assert_eq!(instruction.length, 4);
    match instruction.instruction_category {
        InstructionCategory::RegisterMemoryAndRegister(Mnemonic::MOV, src, dest) => {
            assert_eq!(src, RegisterMemory::DirectAddress(16));
            assert_eq!(dest, RegisterMemory::Register(RegisterName::DX));
        }
        other => panic!("unexpected category {:?}", other),
    }
}

#[test]
fn direct_address_little_endian_value() {
    let bytes = [0x8B, 0x16, 0x34, 0x12];
    let instruction = decode_instruction(&bytes).unwrap();
    match instruction.instruction_category {
        InstructionCategory::RegisterMemoryAndRegister(_, src, _) => {
            assert_eq!(src, RegisterMemory::DirectAddress(0x1234));
        }
        other => panic!("unexpected category {:?}", other),
    }
}

#[test]
fn direct_address_in_immediate_family() {
    // ADD word [16], 5 with the sign-extension bit set: two displacement
    // bytes and then a single immediate byte, six bytes minus the one the
    // s bit saves.
    let bytes = [0x83, 0x06, 0x10, 0x00, 0x05];
    let instruction = decode_instruction(&bytes).unwrap();
    assert_eq!(instruction.length, 5);
    assert_eq!(
        instruction.instruction_category,
        InstructionCategory::ImmediateToRegisterMemory(
            Mnemonic::ADD,
            5,
            RegisterMemory::DirectAddress(16),
            true,
        )
    );
}

#[test]
fn sign_extension_shortens_encoding() {
    // ADD CX, imm with and without the sign-extension bit: the s form
    // consumes exactly one immediate byte, one fewer than the wide form.
    let short = decode_instruction(&[0x83, 0xC1, 0x05]).unwrap();
    let wide = decode_instruction(&[0x81, 0xC1, 0x05, 0x00]).unwrap();
    assert_eq!(short.length, 3);
    assert_eq!(wide.length, 4);
    assert_eq!(short.length + 1, wide.length);
    assert_eq!(
        short.instruction_category,
        InstructionCategory::ImmediateToRegisterMemory(
            Mnemonic::ADD,
            5,
            RegisterMemory::Register(RegisterName::CX),
            true,
        )
    );
    assert_eq!(short.instruction_category, wide.instruction_category);
}

#[test]
fn sign_extension_widens_the_immediate() {
    // ADD CX, -5 in the short form: the immediate byte 0xFB is widened with
    // sign-preserving high bits to 0xFFFB.
    let instruction = decode_instruction(&[0x83, 0xC1, 0xFB]).unwrap();
    assert_eq!(instruction.length, 3);
    assert_eq!(
        instruction.instruction_category,
        InstructionCategory::ImmediateToRegisterMemory(
            Mnemonic::ADD,
            0xFFFB,
            RegisterMemory::Register(RegisterName::CX),
            true,
        )
    );
    // In a byte operation the same immediate byte stays a plain byte value.
    let byte_form = decode_instruction(&[0x80, 0xC1, 0xFB]).unwrap();
    assert_eq!(
        byte_form.instruction_category,
        InstructionCategory::ImmediateToRegisterMemory(
            Mnemonic::ADD,
            0xFB,
            RegisterMemory::Register(RegisterName::CL),
            false,
        )
    );
}

#[test]
fn eight_bit_displacement() {
    // MOV AL, [BP + 5]: byte operation, one displacement byte.
    let bytes = [0x8A, 0x46, 0x05];
    let instruction = decode_instruction(&bytes).unwrap();
    assert_eq!(instruction.length, 3);
    assert_eq!(
        instruction.instruction_category,
        InstructionCategory::RegisterMemoryAndRegister(
            Mnemonic::MOV,
            RegisterMemory::RegisterAddressDisplacement(RegisterName::BP, 5),
            RegisterMemory::Register(RegisterName::AL),
        )
    );
}

#[test]
fn sixteen_bit_displacement_little_endian() {
    // ADD [BX + SI + 0x1234], AX.
    let bytes = [0x01, 0x80, 0x34, 0x12];
    let instruction = decode_instruction(&bytes).unwrap();
    assert_eq!(instruction.length, 4);
    assert_eq!(
        instruction.instruction_category,
        InstructionCategory::RegisterMemoryAndRegister(
            Mnemonic::ADD,
            RegisterMemory::Register(RegisterName::AX),
            RegisterMemory::RegisterAddressOffsetDisplacement(
                RegisterName::BX,
                RegisterName::SI,
                0x1234,
            ),
        )
    );
}

#[test]
fn zero_displacement_is_kept() {
    // MOV AX, [SI + 0]: the stored displacement is zero, not elided.
    let bytes = [0x8B, 0x44, 0x00];
    let instruction = decode_instruction(&bytes).unwrap();
    assert_eq!(
        instruction.instruction_category,
        InstructionCategory::RegisterMemoryAndRegister(
            Mnemonic::MOV,
            RegisterMemory::RegisterAddressDisplacement(RegisterName::SI, 0),
            RegisterMemory::Register(RegisterName::AX),
        )
    );
}

#[test]
fn immediate_to_accumulator() {
    let bytes = [0x05, 0xE8, 0x03];
    let instruction = decode_instruction(&bytes).unwrap();
    assert_eq!(instruction.length, 3);
    assert_eq!(
        instruction.instruction_category,
        InstructionCategory::ImmediateToAccumulator(Mnemonic::ADD, 1000, RegisterName::AX)
    );
    let sub = decode_instruction(&[0x2C, 0x07]).unwrap();
    assert_eq!(sub.length, 2);
    assert_eq!(
        sub.instruction_category,
        InstructionCategory::ImmediateToAccumulator(Mnemonic::SUB, 7, RegisterName::AL)
    );
}

#[test]
fn jump_decodes_signed_increment() {
    let instruction = decode_instruction(&[0x75, 0xFB]).unwrap();
    assert_eq!(instruction.length, 2);
    assert_eq!(
        instruction.instruction_category,
        InstructionCategory::Jump(Mnemonic::JNZ, -5)
    );
    let loop_instruction = decode_instruction(&[0xE2, 0x10]).unwrap();
    assert_eq!(
        loop_instruction.instruction_category,
        InstructionCategory::Jump(Mnemonic::LOOP, 16)
    );
    let jcxz = decode_instruction(&[0xE3, 0x00]).unwrap();
    assert_eq!(
        jcxz.instruction_category,
        InstructionCategory::Jump(Mnemonic::JCXZ, 0)
    );
}

#[test]
fn unrecognised_opcode() {
    assert_eq!(
        decode_instruction(&[0x0F, 0x00]),
        Err(DecodeError::InvalidInstruction)
    );
}

#[test]
fn invalid_immediate_group_member() {
    // Bits 3 to 5 of the mode byte select 1, which is none of ADD/SUB/CMP.
    assert_eq!(
        decode_instruction(&[0x80, 0x08, 0x01]),
        Err(DecodeError::InvalidImmediateToRegisterInstruction)
    );
}

#[test]
fn truncated_input() {
    assert_eq!(decode_instruction(&[]), Err(DecodeError::TruncatedInstruction));
    assert_eq!(decode_instruction(&[0x89]), Err(DecodeError::TruncatedInstruction));
    // Word immediate needs three bytes.
    assert_eq!(
        decode_instruction(&[0xB8, 0x01]),
        Err(DecodeError::TruncatedInstruction)
    );
    // Direct address needs its displacement.
    assert_eq!(
        decode_instruction(&[0x8B, 0x16, 0x10]),
        Err(DecodeError::TruncatedInstruction)
    );
}

#[test]
fn defensive_errors() {
    assert_eq!(decode_mod(4), Err(DecodeError::InvalidMode));
    assert_eq!(decode_register(8, true), Err(DecodeError::InvalidRegister));
    assert_eq!(decode_mod(3), Ok(Mode::RegisterMode));
    assert_eq!(decode_register(3, false), Ok(RegisterName::BL));
}

#[test]
fn lengths_walk_a_stream() {
    // Three instructions back to back: each decode consumes exactly its
    // reported length, so walking by length visits every boundary.
    let stream = [0xB8, 0x01, 0x00, 0x89, 0xD8, 0x75, 0xFE];
    let mut offset = 0;
    let mut seen: Vec<Instruction> = Vec::new();
    while offset < stream.len() {
        let instruction = decode_instruction(&stream[offset..]).unwrap();
        offset += instruction.length;
        seen.push(instruction);
    }
    assert_eq!(offset, stream.len());
    assert_eq!(seen.len(), 3);
    assert_eq!(seen[0].length, 3);
    assert_eq!(seen[1].length, 2);
    assert_eq!(seen[2].length, 2);
}
