use chip8_emulator::instruction::Instruction;

#[test]
fn should_convert_from_instruction_to_opcode() {
    assert_eq!(Instruction::ClearDisplay.to_opcode(), 0x00E0);
    assert_eq!(Instruction::Return.to_opcode(), 0x00EE);
    assert_eq!(Instruction::Jump { address: 0x04F1 }.to_opcode(), 0x14F1);
    assert_eq!(Instruction::Call { address: 0x07AB }.to_opcode(), 0x27AB);
    assert_eq!(
        Instruction::SkipIfRegEqConstant { register: 0xA, constant: 0xC3 }.to_opcode(),
        0x3AC3
    );
    assert_eq!(
        Instruction::SkipIfRegNotEqConstant { register: 1, constant: 0x23 }.to_opcode(),
        0x4123
    );
    assert_eq!(
        Instruction::SkipIfRegEqReg { register_lhs: 0xA, register_rhs: 0xD }.to_opcode(),
        0x5AD0
    );
    assert_eq!(
        Instruction::AssignConstToReg { register: 7, constant: 0xAF }.to_opcode(),
        0x67AF
    );
    assert_eq!(
        Instruction::AddConstToReg { register: 0xC, constant: 0x42 }.to_opcode(),
        0x7C42
    );
    assert_eq!(
        Instruction::AssignRegToReg { register_lhs: 0x9, register_rhs: 0x3 }.to_opcode(),
        0x8930
    );
    assert_eq!(
        Instruction::BitwiseOr { register_lhs: 0x5, register_rhs: 0xF }.to_opcode(),
        0x85F1
    );
    assert_eq!(
        Instruction::BitwiseAnd { register_lhs: 0x5, register_rhs: 0xF }.to_opcode(),
        0x85F2
    );
    assert_eq!(
        Instruction::BitwiseXor { register_lhs: 0x5, register_rhs: 0xF }.to_opcode(),
        0x85F3
    );
    assert_eq!(
        Instruction::AddRegToReg { register_lhs: 0x6, register_rhs: 0x0 }.to_opcode(),
        0x8604
    );
    assert_eq!(
        Instruction::SubReg2FromReg1 { register_lhs: 0xA, register_rhs: 0xB }.to_opcode(),
        0x8AB5
    );

    // The shift instructions leave the third nibble (the unused y register)
    // zero.
    assert_eq!(Instruction::BitwiseShrBy1 { register: 0x9 }.to_opcode(), 0x8906);

    assert_eq!(
        Instruction::SubReg1FromReg2 { register_lhs: 0xA, register_rhs: 0xB }.to_opcode(),
        0x8AB7
    );

    assert_eq!(Instruction::BitwiseShlBy1 { register: 0x9 }.to_opcode(), 0x890E);

    assert_eq!(
        Instruction::CondRegNotEqReg { register_lhs: 0xA, register_rhs: 0xB }.to_opcode(),
        0x9AB0
    );
    assert_eq!(Instruction::SetAddress { address: 0x123 }.to_opcode(), 0xA123);
    assert_eq!(Instruction::JumpWithV0Offset { address: 0x123 }.to_opcode(), 0xB123);
    assert_eq!(
        Instruction::BitwiseAndWithRand { register: 0xA, constant: 0xB4 }.to_opcode(),
        0xCAB4
    );
    assert_eq!(
        Instruction::DisplaySprite { register_x: 0xA, register_y: 0xB, n_bytes: 9 }.to_opcode(),
        0xDAB9
    );
    assert_eq!(Instruction::SkipIfKeyPressed { register: 0x5 }.to_opcode(), 0xE59E);
    assert_eq!(Instruction::SkipIfKeyNotPressed { register: 0x5 }.to_opcode(), 0xE5A1);
    assert_eq!(Instruction::AssignDelayTimerToReg { register: 0x5 }.to_opcode(), 0xF507);
    assert_eq!(Instruction::AwaitAndSetKeyPress { register: 0x5 }.to_opcode(), 0xF50A);
    assert_eq!(Instruction::SetDelayTimer { register: 0x3 }.to_opcode(), 0xF315);
    assert_eq!(Instruction::SetSoundTimer { register: 0x3 }.to_opcode(), 0xF318);
    assert_eq!(Instruction::AddRegToAddressWithoutCarry { register: 0x5 }.to_opcode(), 0xF51E);
    assert_eq!(Instruction::AssignFontSpriteToAddress { register: 0x5 }.to_opcode(), 0xF529);
    assert_eq!(Instruction::StoreRegBcd { register: 0x7 }.to_opcode(), 0xF733);
    assert_eq!(Instruction::SaveRegisters { last_register: 0x7 }.to_opcode(), 0xF755);
    assert_eq!(Instruction::LoadRegisters { last_register: 0x7 }.to_opcode(), 0xF765);
}

#[test]
fn should_decode_documented_opcodes() {
    assert_eq!(Instruction::decode(0x00E0), Instruction::ClearDisplay);
    assert_eq!(Instruction::decode(0x00EE), Instruction::Return);
    assert_eq!(Instruction::decode(0x14F1), Instruction::Jump { address: 0x4F1 });
    assert_eq!(Instruction::decode(0x27AB), Instruction::Call { address: 0x7AB });
    assert_eq!(
        Instruction::decode(0x3AC3),
        Instruction::SkipIfRegEqConstant { register: 0xA, constant: 0xC3 }
    );
    assert_eq!(
        Instruction::decode(0x8AB5),
        Instruction::SubReg2FromReg1 { register_lhs: 0xA, register_rhs: 0xB }
    );
    assert_eq!(Instruction::decode(0x8906), Instruction::BitwiseShrBy1 { register: 0x9 });
    assert_eq!(
        Instruction::decode(0xDAB9),
        Instruction::DisplaySprite { register_x: 0xA, register_y: 0xB, n_bytes: 9 }
    );
    assert_eq!(Instruction::decode(0xE59E), Instruction::SkipIfKeyPressed { register: 0x5 });
    assert_eq!(Instruction::decode(0xF765), Instruction::LoadRegisters { last_register: 0x7 });
}

#[test]
fn should_round_trip_every_family_through_encode_and_decode() {
    let samples = vec![
        Instruction::ClearDisplay,
        Instruction::Return,
        Instruction::Jump { address: 0xFFF },
        Instruction::Call { address: 0x000 },
        Instruction::SkipIfRegEqConstant { register: 0xF, constant: 0xFF },
        Instruction::SkipIfRegNotEqConstant { register: 0x0, constant: 0x00 },
        Instruction::SkipIfRegEqReg { register_lhs: 0x1, register_rhs: 0xE },
        Instruction::AssignConstToReg { register: 0x2, constant: 0x7F },
        Instruction::AddConstToReg { register: 0x3, constant: 0x80 },
        Instruction::AssignRegToReg { register_lhs: 0x4, register_rhs: 0xB },
        Instruction::BitwiseOr { register_lhs: 0x5, register_rhs: 0xA },
        Instruction::BitwiseAnd { register_lhs: 0x6, register_rhs: 0x9 },
        Instruction::BitwiseXor { register_lhs: 0x7, register_rhs: 0x8 },
        Instruction::AddRegToReg { register_lhs: 0x8, register_rhs: 0x7 },
        Instruction::SubReg2FromReg1 { register_lhs: 0x9, register_rhs: 0x6 },
        Instruction::BitwiseShrBy1 { register: 0xA },
        Instruction::SubReg1FromReg2 { register_lhs: 0xB, register_rhs: 0x5 },
        Instruction::BitwiseShlBy1 { register: 0xC },
        Instruction::CondRegNotEqReg { register_lhs: 0xD, register_rhs: 0x4 },
        Instruction::SetAddress { address: 0xABC },
        Instruction::JumpWithV0Offset { address: 0x123 },
        Instruction::BitwiseAndWithRand { register: 0xE, constant: 0x55 },
        Instruction::DisplaySprite { register_x: 0xF, register_y: 0x0, n_bytes: 0xF },
        Instruction::SkipIfKeyPressed { register: 0x1 },
        Instruction::SkipIfKeyNotPressed { register: 0x2 },
        Instruction::AssignDelayTimerToReg { register: 0x3 },
        Instruction::AwaitAndSetKeyPress { register: 0x4 },
        Instruction::SetDelayTimer { register: 0x5 },
        Instruction::SetSoundTimer { register: 0x6 },
        Instruction::AddRegToAddressWithoutCarry { register: 0x7 },
        Instruction::AssignFontSpriteToAddress { register: 0x8 },
        Instruction::StoreRegBcd { register: 0x9 },
        Instruction::SaveRegisters { last_register: 0xA },
        Instruction::LoadRegisters { last_register: 0xB },
    ];
    for instruction in samples {
        assert_eq!(Instruction::decode(instruction.to_opcode()), instruction);
    }
}

#[test]
fn should_decode_unmatched_patterns_to_unknown() {
    assert_eq!(Instruction::decode(0x0000), Instruction::Unknown { opcode: 0x0000 });
    assert_eq!(Instruction::decode(0x5AB1), Instruction::Unknown { opcode: 0x5AB1 });
    assert_eq!(Instruction::decode(0x8AB8), Instruction::Unknown { opcode: 0x8AB8 });
    assert_eq!(Instruction::decode(0x9001), Instruction::Unknown { opcode: 0x9001 });
    assert_eq!(Instruction::decode(0xE5FF), Instruction::Unknown { opcode: 0xE5FF });
    assert_eq!(Instruction::decode(0xF5FF), Instruction::Unknown { opcode: 0xF5FF });
}
