use chip8_emulator::emulator::Emulator;
use chip8_emulator::instruction::Instruction;

#[test]
fn should_execute_clear_display() {
    // Given
    let mut emulator = Emulator::new();
    emulator.active_pixels.extend([(1, 1), (10, 15), (21, 30)]);

    // When
    emulator.execute(Instruction::ClearDisplay);

    // Then
    assert_eq!(emulator.active_pixels.len(), 0);
}

#[test]
fn should_execute_jump() {
    // Given
    let mut emulator = Emulator::new();

    // When
    emulator.execute(Instruction::Jump { address: 0x123 });

    // Then
    assert_eq!(emulator.cpu.program_counter, 0x123);
}

#[test]
fn should_execute_call() {
    // Given
    let mut emulator = Emulator::new();
    let pc = emulator.cpu.program_counter;

    // When
    emulator.execute(Instruction::Call { address: 0x123 });

    // Then
    assert_eq!(emulator.cpu.program_counter, 0x123);
    assert_eq!(emulator.cpu.stack_index, 0);
    assert_eq!(emulator.cpu.stack[emulator.cpu.stack_index as usize], pc + 2);
}

#[test]
fn should_execute_return() {
    // Given
    let mut emulator = Emulator::new();
    emulator.cpu.stack[0] = 0x123;
    emulator.cpu.stack_index = 0;

    // When
    emulator.execute(Instruction::Return);

    // Then
    assert_eq!(emulator.cpu.program_counter, 0x123);
    assert_eq!(emulator.cpu.stack_index, -1);
}

#[test]
fn should_execute_skip_if_req_eq_constant() {
    {
        // Given
        let mut emulator = Emulator::new();
        let pc = emulator.cpu.program_counter;

        // When
        emulator.cpu.registers[0x3] = 0x7d;
        emulator.execute(Instruction::SkipIfRegEqConstant { register: 0x3, constant: 0x7d });

        // Then
        assert_eq!(emulator.cpu.program_counter, pc + 4);
    }

    {
        // Given
        let mut emulator = Emulator::new();
        let pc = emulator.cpu.program_counter;

        // When
        emulator.cpu.registers[0x3] = 0x6c;
        emulator.execute(Instruction::SkipIfRegEqConstant { register: 0x3, constant: 0x7d });

        // Then
        assert_eq!(emulator.cpu.program_counter, pc + 2);
    }
}

#[test]
fn should_execute_skip_if_req_not_eq_constant() {
    {
        // Given
        let mut emulator = Emulator::new();
        let pc = emulator.cpu.program_counter;

        // When
        emulator.cpu.registers[0x3] = 0x7d;
        emulator.execute(Instruction::SkipIfRegNotEqConstant { register: 0x3, constant: 0x7d });

        // Then
        assert_eq!(emulator.cpu.program_counter, pc + 2);
    }

    {
        // Given
        let mut emulator = Emulator::new();
        let pc = emulator.cpu.program_counter;

        // When
        emulator.cpu.registers[0x3] = 0x6c;
        emulator.execute(Instruction::SkipIfRegNotEqConstant { register: 0x3, constant: 0x7d });

        // Then
        assert_eq!(emulator.cpu.program_counter, pc + 4);
    }
}

#[test]
fn should_execute_skip_if_req_eq_req() {
    {
        // Given
        let mut emulator = Emulator::new();
        let pc = emulator.cpu.program_counter;

        // When
        emulator.cpu.registers[0x3] = 0x42;
        emulator.cpu.registers[0x5] = 0x42;
        emulator.execute(Instruction::SkipIfRegEqReg { register_lhs: 0x3, register_rhs: 0x5 });

        // Then
        assert_eq!(emulator.cpu.program_counter, pc + 4);
    }

    {
        // Given
        let mut emulator = Emulator::new();
        let pc = emulator.cpu.program_counter;

        // When
        emulator.cpu.registers[0x3] = 0x42;
        emulator.cpu.registers[0x5] = 0x71;
        emulator.execute(Instruction::SkipIfRegEqReg { register_lhs: 0x3, register_rhs: 0x5 });

        // Then
        assert_eq!(emulator.cpu.program_counter, pc + 2);
    }
}

#[test]
fn should_execute_skip_if_key_pressed() {
    {
        // Given
        let mut emulator = Emulator::new();
        let pc = emulator.cpu.program_counter;

        // When
        emulator.input[0xA] = true;
        emulator.cpu.registers[0x3] = 0xA;
        emulator.execute(Instruction::SkipIfKeyPressed { register: 0x3 });

        // Then
        assert_eq!(emulator.cpu.program_counter, pc + 4);
    }

    {
        // Given
        let mut emulator = Emulator::new();
        let pc = emulator.cpu.program_counter;

        // When
        emulator.input[0xA] = false;
        emulator.cpu.registers[0x3] = 0xA;
        emulator.execute(Instruction::SkipIfKeyPressed { register: 0x3 });

        // Then
        assert_eq!(emulator.cpu.program_counter, pc + 2);
    }
}

#[test]
fn should_execute_skip_if_not_key_pressed() {
    {
        // Given
        let mut emulator = Emulator::new();
        let pc = emulator.cpu.program_counter;

        // When
        emulator.input[0xA] = true;
        emulator.cpu.registers[0x3] = 0xA;
        emulator.execute(Instruction::SkipIfKeyNotPressed { register: 0x3 });

        // Then
        assert_eq!(emulator.cpu.program_counter, pc + 2);
    }

    {
        // Given
        let mut emulator = Emulator::new();
        let pc = emulator.cpu.program_counter;

        // When
        emulator.input[0xA] = false;
        emulator.cpu.registers[0x3] = 0xA;
        emulator.execute(Instruction::SkipIfKeyNotPressed { register: 0x3 });

        // Then
        assert_eq!(emulator.cpu.program_counter, pc + 4);
    }
}

#[test]
fn should_set_carry_on_overflowing_add() {
    let mut emulator = Emulator::new();
    emulator.cpu.registers[0x1] = 0xFF;
    emulator.cpu.registers[0x2] = 0x01;
    emulator.execute(Instruction::AddRegToReg { register_lhs: 0x1, register_rhs: 0x2 });
    assert_eq!(emulator.cpu.registers[0x1], 0x00);
    assert_eq!(emulator.cpu.registers[0xF], 1);

    let mut emulator = Emulator::new();
    emulator.cpu.registers[0x1] = 0x01;
    emulator.cpu.registers[0x2] = 0x01;
    emulator.execute(Instruction::AddRegToReg { register_lhs: 0x1, register_rhs: 0x2 });
    assert_eq!(emulator.cpu.registers[0x1], 0x02);
    assert_eq!(emulator.cpu.registers[0xF], 0);
}

#[test]
fn should_set_no_borrow_flag_on_subtract() {
    let mut emulator = Emulator::new();
    emulator.cpu.registers[0x1] = 0x65;
    emulator.cpu.registers[0x2] = 0x42;
    emulator.execute(Instruction::SubReg2FromReg1 { register_lhs: 0x1, register_rhs: 0x2 });
    assert_eq!(emulator.cpu.registers[0x1], 0x23);
    assert_eq!(emulator.cpu.registers[0xF], 1);

    let mut emulator = Emulator::new();
    emulator.cpu.registers[0x1] = 0x00;
    emulator.cpu.registers[0x2] = 0x04;
    emulator.execute(Instruction::SubReg2FromReg1 { register_lhs: 0x1, register_rhs: 0x2 });
    assert_eq!(emulator.cpu.registers[0x1], 0xFC);
    assert_eq!(emulator.cpu.registers[0xF], 0);
}

#[test]
fn should_shift_right_into_flag() {
    let mut emulator = Emulator::new();
    emulator.cpu.registers[0x4] = 0x05;
    emulator.execute(Instruction::BitwiseShrBy1 { register: 0x4 });
    assert_eq!(emulator.cpu.registers[0x4], 0x02);
    assert_eq!(emulator.cpu.registers[0xF], 1);
}

#[test]
fn should_shift_left_into_flag() {
    let mut emulator = Emulator::new();
    emulator.cpu.registers[0x4] = 0x81;
    emulator.execute(Instruction::BitwiseShlBy1 { register: 0x4 });
    assert_eq!(emulator.cpu.registers[0x4], 0x02);
    assert_eq!(emulator.cpu.registers[0xF], 1);
}

#[test]
fn should_draw_sprite_with_xor_collision() {
    // Drawing the same sprite twice at the same coordinates restores the
    // framebuffer and reports the collision on the second draw.
    let mut emulator = Emulator::new();
    emulator.memory[0x300] = 0b1010_0000;
    emulator.cpu.register_i = 0x300;
    emulator.cpu.registers[0x0] = 12;
    emulator.cpu.registers[0x1] = 7;

    emulator.execute(Instruction::DisplaySprite { register_x: 0x0, register_y: 0x1, n_bytes: 1 });
    assert_eq!(emulator.cpu.registers[0xF], 0);
    assert_eq!(emulator.active_pixels.len(), 2);
    assert!(emulator.active_pixels.contains(&(12, 7)));
    assert!(emulator.active_pixels.contains(&(14, 7)));

    emulator.execute(Instruction::DisplaySprite { register_x: 0x0, register_y: 0x1, n_bytes: 1 });
    assert_eq!(emulator.cpu.registers[0xF], 1);
    assert_eq!(emulator.active_pixels.len(), 0);
}

#[test]
fn should_clip_sprite_at_right_edge() {
    // Origin (61, 10) with row 0b11110000 lights only the pixels with
    // x < 64: the row is clipped, not wrapped.
    let mut emulator = Emulator::new();
    emulator.memory[0x300] = 0b1111_0000;
    emulator.cpu.register_i = 0x300;
    emulator.cpu.registers[0x0] = 61;
    emulator.cpu.registers[0x1] = 10;

    emulator.execute(Instruction::DisplaySprite { register_x: 0x0, register_y: 0x1, n_bytes: 1 });

    assert_eq!(emulator.active_pixels.len(), 3);
    assert!(emulator.active_pixels.contains(&(61, 10)));
    assert!(emulator.active_pixels.contains(&(62, 10)));
    assert!(emulator.active_pixels.contains(&(63, 10)));
    assert!(!emulator.active_pixels.contains(&(0, 10)));
}

#[test]
fn should_wrap_sprite_origin_once() {
    // Register values past the screen size reduce modulo 64 and 32 before
    // drawing: origin (3 * 64 + 5, 2 * 32 + 10) behaves exactly like (5, 10).
    let mut emulator = Emulator::new();
    emulator.memory[0x300] = 0b1111_0000;
    emulator.cpu.register_i = 0x300;
    emulator.cpu.registers[0x0] = 3 * 64 + 5;
    emulator.cpu.registers[0x1] = 2 * 32 + 10;

    emulator.execute(Instruction::DisplaySprite { register_x: 0x0, register_y: 0x1, n_bytes: 1 });

    assert_eq!(emulator.active_pixels.len(), 4);
    assert!(emulator.active_pixels.contains(&(5, 10)));
    assert!(emulator.active_pixels.contains(&(6, 10)));
    assert!(emulator.active_pixels.contains(&(7, 10)));
    assert!(emulator.active_pixels.contains(&(8, 10)));
}

#[test]
fn should_block_on_await_key_until_pressed() {
    let mut emulator = Emulator::new();
    let pc = emulator.cpu.program_counter;

    emulator.execute(Instruction::AwaitAndSetKeyPress { register: 0x2 });
    assert_eq!(emulator.cpu.program_counter, pc);
    emulator.execute(Instruction::AwaitAndSetKeyPress { register: 0x2 });
    assert_eq!(emulator.cpu.program_counter, pc);

    emulator.input[0xB] = true;
    emulator.execute(Instruction::AwaitAndSetKeyPress { register: 0x2 });
    assert_eq!(emulator.cpu.program_counter, pc + 2);
    assert_eq!(emulator.cpu.registers[0x2], 0xB);
}

#[test]
fn should_pick_smallest_pressed_key_on_await() {
    let mut emulator = Emulator::new();
    emulator.input[0x9] = true;
    emulator.input[0x4] = true;
    emulator.execute(Instruction::AwaitAndSetKeyPress { register: 0x0 });
    assert_eq!(emulator.cpu.registers[0x0], 0x4);
}

#[test]
fn should_store_bcd_digits() {
    let mut emulator = Emulator::new();
    emulator.cpu.registers[0x6] = 234;
    emulator.cpu.register_i = 0x300;
    emulator.execute(Instruction::StoreRegBcd { register: 0x6 });
    assert_eq!(emulator.memory[0x300], 2);
    assert_eq!(emulator.memory[0x301], 3);
    assert_eq!(emulator.memory[0x302], 4);
}

#[test]
fn should_wrap_bcd_addresses_at_memory_end() {
    // The documented policy for out-of-range addressing: addresses reduce
    // modulo the 4096-byte memory size instead of halting the engine.
    let mut emulator = Emulator::new();
    emulator.cpu.registers[0x6] = 109;
    emulator.cpu.register_i = 4095;
    emulator.execute(Instruction::StoreRegBcd { register: 0x6 });
    assert_eq!(emulator.memory[4095], 1);
    assert_eq!(emulator.memory[0], 0);
    assert_eq!(emulator.memory[1], 9);
}

#[test]
fn should_save_and_load_registers() {
    let mut emulator = Emulator::new();
    for r in 0..4 {
        emulator.cpu.registers[r] = 10 + r as u8;
    }
    emulator.cpu.register_i = 0x320;
    emulator.execute(Instruction::SaveRegisters { last_register: 0x3 });
    assert_eq!(emulator.memory[0x320], 10);
    assert_eq!(emulator.memory[0x321], 11);
    assert_eq!(emulator.memory[0x322], 12);
    assert_eq!(emulator.memory[0x323], 13);
    assert_eq!(emulator.memory[0x324], 0);
    assert_eq!(emulator.cpu.register_i, 0x320);

    let mut emulator = Emulator::new();
    emulator.memory[0x320] = 42;
    emulator.memory[0x321] = 43;
    emulator.cpu.register_i = 0x320;
    emulator.cpu.registers[0x2] = 99;
    emulator.execute(Instruction::LoadRegisters { last_register: 0x1 });
    assert_eq!(emulator.cpu.registers[0x0], 42);
    assert_eq!(emulator.cpu.registers[0x1], 43);
    assert_eq!(emulator.cpu.registers[0x2], 99);
}

#[test]
fn should_point_index_at_font_sprite() {
    let mut emulator = Emulator::new();
    emulator.cpu.registers[0x3] = 0xF;
    emulator.execute(Instruction::AssignFontSpriteToAddress { register: 0x3 });
    assert_eq!(emulator.cpu.register_i, 0x96);
    // The glyph's five rows sit at the even offsets from there.
    assert_eq!(emulator.memory[0x96], 0xF0);
    assert_eq!(emulator.memory[0x98], 0x80);
    assert_eq!(emulator.memory[0x9A], 0xF0);
    assert_eq!(emulator.memory[0x9C], 0x80);
    assert_eq!(emulator.memory[0x9E], 0x80);
    assert_eq!(emulator.memory[0x97], 0x00);
}

#[test]
fn should_mask_random_byte_with_constant() {
    let mut emulator = Emulator::new();
    for _ in 0..32 {
        emulator.execute(Instruction::BitwiseAndWithRand { register: 0x1, constant: 0x0F });
        assert_eq!(emulator.cpu.registers[0x1] & 0xF0, 0);
    }
}

#[test]
fn should_treat_unknown_opcode_as_no_op() {
    let mut emulator = Emulator::new();
    let pc = emulator.cpu.program_counter;
    emulator.execute(Instruction::Unknown { opcode: 0x5AB1 });
    assert_eq!(emulator.cpu.program_counter, pc + 2);
    assert_eq!(emulator.cpu.stack_index, -1);
    assert_eq!(emulator.cpu.register_i, 0);
    assert_eq!(emulator.active_pixels.len(), 0);
}

#[test]
fn should_ignore_return_on_empty_stack() {
    // The documented policy for a `Return` with nothing on the stack: the
    // instruction is a no-op beyond the usual program counter advance.
    let mut emulator = Emulator::new();
    let pc = emulator.cpu.program_counter;
    emulator.execute(Instruction::Return);
    assert_eq!(emulator.cpu.program_counter, pc + 2);
    assert_eq!(emulator.cpu.stack_index, -1);
}

#[test]
fn should_ignore_call_on_full_stack() {
    // The documented policy for a 17th nested `Call`: with all 16 stack
    // slots taken the call neither pushes nor jumps.
    let mut emulator = Emulator::new();
    emulator.cpu.stack_index = 15;
    let pc = emulator.cpu.program_counter;
    emulator.execute(Instruction::Call { address: 0x123 });
    assert_eq!(emulator.cpu.program_counter, pc + 2);
    assert_eq!(emulator.cpu.stack_index, 15);
}

#[test]
fn should_wrap_key_numbers_above_fifteen() {
    // The documented policy for key numbers past the keypad: reduce modulo
    // 16 rather than halt.
    let mut emulator = Emulator::new();
    let pc = emulator.cpu.program_counter;
    emulator.input[0x2] = true;
    emulator.cpu.registers[0x3] = 0x12;
    emulator.execute(Instruction::SkipIfKeyPressed { register: 0x3 });
    assert_eq!(emulator.cpu.program_counter, pc + 4);
}
