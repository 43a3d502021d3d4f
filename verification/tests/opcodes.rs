use chip8::Chip8;
use chip8::Chip8Error;

#[test]
fn add_with_carry_concrete_values() {
    // 200 + 100 = 300: Vx gets 44, VF reports the carry
    let mut chip = Chip8::new();
    chip.v_reg[0] = 200;
    chip.v_reg[1] = 100;
    chip.execute(0x8014).unwrap();
    assert_eq!(chip.v_reg[0], 44);
    assert_eq!(chip.v_reg[0xF], 1);
    // 1 + 2 = 3: no carry
    chip.v_reg[2] = 1;
    chip.v_reg[3] = 2;
    chip.execute(0x8234).unwrap();
    assert_eq!(chip.v_reg[2], 3);
    assert_eq!(chip.v_reg[0xF], 0);
}

#[test]
fn sub_with_borrow_concrete_values() {
    // 5 - 10 wraps to 251, VF = 0 marks the borrow
    let mut chip = Chip8::new();
    chip.v_reg[0] = 5;
    chip.v_reg[1] = 10;
    chip.execute(0x8015).unwrap();
    assert_eq!(chip.v_reg[0], 251);
    assert_eq!(chip.v_reg[0xF], 0);
    // 10 - 5 = 5, VF = 1 marks no borrow
    chip.v_reg[2] = 10;
    chip.v_reg[3] = 5;
    chip.execute(0x8235).unwrap();
    assert_eq!(chip.v_reg[2], 5);
    assert_eq!(chip.v_reg[0xF], 1);
}

#[test]
fn sub_reversed_concrete_values() {
    // V2 = V3 - V2
    let mut chip = Chip8::new();
    chip.v_reg[2] = 3;
    chip.v_reg[3] = 7;
    chip.execute(0x8237).unwrap();
    assert_eq!(chip.v_reg[2], 4);
    assert_eq!(chip.v_reg[0xF], 1);
    chip.v_reg[4] = 7;
    chip.v_reg[5] = 3;
    chip.execute(0x8457).unwrap();
    assert_eq!(chip.v_reg[4], 252);
    assert_eq!(chip.v_reg[0xF], 0);
}

#[test]
fn moves_and_bitwise_ops() {
    let mut chip = Chip8::new();
    chip.execute(0x60AA).unwrap(); // V0 = 0xAA
    assert_eq!(chip.v_reg[0], 0xAA);
    chip.execute(0x610F).unwrap(); // V1 = 0x0F
    chip.execute(0x8201).unwrap(); // V2 |= V0 -> 0xAA
    assert_eq!(chip.v_reg[2], 0xAA);
    chip.execute(0x8210).unwrap(); // V2 = V1 = 0x0F
    assert_eq!(chip.v_reg[2], 0x0F);
    chip.execute(0x8202).unwrap(); // V2 &= V0 -> 0x0A
    assert_eq!(chip.v_reg[2], 0x0A);
    chip.execute(0x8203).unwrap(); // V2 ^= V0 -> 0xA0
    assert_eq!(chip.v_reg[2], 0xA0);
}

#[test]
fn add_immediate_wraps_without_flag() {
    let mut chip = Chip8::new();
    chip.v_reg[0] = 0xFF;
    chip.v_reg[0xF] = 7;
    chip.execute(0x7002).unwrap();
    assert_eq!(chip.v_reg[0], 1);
    // 0x7xkk 's wrap leaves the flag register alone
    assert_eq!(chip.v_reg[0xF], 7);
}

#[test]
fn shifts_report_the_shifted_out_bit() {
    let mut chip = Chip8::new();
    chip.v_reg[0] = 5;
    chip.execute(0x8006).unwrap(); // V0 >>= 1
    assert_eq!(chip.v_reg[0], 2);
    assert_eq!(chip.v_reg[0xF], 1);
    chip.v_reg[1] = 0x81;
    chip.execute(0x810E).unwrap(); // V1 <<= 1
    assert_eq!(chip.v_reg[1], 2);
    assert_eq!(chip.v_reg[0xF], 1);
    chip.v_reg[2] = 0x40;
    chip.execute(0x820E).unwrap();
    assert_eq!(chip.v_reg[2], 0x80);
    assert_eq!(chip.v_reg[0xF], 0);
}

#[test]
fn jumps_and_skips_move_the_program_counter() {
    let mut chip = Chip8::new();
    chip.execute(0x1300).unwrap();
    assert_eq!(chip.program_counter, 0x300);
    chip.v_reg[0] = 5;
    chip.execute(0x3005).unwrap(); // V0 == 5: skip
    assert_eq!(chip.program_counter, 0x302);
    chip.execute(0x3006).unwrap(); // V0 != 6: no skip
    assert_eq!(chip.program_counter, 0x302);
    chip.execute(0x4006).unwrap(); // V0 != 6: skip
    assert_eq!(chip.program_counter, 0x304);
    chip.v_reg[1] = 5;
    chip.execute(0x5010).unwrap(); // V0 == V1: skip
    assert_eq!(chip.program_counter, 0x306);
    chip.execute(0x9010).unwrap(); // V0 == V1: no skip
    assert_eq!(chip.program_counter, 0x306);
    chip.v_reg[1] = 9;
    chip.execute(0x9010).unwrap(); // V0 != V1: skip
    assert_eq!(chip.program_counter, 0x308);
    chip.v_reg[0] = 4;
    chip.execute(0xB300).unwrap(); // jump to 0x300 + V0
    assert_eq!(chip.program_counter, 0x304);
}

#[test]
fn set_i_and_add_to_i() {
    let mut chip = Chip8::new();
    chip.execute(0xA123).unwrap();
    assert_eq!(chip.i_reg, 0x123);
    chip.v_reg[4] = 0x10;
    chip.execute(0xF41E).unwrap();
    assert_eq!(chip.i_reg, 0x133);
    // I + Vx wraps at 16 bits
    chip.i_reg = 0xFFFF;
    chip.v_reg[4] = 3;
    chip.execute(0xF41E).unwrap();
    assert_eq!(chip.i_reg, 2);
}

#[test]
fn font_glyph_base_is_five_bytes_per_digit() {
    let mut chip = Chip8::new();
    chip.v_reg[7] = 0xA;
    chip.execute(0xF729).unwrap();
    assert_eq!(chip.i_reg, 50);
}

#[test]
fn decimal_digits_are_stored_at_i() {
    let mut chip = Chip8::new();
    chip.v_reg[2] = 254;
    chip.i_reg = 0x500;
    chip.execute(0xF233).unwrap();
    assert_eq!(chip.memory[0x500], 2);
    assert_eq!(chip.memory[0x501], 5);
    assert_eq!(chip.memory[0x502], 4);
    chip.v_reg[2] = 7;
    chip.execute(0xF233).unwrap();
    assert_eq!(chip.memory[0x500], 0);
    assert_eq!(chip.memory[0x501], 0);
    assert_eq!(chip.memory[0x502], 7);
}

#[test]
fn delay_timer_reads_back_through_fx07() {
    let mut chip = Chip8::new();
    chip.delay_timer = 42;
    chip.execute(0xF607).unwrap();
    assert_eq!(chip.v_reg[6], 42);
}

#[test]
fn sound_timer_is_set_through_fx18() {
    let mut chip = Chip8::new();
    chip.v_reg[1] = 9;
    chip.execute(0xF118).unwrap();
    assert_eq!(chip.sound_timer, 9);
}

#[test]
fn store_then_load_registers_round_trip() {
    let mut chip = Chip8::new();
    for r in 0..4u8 {
        chip.v_reg[r as usize] = 10 + r;
    }
    chip.i_reg = 0x300;
    chip.execute(0xF355).unwrap(); // store V0..V3
    assert_eq!(chip.memory[0x300], 10);
    assert_eq!(chip.memory[0x303], 13);
    for r in 0..4usize {
        chip.v_reg[r] = 0xEE;
    }
    chip.execute(0xF365).unwrap(); // load V0..V3
    assert_eq!(chip.v_reg[0], 10);
    assert_eq!(chip.v_reg[1], 11);
    assert_eq!(chip.v_reg[2], 12);
    assert_eq!(chip.v_reg[3], 13);
}

#[test]
fn key_skips_consult_the_latch() {
    let mut chip = Chip8::new();
    chip.v_reg[0] = 0xB;
    chip.execute(0xE09E).unwrap(); // key B not pressed: no skip
    assert_eq!(chip.program_counter, 0x200);
    chip.execute(0xE0A1).unwrap(); // not pressed: skip
    assert_eq!(chip.program_counter, 0x202);
    chip.keypress(0xB, true);
    chip.execute(0xE09E).unwrap(); // pressed: skip
    assert_eq!(chip.program_counter, 0x204);
    chip.execute(0xE0A1).unwrap(); // pressed: no skip
    assert_eq!(chip.program_counter, 0x204);
}

#[test]
fn wait_for_key_rewinds_until_a_key_arrives() {
    let mut chip = Chip8::new();
    let rom = vec![0xF5u8, 0x0A];
    chip.load_rom(&rom).unwrap();
    chip.cicle().unwrap();
    // no key: the program counter is back on the same instruction
    assert_eq!(chip.program_counter, 0x200);
    chip.keypress(0x9, true);
    chip.cicle().unwrap();
    assert_eq!(chip.v_reg[5], 9);
    assert_eq!(chip.program_counter, 0x202);
}

#[test]
fn wait_for_key_takes_the_lowest_pressed_key() {
    let mut chip = Chip8::new();
    chip.keypress(0xD, true);
    chip.keypress(0x4, true);
    chip.execute(0xF20A).unwrap();
    assert_eq!(chip.v_reg[2], 4);
}

#[test]
fn random_byte_is_masked_with_kk() {
    let mut chip = Chip8::new();
    chip.v_reg[0] = 0xFF;
    chip.execute(0xC000).unwrap(); // mask 0x00: zero for every random byte
    assert_eq!(chip.v_reg[0], 0);
    for _ in 0..32 {
        chip.execute(0xC10F).unwrap(); // mask 0x0F
        assert!(chip.v_reg[1] < 16);
    }
}

#[test]
fn unknown_opcodes_are_refused_with_their_value() {
    for &op in &[0x0123u16, 0x5001, 0x8008, 0x800F, 0x9001, 0xE000, 0xF000, 0xFFFF] {
        let mut chip = Chip8::new();
        assert_eq!(chip.execute(op), Err(Chip8Error::UnimplementedOpcode(op)));
        // the machine is left untouched
        assert_eq!(chip.program_counter, 0x200);
        assert!(chip.v_reg.iter().all(|&v| v == 0));
    }
}

#[test]
fn add_program_scenario() {
    // V0 <- 10, V1 <- 5, V0 <- V0 + V1
    let mut chip = Chip8::new();
    let rom = vec![0x60u8, 0x0A, 0x61, 0x05, 0x80, 0x14];
    chip.load_rom(&rom).unwrap();
    for _ in 0..3 {
        chip.cicle().unwrap();
    }
    assert_eq!(chip.v_reg[0], 15);
    assert_eq!(chip.v_reg[0xF], 0);
}

#[test]
fn add_program_overflow_scenario() {
    // V0 <- 255, V1 <- 1, V0 <- V0 + V1: wraps to 0 with carry
    let mut chip = Chip8::new();
    let rom = vec![0x60u8, 0xFF, 0x61, 0x01, 0x80, 0x14];
    chip.load_rom(&rom).unwrap();
    for _ in 0..3 {
        chip.cicle().unwrap();
    }
    assert_eq!(chip.v_reg[0], 0);
    assert_eq!(chip.v_reg[0xF], 1);
}

#[test]
fn call_and_return_scenario() {
    // CALL 0x208; at 0x208: RET
    let mut chip = Chip8::new();
    let rom = vec![0x22u8, 0x08, 0, 0, 0, 0, 0, 0, 0x00, 0xEE];
    chip.load_rom(&rom).unwrap();
    chip.cicle().unwrap();
    assert_eq!(chip.program_counter, 0x208);
    assert_eq!(chip.stack_pointer, 1);
    assert_eq!(chip.stack[0], 0x202);
    chip.cicle().unwrap();
    // back on the instruction after the call, stack empty again
    assert_eq!(chip.program_counter, 0x202);
    assert_eq!(chip.stack_pointer, 0);
}

#[test]
fn return_on_empty_stack_is_clamped() {
    let mut chip = Chip8::new();
    chip.stack[0] = 0x321;
    chip.execute(0x00EE).unwrap();
    assert_eq!(chip.program_counter, 0x321);
    assert_eq!(chip.stack_pointer, 0);
}

#[test]
fn noop_leaves_the_machine_alone() {
    let mut chip = Chip8::new();
    chip.execute(0x0000).unwrap();
    assert_eq!(chip.program_counter, 0x200);
    assert!(chip.v_reg.iter().all(|&v| v == 0));
}

#[test]
fn cicle_out_of_bounds_fetch_is_reported() {
    let mut chip = Chip8::new();
    chip.program_counter = 4095;
    assert_eq!(chip.cicle(), Err(Chip8Error::OutOfBounds));
}

#[test]
fn cicle_reports_unknown_opcode_after_fetch() {
    let mut chip = Chip8::new();
    let rom = vec![0x50u8, 0x01];
    chip.load_rom(&rom).unwrap();
    assert_eq!(chip.cicle(), Err(Chip8Error::UnimplementedOpcode(0x5001)));
    // the fetch still advanced the program counter
    assert_eq!(chip.program_counter, 0x202);
}
