use chip8::Chip8;
use chip8::Chip8Error;

#[test]
fn new_machine_is_zeroed() {
    let chip = Chip8::new();
    assert_eq!(chip.program_counter, 0x200);
    assert_eq!(chip.i_reg, 0);
    assert_eq!(chip.stack_pointer, 0);
    assert_eq!(chip.delay_timer, 0);
    assert_eq!(chip.sound_timer, 0);
    // the font sits at the bottom of memory from the start
    assert_eq!(chip.memory[0], 0xF0);
    assert_eq!(chip.memory[79], 0x80);
    assert!(chip.memory[80..].iter().all(|&b| b == 0));
    assert!(chip.v_reg.iter().all(|&v| v == 0));
    assert!(chip.stack.iter().all(|&a| a == 0));
    assert!(chip.keyboard.iter().all(|&k| !k));
    assert!(chip.display.iter().all(|&p| !p));
}

#[test]
fn load_font_writes_the_glyph_table() {
    let mut chip = Chip8::new();
    let image = chip.load_font();
    // glyph 0 starts with 0xF0, glyph F ends with 0x80
    assert_eq!(chip.memory[0], 0xF0);
    assert_eq!(chip.memory[4], 0xF0);
    assert_eq!(chip.memory[75], 0xF0);
    assert_eq!(chip.memory[79], 0x80);
    // memory beyond the font is untouched
    assert!(chip.memory[80..].iter().all(|&b| b == 0));
    // the returned image is the machine's memory
    assert_eq!(image[..], chip.memory[..]);
}

#[test]
fn load_rom_places_bytes_at_0x200() {
    let mut chip = Chip8::new();
    let rom = vec![0x12u8, 0x34, 0x56];
    assert!(chip.load_rom(&rom).is_ok());
    assert_eq!(chip.memory[0x200], 0x12);
    assert_eq!(chip.memory[0x201], 0x34);
    assert_eq!(chip.memory[0x202], 0x56);
    assert_eq!(chip.memory[0x203], 0);
    // the font was loaded first
    assert_eq!(chip.memory[0], 0xF0);
}

#[test]
fn load_rom_of_maximum_size_is_accepted() {
    let mut chip = Chip8::new();
    let rom = vec![0xABu8; 3584];
    assert!(chip.load_rom(&rom).is_ok());
    assert_eq!(chip.memory[0x200], 0xAB);
    assert_eq!(chip.memory[4095], 0xAB);
}

#[test]
fn load_rom_too_big_is_refused_whole() {
    let mut chip = Chip8::new();
    let rom = vec![0xABu8; 3585];
    assert_eq!(chip.load_rom(&rom), Err(Chip8Error::CapacityError));
    // no byte of the ROM was written
    assert!(chip.memory[0x200..].iter().all(|&b| b == 0));
}

#[test]
fn stack_push_then_pop_returns_the_address() {
    let mut chip = Chip8::new();
    chip.stack_push(0x234);
    chip.stack_push(0x456);
    assert_eq!(chip.stack_pointer, 2);
    assert_eq!(chip.stack_pop(), 0x456);
    assert_eq!(chip.stack_pop(), 0x234);
    assert_eq!(chip.stack_pointer, 0);
}

#[test]
fn stack_push_wraps_when_full() {
    let mut chip = Chip8::new();
    for a in 0..16u16 {
        chip.stack_push(0x300 + a);
    }
    assert_eq!(chip.stack_pointer, 16);
    // the seventeenth push wraps to slot 0, overwriting the oldest entry
    chip.stack_push(0x777);
    assert_eq!(chip.stack_pointer, 1);
    assert_eq!(chip.stack[0], 0x777);
    assert_eq!(chip.stack[1], 0x301);
}

#[test]
fn stack_pop_on_empty_stack_is_clamped() {
    let mut chip = Chip8::new();
    chip.stack[0] = 0x345;
    assert_eq!(chip.stack_pop(), 0x345);
    assert_eq!(chip.stack_pointer, 0);
}

#[test]
fn tick_timers_decrements_and_floors_at_zero() {
    let mut chip = Chip8::new();
    chip.delay_timer = 2;
    chip.sound_timer = 1;
    chip.tick_timers();
    assert_eq!(chip.delay_timer, 1);
    // the sound timer crossing 1 -> 0 is the stop-audio sentinel
    assert_eq!(chip.sound_timer, 0);
    chip.tick_timers();
    assert_eq!(chip.delay_timer, 0);
    assert_eq!(chip.sound_timer, 0);
    chip.tick_timers();
    assert_eq!(chip.delay_timer, 0);
    assert_eq!(chip.sound_timer, 0);
}

#[test]
fn timer_decay_scenario() {
    // delay timer set to 5 through 0xFx15, then ticked six times
    let mut chip = Chip8::new();
    chip.v_reg[3] = 5;
    chip.execute(0xF315).unwrap();
    assert_eq!(chip.delay_timer, 5);
    for _ in 0..5 {
        chip.tick_timers();
    }
    assert_eq!(chip.delay_timer, 0);
    chip.tick_timers();
    assert_eq!(chip.delay_timer, 0);
}

#[test]
fn keypress_sets_and_clears_the_latch() {
    let mut chip = Chip8::new();
    chip.keypress(0xC, true);
    assert!(chip.keyboard[0xC]);
    assert!(chip.keyboard.iter().enumerate().all(|(k, &p)| p == (k == 0xC)));
    chip.keypress(0xC, false);
    assert!(!chip.keyboard[0xC]);
}

#[test]
fn fetch_reads_big_endian_and_advances() {
    let mut chip = Chip8::new();
    chip.memory[0x200] = 0x6A;
    chip.memory[0x201] = 0x02;
    assert_eq!(chip.fetch_opcode_from(), Ok(0x6A02));
    assert_eq!(chip.program_counter, 0x202);
}

#[test]
fn fetch_at_end_of_memory_is_out_of_bounds() {
    let mut chip = Chip8::new();
    chip.program_counter = 4095;
    assert_eq!(chip.fetch_opcode_from(), Err(Chip8Error::OutOfBounds));
    assert_eq!(chip.program_counter, 4095);
    chip.program_counter = 4096;
    assert_eq!(chip.fetch_opcode_from(), Err(Chip8Error::OutOfBounds));
}
