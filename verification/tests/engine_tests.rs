use chip8::font::font_bytes;
use chip8::state::Fault;
use chip8::Chip8;
use chip8::CPU;

const START_ADDR: u16 = 0x200;

// Loading a 2-byte program that sets a register, then stepping once,
// executes exactly that instruction and advances the counter by one word.
#[test]
fn test_scenario_load_and_step() {
    let mut cpu = CPU::new();
    cpu.load_program(&[0x60, 0x05]).unwrap();
    cpu.execute_next().unwrap();
    assert_eq!(cpu.v_reg(0), 0x05);
    assert_eq!(cpu.pc(), START_ADDR + 2);
}

// With key 3 already down, the wait-for-key instruction completes on the
// first step: the key index lands in the register and the counter ends
// where it started.
#[test]
fn test_scenario_wait_for_key_already_pressed() {
    let mut cpu = CPU::new();
    cpu.get_keyboard().key_down(3);
    cpu.load_program(&[0xF3, 0x0A]).unwrap();
    cpu.execute_next().unwrap();
    assert_eq!(cpu.v_reg(3), 3);
    assert_eq!(cpu.pc(), START_ADDR);
}

// Adding a literal wraps modulo 256 and sets no flag.
#[test]
fn test_add_literal_wraps_without_flag() {
    let mut cpu = CPU::new();
    cpu.execute(0x60FF).unwrap(); // V0 = 0xFF
    cpu.execute(0x7002).unwrap(); // V0 += 0x02
    assert_eq!(cpu.v_reg(0), 0x01);
    assert_eq!(cpu.v_reg(0xF), 0);
    // Set then add the same literal twice: 3 * 0x90 mod 256.
    cpu.execute(0x6190).unwrap();
    cpu.execute(0x7190).unwrap();
    cpu.execute(0x7190).unwrap();
    assert_eq!(cpu.v_reg(1), ((3 * 0x90) % 256) as u8);
    assert_eq!(cpu.v_reg(0xF), 0);
}

// Register-register addition reports a carry exactly when the sum exceeds
// 255.
#[test]
fn test_add_register_carry_flag() {
    let mut cpu = CPU::new();
    cpu.set_v_reg(0, 200);
    cpu.set_v_reg(1, 100);
    cpu.execute(0x8014).unwrap();
    assert_eq!(cpu.v_reg(0), 44);
    assert_eq!(cpu.v_reg(0xF), 1);
    cpu.set_v_reg(2, 7);
    cpu.set_v_reg(3, 8);
    cpu.execute(0x8234).unwrap();
    assert_eq!(cpu.v_reg(2), 15);
    assert_eq!(cpu.v_reg(0xF), 0);
}

// Subtraction reports "no borrow" exactly when the minuend is at least the
// subtrahend.
#[test]
fn test_sub_register_borrow_flag() {
    let mut cpu = CPU::new();
    cpu.set_v_reg(0, 5);
    cpu.set_v_reg(1, 3);
    cpu.execute(0x8015).unwrap();
    assert_eq!(cpu.v_reg(0), 2);
    assert_eq!(cpu.v_reg(0xF), 1);
    cpu.set_v_reg(2, 3);
    cpu.set_v_reg(3, 5);
    cpu.execute(0x8235).unwrap();
    assert_eq!(cpu.v_reg(2), 254);
    assert_eq!(cpu.v_reg(0xF), 0);
}

// The reversed subtraction uses the same inverted-borrow convention.
#[test]
fn test_subn_register_borrow_flag() {
    let mut cpu = CPU::new();
    cpu.set_v_reg(0, 3);
    cpu.set_v_reg(1, 5);
    cpu.execute(0x8017).unwrap(); // V0 = V1 - V0
    assert_eq!(cpu.v_reg(0), 2);
    assert_eq!(cpu.v_reg(0xF), 1);
}

// Shifts capture the bit shifted out, before shifting.
#[test]
fn test_shift_flags() {
    let mut cpu = CPU::new();
    cpu.set_v_reg(0, 5);
    cpu.execute(0x8006).unwrap(); // V0 >>= 1
    assert_eq!(cpu.v_reg(0), 2);
    assert_eq!(cpu.v_reg(0xF), 1);
    cpu.set_v_reg(1, 0x81);
    cpu.execute(0x810E).unwrap(); // V1 <<= 1
    assert_eq!(cpu.v_reg(1), 2);
    assert_eq!(cpu.v_reg(0xF), 1);
}

// The bitwise register operations.
#[test]
fn test_or_and_xor() {
    let mut cpu = CPU::new();
    cpu.set_v_reg(0, 0b1100);
    cpu.set_v_reg(1, 0b1010);
    cpu.execute(0x8011).unwrap();
    assert_eq!(cpu.v_reg(0), 0b1110);
    cpu.set_v_reg(2, 0b1100);
    cpu.execute(0x8212).unwrap();
    assert_eq!(cpu.v_reg(2), 0b1000);
    cpu.set_v_reg(3, 0b1100);
    cpu.execute(0x8313).unwrap();
    assert_eq!(cpu.v_reg(3), 0b0110);
}

// Drawing the same sprite twice at the same spot erases it, and the second
// draw reports a collision for the pixels the first draw lit.
#[test]
fn test_draw_twice_erases() {
    let mut cpu = CPU::new();
    cpu.set_index_reg(0x300);
    cpu.set_memory_byte(0x300, 0b10100101);
    cpu.set_memory_byte(0x301, 0b01011010);
    cpu.set_v_reg(0, 10);
    cpu.set_v_reg(1, 7);
    cpu.execute(0xD012).unwrap();
    assert_eq!(cpu.v_reg(0xF), 0);
    assert_eq!(cpu.get_screen().get_pixel(7, 10), true);
    cpu.execute(0xD012).unwrap();
    assert_eq!(cpu.v_reg(0xF), 1);
    for row in 0..32 {
        for col in 0..64 {
            assert_eq!(cpu.get_screen().get_pixel(row, col), false);
        }
    }
}

// A sprite drawn past the right and bottom edges wraps around them.
#[test]
fn test_draw_wraps_at_edges() {
    let mut cpu = CPU::new();
    cpu.set_index_reg(0x300);
    cpu.set_memory_byte(0x300, 0b11000000);
    cpu.set_v_reg(0, 63);
    cpu.set_v_reg(1, 31);
    cpu.execute(0xD011).unwrap();
    assert_eq!(cpu.get_screen().get_pixel(31, 63), true);
    assert_eq!(cpu.get_screen().get_pixel(31, 0), true);
}

// After a reset the font is back in low memory and all of program space is
// zero.
#[test]
fn test_reset_restores_font_and_zeroes_program_space() {
    let mut cpu = CPU::new();
    cpu.load_program(&[0xAB, 0xCD]).unwrap();
    cpu.set_v_reg(4, 99);
    cpu.set_memory_byte(70, 0xFF);
    cpu.execute(0x1555).unwrap();
    cpu.reset();
    let font = font_bytes();
    for k in 0..80 {
        assert_eq!(cpu.memory_byte(k), font[k]);
    }
    for addr in 0x200..4096 {
        assert_eq!(cpu.memory_byte(addr), 0);
    }
    assert_eq!(cpu.v_reg(4), 0);
    assert_eq!(cpu.pc(), START_ADDR);
}

// A call followed by a return lands just after the call instruction.
#[test]
fn test_call_then_return_roundtrip() {
    let mut cpu = CPU::new();
    cpu.execute(0x2400).unwrap();
    assert_eq!(cpu.pc(), 0x400);
    cpu.execute(0x00EE).unwrap();
    assert_eq!(cpu.pc(), START_ADDR + 2);
    assert_eq!(cpu.stack_pointer(), 0);
}

// Timer ticks decrement nonzero timers by exactly one and leave zero
// timers at zero.
#[test]
fn test_update_timer_floors_at_zero() {
    let mut cpu = CPU::new();
    cpu.set_delay_timer(2);
    cpu.set_sound_timer(0);
    cpu.update_timer();
    assert_eq!(cpu.delay_timer(), 1);
    assert_eq!(cpu.sound_timer(), 0);
    cpu.update_timer();
    cpu.update_timer();
    assert_eq!(cpu.delay_timer(), 0);
    assert_eq!(cpu.sound_timer(), 0);
}

// An unrecognized bit pattern is a no-op that still advances the counter.
#[test]
fn test_unknown_opcode_advances_counter() {
    let mut cpu = CPU::new();
    cpu.execute(0x0123).unwrap();
    assert_eq!(cpu.pc(), START_ADDR + 2);
    cpu.execute(0x5121).unwrap();
    assert_eq!(cpu.pc(), START_ADDR + 4);
    cpu.execute(0x8008).unwrap();
    assert_eq!(cpu.pc(), START_ADDR + 6);
}

// A return with nothing on the stack is a fault that changes nothing.
#[test]
fn test_return_underflow_fault() {
    let mut cpu = CPU::new();
    assert_eq!(cpu.execute(0x00EE), Err(Fault::StackUnderflow));
    assert_eq!(cpu.pc(), START_ADDR);
}

// A seventeenth nested call is a fault that changes nothing.
#[test]
fn test_call_overflow_fault() {
    let mut cpu = CPU::new();
    for _ in 0..16 {
        cpu.execute(0x2300).unwrap();
    }
    assert_eq!(cpu.execute(0x2300), Err(Fault::StackOverflow));
    assert_eq!(cpu.stack_pointer(), 16);
    assert_eq!(cpu.pc(), 0x300);
}

// A memory operation reaching past the end of memory is a fault that
// changes nothing.
#[test]
fn test_memory_out_of_bounds_fault() {
    let mut cpu = CPU::new();
    cpu.set_index_reg(4094);
    assert_eq!(cpu.execute(0xF033), Err(Fault::MemoryOutOfBounds));
    assert_eq!(cpu.execute(0xF355), Err(Fault::MemoryOutOfBounds));
    assert_eq!(cpu.execute(0xF365), Err(Fault::MemoryOutOfBounds));
    cpu.set_index_reg(4096);
    assert_eq!(cpu.execute(0xD001), Err(Fault::MemoryOutOfBounds));
    assert_eq!(cpu.pc(), START_ADDR);
}

// A key-conditional instruction naming a key above the sixteenth is a
// fault that changes nothing.
#[test]
fn test_key_out_of_range_fault() {
    let mut cpu = CPU::new();
    cpu.set_v_reg(0, 200);
    assert_eq!(cpu.execute(0xE09E), Err(Fault::KeyOutOfRange));
    assert_eq!(cpu.execute(0xE0A1), Err(Fault::KeyOutOfRange));
    assert_eq!(cpu.pc(), START_ADDR);
}

// A program that does not fit between the origin and the end of memory is
// rejected whole.
#[test]
fn test_program_too_large_fault() {
    let mut cpu = CPU::new();
    let program = vec![0u8; 4096 - 0x200 + 1];
    assert_eq!(cpu.load_program(&program), Err(Fault::ProgramTooLarge));
    let fits = vec![0u8; 4096 - 0x200];
    assert_eq!(cpu.load_program(&fits), Ok(()));
}

// A counter too close to the end of memory to hold a whole word is a
// fault.
#[test]
fn test_fetch_out_of_bounds_fault() {
    let mut cpu = CPU::new();
    cpu.set_pc(4095);
    assert_eq!(cpu.execute_next(), Err(Fault::MemoryOutOfBounds));
    assert_eq!(cpu.pc(), 4095);
}

// The wait-for-key instruction re-arms while no key is down: the counter
// ends where it started and no register changes.
#[test]
fn test_wait_for_key_rearms_when_none_pressed() {
    let mut cpu = CPU::new();
    cpu.load_program(&[0xF5, 0x0A]).unwrap();
    cpu.execute_next().unwrap();
    assert_eq!(cpu.pc(), START_ADDR);
    assert_eq!(cpu.v_reg(5), 0);
    cpu.get_keyboard().key_down(8);
    cpu.execute_next().unwrap();
    assert_eq!(cpu.v_reg(5), 8);
    assert_eq!(cpu.pc(), START_ADDR);
}

// The facade drives the same machine: lifecycle, dimensions, pixels and
// key events all pass through.
#[test]
fn test_facade_surface() {
    let mut engine = Chip8::new();
    assert_eq!(engine.width(), 64);
    assert_eq!(engine.height(), 32);
    engine.load_program(&[0x00, 0xE0]).unwrap();
    engine.execute_next().unwrap();
    assert_eq!(engine.get_screen_memory().len(), 2048);
    assert!(engine.get_screen_memory().iter().all(|p| !p));
    engine.key_down(3);
    engine.key_up(3);
    engine.update_timer();
    engine.reset();
    assert!(engine.load_program(&vec![0u8; 4000]).is_err());
}

// The random-mask instruction masks whatever byte the platform drew: the
// masked-out bits are always clear, and a zero mask pins the register.
#[test]
fn test_random_mask_bounds_register() {
    let mut cpu = CPU::new();
    for _ in 0..8 {
        cpu.execute(0xC207).unwrap();
        assert_eq!(cpu.v_reg(2) & !0x07, 0);
    }
    cpu.set_v_reg(3, 0xAA);
    cpu.execute(0xC300).unwrap();
    assert_eq!(cpu.v_reg(3), 0);
}
