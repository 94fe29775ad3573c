use chip8::font::font_bytes;
use chip8::CPU;

const START_ADDR: u16 = 0x200;

#[test]
fn test_load_fonts_when_created() {
    let cpu = CPU::new();
    let font = font_bytes();
    assert_eq!(cpu.memory_byte(0), font[0]);
    assert_eq!(cpu.memory_byte(1), font[1]);
    assert_eq!(cpu.memory_byte(79), font[79]);
    assert_eq!(cpu.memory_byte(80), 0);
}

#[test]
fn test_load_program() {
    let mut cpu = CPU::new();
    cpu.load_program(&[1, 2, 3]).unwrap();
    assert_eq!(cpu.memory_byte(0x200), 1);
    assert_eq!(cpu.memory_byte(0x201), 2);
    assert_eq!(cpu.memory_byte(0x202), 3);
}

#[test]
fn test_execute_1xxx() {
    let mut cpu = CPU::new();
    cpu.execute(0x1A2A).unwrap();
    assert_eq!(cpu.pc(), 0x0A2A);
}

#[test]
fn test_execute_2xxx() {
    let mut cpu = CPU::new();
    cpu.set_pc(0x20);
    cpu.execute(0x2123).unwrap();
    assert_eq!(cpu.pc(), 0x0123);
    assert_eq!(cpu.stack_pointer(), 1);
    assert_eq!(cpu.stack_entry(0), 0x20 + 2);
}

#[test]
fn test_execute_3xxx() {
    let mut cpu = CPU::new();
    cpu.set_v_reg(0, 0xEE);

    // vx == kk skip 4
    cpu.execute(0x30EE).unwrap();
    assert_eq!(cpu.pc(), START_ADDR + 4);

    // vx != kk
    cpu.execute(0x30EF).unwrap();
    assert_eq!(cpu.pc(), START_ADDR + 6);
}

#[test]
fn test_execute_4xxx() {
    let mut cpu = CPU::new();
    cpu.set_v_reg(0, 0xEE);

    // vx == kk
    cpu.execute(0x40EE).unwrap();
    assert_eq!(cpu.pc(), START_ADDR + 2);

    // vx != kk skip 4
    cpu.execute(0x40EF).unwrap();
    assert_eq!(cpu.pc(), START_ADDR + 6);
}

#[test]
fn test_execute_5xxx() {
    let mut cpu = CPU::new();
    cpu.set_v_reg(0, 1);
    cpu.set_v_reg(1, 1);
    cpu.execute(0x5110).unwrap();
    assert_eq!(cpu.pc(), START_ADDR + 4);
    cpu.execute(0x5210).unwrap();
    assert_eq!(cpu.pc(), START_ADDR + 6);
}

#[test]
fn test_execute_6xxx() {
    let mut cpu = CPU::new();
    cpu.execute(0x60EF).unwrap();
    assert_eq!(cpu.v_reg(0), 0xEF);
    assert_eq!(cpu.pc(), START_ADDR + 2);
}

#[test]
fn test_execute_7xxx() {
    let mut cpu = CPU::new();
    cpu.set_v_reg(0, 1);
    cpu.execute(0x70EF).unwrap();
    assert_eq!(cpu.v_reg(0), 1 + 0xEF);
    assert_eq!(cpu.pc(), START_ADDR + 2);
}

#[test]
fn test_execute_8xx0() {
    let mut cpu = CPU::new();
    cpu.set_v_reg(0, 1);
    cpu.set_v_reg(1, 2);
    cpu.execute(0x8010).unwrap();
    assert_eq!(cpu.v_reg(0), 2);
    assert_eq!(cpu.pc(), START_ADDR + 2);
}

#[test]
fn test_execute_axxx() {
    let mut cpu = CPU::new();
    cpu.execute(0xA1EF).unwrap();
    assert_eq!(cpu.index_reg(), 0x1EF);
}

#[test]
fn test_execute_bxxx() {
    let mut cpu = CPU::new();
    cpu.set_v_reg(0, 2);
    cpu.execute(0xBEF3).unwrap();
    assert_eq!(cpu.pc(), 0xEF5);
}

#[test]
fn test_execute_cxxx() {
    let mut cpu = CPU::new();
    cpu.execute(0xC000).unwrap();
    assert_eq!(cpu.v_reg(0), 0);
    cpu.execute(0xC00F).unwrap();
    assert_eq!(cpu.v_reg(0) & 0xF0, 0);
}

#[test]
fn test_execute_dxxx() {
    let mut cpu = CPU::new();
    cpu.set_index_reg(0);
    cpu.set_memory_byte(0, 0b11110011);
    cpu.set_memory_byte(1, 0b11001110);
    cpu.execute(0xD002).unwrap();
    assert_eq!(true, cpu.get_screen().get_pixel(0, 0));
    assert_eq!(true, cpu.get_screen().get_pixel(0, 1));
    assert_eq!(true, cpu.get_screen().get_pixel(0, 2));
    assert_eq!(true, cpu.get_screen().get_pixel(0, 3));
    assert_eq!(false, cpu.get_screen().get_pixel(0, 4));
    assert_eq!(false, cpu.get_screen().get_pixel(0, 5));
    assert_eq!(true, cpu.get_screen().get_pixel(0, 6));
    assert_eq!(true, cpu.get_screen().get_pixel(0, 7));

    assert_eq!(true, cpu.get_screen().get_pixel(1, 0));
    assert_eq!(true, cpu.get_screen().get_pixel(1, 1));
    assert_eq!(false, cpu.get_screen().get_pixel(1, 2));
    assert_eq!(false, cpu.get_screen().get_pixel(1, 3));
    assert_eq!(true, cpu.get_screen().get_pixel(1, 4));
    assert_eq!(true, cpu.get_screen().get_pixel(1, 5));
    assert_eq!(true, cpu.get_screen().get_pixel(1, 6));
    assert_eq!(false, cpu.get_screen().get_pixel(1, 7));
    assert_eq!(cpu.v_reg(0xF), 0);
    assert_eq!(cpu.pc(), START_ADDR + 2);

    // test collision
    cpu.set_memory_byte(0, 0b11110100);
    cpu.execute(0xD001).unwrap();
    assert_eq!(false, cpu.get_screen().get_pixel(0, 0));
    assert_eq!(false, cpu.get_screen().get_pixel(0, 1));
    assert_eq!(false, cpu.get_screen().get_pixel(0, 2));
    assert_eq!(false, cpu.get_screen().get_pixel(0, 3));
    assert_eq!(false, cpu.get_screen().get_pixel(0, 4));
    assert_eq!(true, cpu.get_screen().get_pixel(0, 5));
    assert_eq!(true, cpu.get_screen().get_pixel(0, 6));
    assert_eq!(true, cpu.get_screen().get_pixel(0, 7));
    assert_eq!(cpu.v_reg(0xF), 1);
    assert_eq!(cpu.pc(), START_ADDR + 4);
}

#[test]
fn test_execute_ex9e() {
    let mut cpu = CPU::new();
    cpu.get_keyboard().key_down(9);
    cpu.set_v_reg(0, 9);
    cpu.execute(0xe09e).unwrap();
    assert_eq!(cpu.pc(), START_ADDR + 4);

    cpu.get_keyboard().clear();
    cpu.execute(0xe09e).unwrap();
    assert_eq!(cpu.pc(), START_ADDR + 6);
}

#[test]
fn test_execute_exa1() {
    let mut cpu = CPU::new();
    cpu.get_keyboard().key_down(9);
    cpu.set_v_reg(0, 9);
    cpu.execute(0xe0a1).unwrap();
    assert_eq!(cpu.pc(), START_ADDR + 2);

    cpu.get_keyboard().clear();
    cpu.execute(0xe0a1).unwrap();
    assert_eq!(cpu.pc(), START_ADDR + 6);
}

#[test]
fn test_execute_fx07() {
    let mut cpu = CPU::new();
    cpu.set_delay_timer(20);
    cpu.execute(0xf507).unwrap();
    assert_eq!(cpu.v_reg(5), 20);
    assert_eq!(cpu.pc(), START_ADDR + 2);
}

#[test]
fn test_execute_fx0a() {
    let mut cpu = CPU::new();
    cpu.get_keyboard().key_down(3);
    cpu.execute(0xF30A).unwrap();
    assert_eq!(cpu.get_keyboard().is_key_pressed(3), true);
    assert_eq!(cpu.v_reg(3), 3);
    assert_eq!(cpu.pc(), START_ADDR);
}

#[test]
fn test_execute_fx15() {
    let mut cpu = CPU::new();
    cpu.set_v_reg(5, 9);
    cpu.execute(0xf515).unwrap();
    assert_eq!(cpu.delay_timer(), 9);
    assert_eq!(cpu.pc(), START_ADDR + 2);
}

#[test]
fn test_execute_fx18() {
    let mut cpu = CPU::new();
    cpu.set_v_reg(5, 9);
    cpu.execute(0xf518).unwrap();
    assert_eq!(cpu.sound_timer(), 9);
    assert_eq!(cpu.pc(), START_ADDR + 2);
}

#[test]
fn test_execute_fx1e() {
    let mut cpu = CPU::new();
    cpu.set_v_reg(5, 9);
    cpu.set_index_reg(9);
    cpu.execute(0xf51e).unwrap();
    assert_eq!(cpu.index_reg(), 18);
    assert_eq!(cpu.pc(), START_ADDR + 2);
}

#[test]
fn test_execute_fx29() {
    let mut cpu = CPU::new();
    cpu.set_v_reg(5, 9);
    cpu.execute(0xf529).unwrap();
    assert_eq!(cpu.index_reg(), 5 * 9);
    assert_eq!(cpu.pc(), START_ADDR + 2);
}

#[test]
fn test_execute_fx33() {
    let mut cpu = CPU::new();
    cpu.set_v_reg(5, 123);
    cpu.set_index_reg(1000);
    cpu.execute(0xf533).unwrap();
    assert_eq!(cpu.memory_byte(1000), 1);
    assert_eq!(cpu.memory_byte(1001), 2);
    assert_eq!(cpu.memory_byte(1002), 3);
    assert_eq!(cpu.pc(), START_ADDR + 2);
}

#[test]
fn test_execute_fx55() {
    let mut cpu = CPU::new();
    cpu.set_index_reg(1000);
    cpu.execute(0xff55).unwrap();
    for i in 0..16 {
        assert_eq!(cpu.memory_byte(1000 + i as usize), cpu.v_reg(i));
    }
    assert_eq!(cpu.pc(), START_ADDR + 2);
}

#[test]
fn test_execute_fx65() {
    let mut cpu = CPU::new();
    for idx in 0..16 as usize {
        cpu.set_memory_byte(1000 + idx, idx as u8);
    }
    cpu.set_index_reg(1000);
    cpu.execute(0xff65).unwrap();
    for i in 0..16 as usize {
        assert_eq!(cpu.v_reg(i as u8), cpu.memory_byte(1000 + i));
    }
    assert_eq!(cpu.pc(), START_ADDR + 2);
}
