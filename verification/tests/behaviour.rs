use chip8::cpu::CPU;
use chip8::font::FontSet;
use chip8::keyboard::Keyboard;
use chip8::opcode::{get_kk, get_n, get_nnn, get_x, get_y};

fn fresh() -> CPU {
    CPU::new(&[])
}

#[test]
fn new_loads_glyphs_and_program() {
    let cpu = CPU::new(&[0x12, 0x34, 0x56]);
    let font = FontSet::new();
    for a in 0..80 {
        assert_eq!(cpu.memory[a], font.set[a]);
    }
    assert_eq!(cpu.memory[0x200], 0x12);
    assert_eq!(cpu.memory[0x201], 0x34);
    assert_eq!(cpu.memory[0x202], 0x56);
    assert_eq!(cpu.memory[0x203], 0);
    assert_eq!(cpu.memory[80], 0);
    assert_eq!(cpu.pc, 0);
    assert_eq!(cpu.sp, 0);
    assert_eq!(cpu.reg_i, 0);
    assert!(!cpu.display_changed);
    assert!(!cpu.keyboard_blocking);
}

#[test]
fn new_drops_what_does_not_fit() {
    let program: Vec<u8> = (0..4000usize).map(|i| (i % 251) as u8 + 1).collect();
    let cpu = CPU::new(&program);
    assert_eq!(cpu.memory[0x200], 1);
    assert_eq!(cpu.memory[4095], program[4095 - 0x200]);
}

#[test]
fn glyph_zero_and_f() {
    let font = FontSet::new();
    assert_eq!(&font.set[0..5], &[0xF0, 0x90, 0x90, 0x90, 0xF0]);
    assert_eq!(&font.set[75..80], &[0xF0, 0x80, 0xF0, 0x80, 0x80]);
}

#[test]
fn decoders_pick_their_fields() {
    assert_eq!(get_nnn(0xABCD), 0xBCD);
    assert_eq!(get_x(0xABCD), 0xB);
    assert_eq!(get_y(0xABCD), 0xC);
    assert_eq!(get_kk(0xABCD), 0xCD);
    assert_eq!(get_n(0xABCD), 0xD);
}

#[test]
fn keyboard_reports_held_keys_only() {
    let mut k = Keyboard::new();
    assert!(!k.is_key_pressed(3));
    k.pressed[3] = true;
    assert!(k.is_key_pressed(3));
    assert!(!k.is_key_pressed(4));
    assert!(!k.is_key_pressed(16));
    assert!(!k.is_key_pressed(255));
}

#[test]
fn jump_sets_pc() {
    let mut cpu = fresh();
    cpu.handle_opcode(0x1ABC);
    assert_eq!(cpu.pc, 0xABC);
}

#[test]
fn call_then_return_comes_back() {
    let mut cpu = fresh();
    cpu.pc = 0x240;
    cpu.handle_opcode(0x2300);
    assert_eq!(cpu.pc, 0x300);
    assert_eq!(cpu.sp, 1);
    assert_eq!(cpu.stack[0], 0x242);
    cpu.handle_opcode(0x00EE);
    assert_eq!(cpu.pc, 0x242);
    assert_eq!(cpu.sp, 0);
}

#[test]
fn skip_on_byte() {
    let mut cpu = fresh();
    cpu.reg_v[4] = 0x22;
    cpu.handle_opcode(0x3422);
    assert_eq!(cpu.pc, 4);
    cpu.handle_opcode(0x4422);
    assert_eq!(cpu.pc, 6);
    cpu.handle_opcode(0x4423);
    assert_eq!(cpu.pc, 10);
}

#[test]
fn add_byte_wraps() {
    let mut cpu = fresh();
    cpu.reg_v[3] = 0xF0;
    cpu.handle_opcode(0x7320);
    assert_eq!(cpu.reg_v[3], 0x10);
    assert_eq!(cpu.reg_v[0xF], 0);
}

#[test]
fn add_registers_carries() {
    let mut cpu = fresh();
    cpu.reg_v[1] = 0xFF;
    cpu.reg_v[2] = 0x01;
    cpu.handle_opcode(0x8124);
    assert_eq!(cpu.reg_v[1], 0);
    assert_eq!(cpu.reg_v[0xF], 1);
    cpu.reg_v[1] = 0x10;
    cpu.handle_opcode(0x8124);
    assert_eq!(cpu.reg_v[1], 0x11);
    assert_eq!(cpu.reg_v[0xF], 0);
}

#[test]
fn flag_register_as_operand_keeps_the_result() {
    let mut cpu = fresh();
    cpu.reg_v[0xF] = 0x80;
    cpu.handle_opcode(0x8FF4);
    assert_eq!(cpu.reg_v[0xF], 0);
}

#[test]
fn subtract_borrows() {
    let mut cpu = fresh();
    cpu.reg_v[1] = 0x10;
    cpu.reg_v[2] = 0x11;
    cpu.handle_opcode(0x8125);
    assert_eq!(cpu.reg_v[1], 0xFF);
    assert_eq!(cpu.reg_v[0xF], 0);
    cpu.reg_v[1] = 0x10;
    cpu.reg_v[2] = 0x10;
    cpu.handle_opcode(0x8125);
    assert_eq!(cpu.reg_v[1], 0);
    assert_eq!(cpu.reg_v[0xF], 0);
}

#[test]
fn subtract_reverse() {
    let mut cpu = fresh();
    cpu.reg_v[1] = 0x05;
    cpu.reg_v[2] = 0x03;
    cpu.handle_opcode(0x8127);
    assert_eq!(cpu.reg_v[1], 0xFE);
    assert_eq!(cpu.reg_v[0xF], 0);
    cpu.reg_v[1] = 0x03;
    cpu.reg_v[2] = 0x05;
    cpu.handle_opcode(0x8127);
    assert_eq!(cpu.reg_v[1], 0x02);
    assert_eq!(cpu.reg_v[0xF], 1);
}

#[test]
fn shift_left_reports_high_bit() {
    let mut cpu = fresh();
    cpu.reg_v[1] = 0x81;
    cpu.handle_opcode(0x812E);
    assert_eq!(cpu.reg_v[1], 0x02);
    assert_eq!(cpu.reg_v[0xF], 1);
}

#[test]
fn random_byte_is_masked() {
    let mut cpu = fresh();
    cpu.execute(0xC10F, 0xAB);
    assert_eq!(cpu.reg_v[1], 0x0B);
    assert_eq!(cpu.pc, 2);
    for _ in 0..32 {
        cpu.handle_opcode(0xC20F);
        assert_eq!(cpu.reg_v[2] & 0xF0, 0);
    }
}

#[test]
fn draw_sets_pixels_then_collides_and_erases() {
    let mut cpu = fresh();
    cpu.reg_i = 0;
    cpu.reg_v[1] = 2;
    cpu.reg_v[2] = 3;
    cpu.handle_opcode(0xD125);
    assert_eq!(cpu.reg_v[0xF], 0);
    // Glyph 0, top row 0xF0: four lit pixels from column 2 on row 3.
    assert_eq!(cpu.display_memory[3][2], 1);
    assert_eq!(cpu.display_memory[3][5], 1);
    assert_eq!(cpu.display_memory[3][6], 0);
    // Second row 0x90: pixels at columns 2 and 5.
    assert_eq!(cpu.display_memory[4][2], 1);
    assert_eq!(cpu.display_memory[4][3], 0);
    assert_eq!(cpu.display_memory[4][5], 1);
    assert!(cpu.display_changed);
    cpu.handle_opcode(0xD125);
    assert_eq!(cpu.reg_v[0xF], 1);
    for row in cpu.display_memory.iter() {
        for p in row.iter() {
            assert_eq!(*p, 0);
        }
    }
}

#[test]
fn draw_wraps_round_the_edges() {
    let mut cpu = fresh();
    cpu.reg_i = 0x300;
    cpu.memory[0x300] = 0xFF;
    cpu.memory[0x301] = 0x80;
    cpu.reg_v[1] = 62;
    cpu.reg_v[2] = 31;
    cpu.handle_opcode(0xD122);
    assert_eq!(cpu.display_memory[31][62], 1);
    assert_eq!(cpu.display_memory[31][63], 1);
    assert_eq!(cpu.display_memory[31][0], 1);
    assert_eq!(cpu.display_memory[31][5], 1);
    assert_eq!(cpu.display_memory[31][6], 0);
    assert_eq!(cpu.display_memory[0][62], 1);
    assert_eq!(cpu.display_memory[0][63], 0);
}

#[test]
fn clear_screen_turns_every_pixel_off() {
    let mut cpu = fresh();
    cpu.reg_v[1] = 10;
    cpu.handle_opcode(0xD115);
    cpu.handle_opcode(0x00E0);
    assert!(cpu.display_memory.iter().all(|row| row.iter().all(|p| *p == 0)));
    assert!(cpu.display_changed);
    assert_eq!(cpu.pc, 4);
}

#[test]
fn key_skips() {
    let mut cpu = fresh();
    cpu.reg_v[5] = 0xA;
    cpu.keyboard.pressed[0xA] = true;
    cpu.handle_opcode(0xE59E);
    assert_eq!(cpu.pc, 4);
    cpu.handle_opcode(0xE5A1);
    assert_eq!(cpu.pc, 6);
    cpu.keyboard.pressed[0xA] = false;
    cpu.handle_opcode(0xE5A1);
    assert_eq!(cpu.pc, 10);
}

#[test]
fn wait_for_key_then_receive() {
    let mut cpu = fresh();
    cpu.reg_v[3] = 0x33;
    cpu.handle_opcode(0xF30A);
    assert!(cpu.keyboard_blocking);
    assert_eq!(cpu.reg_v[3], 0x33);
    assert_eq!(cpu.pc, 2);
    assert!(!cpu.can_cycle());
    cpu.keyboard.key_clicked = 0;
    cpu.receive_key();
    assert!(cpu.keyboard_blocking);
    cpu.keyboard.key_clicked = 0x11;
    cpu.receive_key();
    assert!(cpu.keyboard_blocking);
    cpu.keyboard.key_clicked = 7;
    cpu.receive_key();
    assert!(!cpu.keyboard_blocking);
    // Key 7 is reported for the digit 6.
    assert_eq!(cpu.keycode, 6);
    assert_eq!(cpu.reg_v[3], 6);
    assert_eq!(cpu.reg_v[4], 0);
    assert!(cpu.can_cycle());
}

#[test]
fn wait_for_key_across_cycles() {
    let mut cpu = CPU::new(&[0xF1, 0x0A]);
    cpu.pc = 0x200;
    cpu.cycle();
    assert!(cpu.keyboard_blocking);
    assert!(!cpu.can_cycle());
    cpu.keyboard.key_clicked = 1;
    cpu.receive_key();
    assert_eq!(cpu.reg_v[1], 0);
    assert!(cpu.can_cycle());
    cpu.cycle();
    assert_eq!(cpu.pc, 0x204);
    assert!(!cpu.keyboard_blocking);
}

#[test]
fn draw_reads_coordinates_before_clearing_the_flag() {
    let mut cpu = fresh();
    cpu.reg_v[0xF] = 8;
    cpu.reg_i = 0x300;
    cpu.memory[0x300] = 0x80;
    cpu.handle_opcode(0xDF01);
    assert_eq!(cpu.display_memory[0][8], 1);
    assert_eq!(cpu.display_memory[0][0], 0);
    assert_eq!(cpu.reg_v[0xF], 0);
    assert_eq!(cpu.pc, 2);
}

#[test]
fn receive_key_ignored_when_not_waiting() {
    let mut cpu = fresh();
    cpu.keyboard.key_clicked = 7;
    cpu.receive_key();
    assert_eq!(cpu.keycode, 0);
    assert!(!cpu.keyboard_blocking);
}

#[test]
fn index_arithmetic_and_glyph_address() {
    let mut cpu = fresh();
    cpu.reg_v[2] = 0xA;
    cpu.handle_opcode(0xF229);
    assert_eq!(cpu.reg_i, 50);
    assert_eq!(&cpu.memory[50..55], &[0xF0, 0x90, 0xF0, 0x90, 0x90]);
    cpu.handle_opcode(0xF21E);
    assert_eq!(cpu.reg_i, 60);
}

#[test]
fn bcd_of_small_values() {
    let mut cpu = fresh();
    cpu.reg_i = 0x300;
    cpu.reg_v[0] = 7;
    cpu.handle_opcode(0xF033);
    assert_eq!(&cpu.memory[0x300..0x303], &[0, 0, 7]);
    cpu.reg_v[0] = 100;
    cpu.handle_opcode(0xF033);
    assert_eq!(&cpu.memory[0x300..0x303], &[1, 0, 0]);
}

#[test]
fn store_then_load_registers() {
    let mut cpu = fresh();
    cpu.reg_i = 0x400;
    for r in 0..16 {
        cpu.reg_v[r] = (r as u8) * 3 + 1;
    }
    let saved = cpu.reg_v;
    cpu.handle_opcode(0xFF55);
    for r in 0..16 {
        assert_eq!(cpu.memory[0x400 + r], saved[r]);
        cpu.reg_v[r] = 0;
    }
    cpu.handle_opcode(0xFF65);
    assert_eq!(cpu.reg_v, saved);
    assert_eq!(cpu.reg_i, 0x400);
}

#[test]
fn load_stops_at_x() {
    let mut cpu = fresh();
    cpu.reg_i = 0x400;
    cpu.memory[0x400] = 9;
    cpu.memory[0x401] = 8;
    cpu.memory[0x402] = 7;
    cpu.reg_v[2] = 0x55;
    cpu.handle_opcode(0xF165);
    assert_eq!(cpu.reg_v[0], 9);
    assert_eq!(cpu.reg_v[1], 8);
    assert_eq!(cpu.reg_v[2], 0x55);
}

#[test]
fn unknown_words_move_on() {
    let mut cpu = fresh();
    let before = cpu.reg_v;
    cpu.handle_opcode(0x0123);
    cpu.handle_opcode(0x8008);
    cpu.handle_opcode(0x9121);
    cpu.handle_opcode(0xE1FF);
    cpu.handle_opcode(0xF1FF);
    assert_eq!(cpu.pc, 10);
    assert_eq!(cpu.reg_v, before);
}

#[test]
fn cycle_fetches_executes_and_counts_down() {
    let mut cpu = CPU::new(&[0x60, 0x42, 0xF0, 0x18]);
    cpu.pc = 0x200;
    cpu.delay_timer = 3;
    cpu.sound_timer = 1;
    let out = cpu.cycle();
    assert!(out.play_sound);
    assert!(!out.display_changed);
    assert_eq!(cpu.reg_v[0], 0x42);
    assert_eq!(cpu.pc, 0x202);
    assert_eq!(cpu.delay_timer, 2);
    assert_eq!(cpu.sound_timer, 0);
    // Fx18 sets the sound timer to 0x42; it sounds and counts down at once.
    let out = cpu.cycle();
    assert!(out.play_sound);
    assert_eq!(cpu.sound_timer, 0x41);
    assert_eq!(cpu.delay_timer, 1);
}

#[test]
fn cycle_reports_the_display() {
    let mut cpu = CPU::new(&[0xD0, 0x15]);
    cpu.pc = 0x200;
    let out = cpu.cycle();
    assert!(out.display_changed);
    assert!(!out.play_sound);
    assert_eq!(out.display_memory[0][0], 1);
    assert_eq!(out.display_memory[0][4], 0);
}

#[test]
fn can_execute_refuses_what_would_fail() {
    let mut cpu = fresh();
    assert!(!cpu.can_execute(0x00EE));
    assert!(cpu.can_execute(0x2300));
    cpu.sp = 16;
    assert!(!cpu.can_execute(0x2300));
    assert!(cpu.can_execute(0x00EE));
    cpu.reg_i = 4094;
    assert!(!cpu.can_execute(0xF033));
    assert!(cpu.can_execute(0xF055));
    assert!(cpu.can_execute(0xF155));
    assert!(!cpu.can_execute(0xF255));
    assert!(!cpu.can_execute(0xD013));
    assert!(cpu.can_execute(0xD012));
    cpu.pc = 0xFFFE;
    assert!(!cpu.can_execute(0x6000));
    assert!(cpu.can_execute(0x1200));
    cpu.pc = 0xFFFC;
    cpu.reg_v[0] = 1;
    assert!(!cpu.can_execute(0x3001));
    assert!(cpu.can_execute(0x3002));
}

#[test]
fn can_cycle_needs_a_word_in_memory() {
    let mut cpu = fresh();
    assert!(cpu.can_cycle());
    cpu.pc = 4095;
    assert!(!cpu.can_cycle());
    cpu.pc = 4094;
    assert!(cpu.can_cycle());
}

#[test]
fn waited_key_digit_drives_key_skips() {
    let mut cpu = fresh();
    cpu.handle_opcode(0xF20A);
    cpu.keyboard.key_clicked = 0xB;
    cpu.keyboard.pressed[0xA] = true;
    cpu.receive_key();
    assert_eq!(cpu.reg_v[2], 0xA);
    cpu.handle_opcode(0xE29E);
    assert_eq!(cpu.pc, 6);
}

#[test]
fn add_index_keeps_twelve_bits() {
    let mut cpu = fresh();
    cpu.reg_i = 0xFFF;
    cpu.reg_v[1] = 1;
    assert!(cpu.can_execute(0xF11E));
    cpu.handle_opcode(0xF11E);
    assert_eq!(cpu.reg_i, 0);
    cpu.reg_i = 0xFF0;
    cpu.reg_v[1] = 0x20;
    cpu.handle_opcode(0xF11E);
    assert_eq!(cpu.reg_i, 0x10);
}
