use chip8::cpu::CPU;
use chip8::opcode::get_kk;

fn fresh() -> CPU {
    CPU::new(&[])
}

#[test]
fn test_handle_2nnn() {
    let mut cpu = fresh();
    let opcode = 0x2111;
    cpu.handle_opcode(opcode);
    assert_eq!(cpu.pc, 0x111 as u16);
}
#[test]
fn test_handle_3xkk() {
    let mut cpu = fresh();
    let opcode = 0x3122;
    cpu.handle_opcode(opcode);
    assert_eq!(cpu.pc, 2 as u16);
}
#[test]
fn test_handle_4xkk() {
    let mut cpu = fresh();
    let opcode = 0x4122;
    cpu.handle_opcode(opcode);
    assert_eq!(cpu.pc, 4 as u16);
}
#[test]
fn test_handle_5xy0() {
    let mut cpu = fresh();
    let opcode = 0x5000;
    cpu.handle_opcode(opcode);
    assert_eq!(cpu.pc, 4 as u16);
}
#[test]
fn test_handle_6xkk() {
    let mut cpu = fresh();
    let opcode = 0x6666;
    cpu.handle_opcode(opcode);
    assert_eq!(cpu.reg_v[6], get_kk(opcode) as u8);
}
#[test]
fn test_handle_7xkk() {
    let mut cpu = fresh();
    let opcode = 0x7777;
    cpu.reg_v[7] = 0x1;
    cpu.handle_opcode(opcode);
    assert_eq!(cpu.reg_v[7], get_kk(opcode) as u8 + 0x1);
}
#[test]
fn test_handle_8xy0() {
    let mut cpu = fresh();
    let opcode = 0x8120;
    cpu.reg_v[2] = 0x5;
    cpu.handle_opcode(opcode);
    assert_eq!(cpu.reg_v[1], 0x5);
}
#[test]
fn test_handle_8xy1() {
    let mut cpu = fresh();
    let opcode = 0x8121;
    cpu.reg_v[1] = 0x11;
    cpu.reg_v[2] = 0x10;
    cpu.handle_opcode(opcode);
    assert_eq!(cpu.reg_v[1], 0x11);
}
#[test]
fn test_handle_8xy2() {
    let mut cpu = fresh();
    let opcode = 0x8122;
    cpu.reg_v[1] = 0x11;
    cpu.reg_v[2] = 0x10;
    cpu.handle_opcode(opcode);
    assert_eq!(cpu.reg_v[1], 0x10);
}
#[test]
fn test_handle_8xy3() {
    let mut cpu = fresh();
    let opcode = 0x8123;
    cpu.reg_v[1] = 0x11;
    cpu.reg_v[2] = 0x10;
    cpu.handle_opcode(opcode);
    assert_eq!(cpu.reg_v[1], 0x01);
}
#[test]
fn test_handle_8xy4() {
    let mut cpu = fresh();
    let opcode = 0x8123;
    cpu.reg_v[1] = 0x11;
    cpu.reg_v[2] = 0x10;
    cpu.handle_opcode(opcode);
    assert_eq!(cpu.reg_v[1], 0x01);
}
#[test]
fn test_handle_8xy5() {
    let mut cpu = fresh();
    let opcode = 0x8125;
    cpu.reg_v[1] = 0x11;
    cpu.reg_v[2] = 0x10;
    cpu.handle_opcode(opcode);
    assert_eq!(cpu.reg_v[1], (0x11 as u8).wrapping_sub(0x10 as u8));
    assert_eq!(cpu.reg_v[0x0f], 1);
    assert_eq!(cpu.pc, 2);
}

#[test]
fn test_handle_8xy6() {
    let mut cpu = fresh();
    let opcode = 0x8126;
    cpu.reg_v[1] = 0x10;
    cpu.handle_opcode(opcode);
    assert_eq!(cpu.reg_v[1], 0x10 >> 1);
    assert_eq!(cpu.reg_v[0x0f], 0);
    cpu = fresh();
    cpu.reg_v[1] = 0x01;
    cpu.handle_opcode(opcode);
    assert_eq!(cpu.reg_v[0x0f], 1);
    assert_eq!(cpu.pc, 2);
}

#[test]
fn test_handle_8xye() {
    let mut cpu = fresh();
    let opcode = 0x812e;
    cpu.reg_v[1] = 0x11;
    cpu.handle_opcode(opcode);
    assert_eq!(cpu.reg_v[1], 0x11 << 1);
    assert_eq!(cpu.reg_v[0x0f], 0);
    assert_eq!(cpu.pc, 2);
    cpu = fresh();
    let opcode = 0x812e;
    cpu.reg_v[1] = 0b111111;
    cpu.handle_opcode(opcode);
}

#[test]
fn test_handle_9xy0() {
    let mut cpu = fresh();
    let opcode = 0x9120;
    cpu.reg_v[1] = 0x10;
    cpu.reg_v[2] = 0x33;
    cpu.handle_opcode(opcode);
    assert_eq!(cpu.pc, 4);
    cpu = fresh();
    cpu.reg_v[1] = 0x10;
    cpu.reg_v[2] = 0x10;
    cpu.handle_opcode(opcode);
    assert_eq!(cpu.pc, 2);
}
#[test]
fn test_handle_annn() {
    let mut cpu = fresh();
    let opcode = 0xa111;
    cpu.handle_opcode(opcode);
    assert_eq!(cpu.pc, 2);
    assert_eq!(cpu.reg_i, 0x111);
}
#[test]
fn test_handle_bnnn() {
    let mut cpu = fresh();
    let opcode = 0xb111;
    cpu.reg_v[0] = 0x11;
    cpu.handle_opcode(opcode);
    let result = (0x11 as usize) + (0x111 & 0xfff) as usize;
    assert_eq!(cpu.pc, result as u16);
}
#[test]
fn test_handle_cxkk() {
    let mut cpu = fresh();
    let opcode = 0xc100;
    cpu.reg_v[1] = 0x11;
    cpu.handle_opcode(opcode);
    assert_eq!(cpu.reg_v[1], 0);
    // The byte is random: with kk = 0x11 a draw gives 0 one time in four, so
    // the draw is repeated until it gives a value other than 0.
    let opcode = 0xc111;
    let mut nonzero = false;
    for _ in 0..64 {
        cpu = fresh();
        cpu.reg_v[1] = 0x11;
        cpu.handle_opcode(opcode);
        assert_eq!(cpu.reg_v[1] & !0x11, 0);
        if cpu.reg_v[1] != 0 {
            nonzero = true;
            break;
        }
    }
    assert_ne!(nonzero, false);
}
#[test]
fn test_handle_dxyn() {
    let mut cpu = fresh();
    let opcode = 0xd120;
    cpu.handle_opcode(opcode);
    assert_eq!(cpu.display_changed, true);
}
#[test]
fn test_handle_ex9e() {
    let mut cpu = fresh();
    let opcode = 0xe19e;
    cpu.handle_opcode(opcode);
    assert_eq!(cpu.pc, 2);
}

#[test]
fn test_handle_fx07() {
    let mut cpu = fresh();
    let opcode = 0xf107;
    cpu.delay_timer = 0x2;
    cpu.reg_v[1] = 0x1;
    cpu.handle_opcode(opcode);
    assert_eq!(cpu.delay_timer, 0x2);
}
#[test]
fn test_handle_fx15() {
    let mut cpu = fresh();
    let opcode = 0xf115;
    cpu.reg_v[1] = 0x5;
    cpu.handle_opcode(opcode);
    assert_eq!(cpu.delay_timer, 0x5);
    assert_eq!(cpu.pc, 2);
}
#[test]
fn test_handle_fx18() {
    let mut cpu = fresh();
    let opcode = 0xf118;
    cpu.reg_v[1] = 0x5;
    cpu.handle_opcode(opcode);
    assert_eq!(cpu.sound_timer, 0x5);
    assert_eq!(cpu.pc, 2);
}
#[test]
fn test_handle_fx1e() {
    let mut cpu = fresh();
    let opcode = 0xf11e;
    cpu.reg_v[1] = 0x5;
    cpu.reg_i = 0x1;
    cpu.handle_opcode(opcode);
    assert_eq!(cpu.reg_i, 0x6);
    assert_eq!(cpu.pc, 2);
}
#[test]
fn test_handle_fx29() {
    let mut cpu = fresh();
    let opcode = 0xf129;
    cpu.reg_v[1] = 5;
    cpu.handle_opcode(opcode);
    assert_eq!(cpu.reg_i, 25);
}
#[test]
fn test_handle_fx33() {
    let mut cpu = fresh();
    let opcode = 0xf133;
    cpu.reg_v[1] = 245;
    cpu.reg_i = 0;
    cpu.handle_opcode(opcode);
    assert_eq!(cpu.memory[0], 2);
    assert_eq!(cpu.memory[1], 4);
    assert_eq!(cpu.memory[2], 5);
}
#[test]
fn test_handle_fx55() {
    let mut cpu = fresh();
    let opcode = 0xf355;
    cpu.reg_i = 0x300;
    cpu.reg_v[0] = 1;
    cpu.reg_v[1] = 2;
    cpu.reg_v[2] = 3;
    cpu.handle_opcode(opcode);
    assert_eq!(cpu.memory[0x300], 1);
    assert_eq!(cpu.memory[0x301], 2);
    assert_eq!(cpu.memory[0x302], 3);
}
#[test]
fn test_handle_fx65() {
    let mut cpu = fresh();
    let opcode = 0xf165;
    cpu.reg_i = 0x200;
    cpu.memory[0x200] = 2;
    cpu.memory[0x201] = 3;
    cpu.handle_opcode(opcode);
    assert_eq!(cpu.reg_v[0], 2);
    assert_eq!(cpu.reg_v[1], 3);
}
