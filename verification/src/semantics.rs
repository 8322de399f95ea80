//! What each instruction does, stated from its hexadecimal digits and the
//! state before it: the values it writes, the program counter it leaves, and
//! that nothing else changes. Each law is proved of `step`, which `execute`
//! and `handle_opcode` are proved to follow.
use vstd::prelude::*;
use crate::cpu::initial_machine;
use crate::machine::{
    can_cycle, cycle_step, receive_key, can_step, draw_pixel, draw_row, draw_rows, lemma_draw_row_frame, lemma_draw_row_wf,
    lemma_draw_rows_frame, lemma_draw_wf, sprite_bit, step, Machine, DISPLAY_HEIGHT, DISPLAY_WIDTH,
    FLAG, MEMORY_SIZE, REGISTER_COUNT,
};

verus! {

/// Every part of the state other than the registers `V0`..`VF` and the
/// program counter is as before.
pub open spec fn same_but_registers(s: Machine, m: Machine) -> bool {
    &&& s.reg_i == m.reg_i
    &&& s.delay_timer == m.delay_timer
    &&& s.sound_timer == m.sound_timer
    &&& s.sp == m.sp
    &&& s.stack == m.stack
    &&& s.memory == m.memory
    &&& s.display == m.display
    &&& s.display_changed == m.display_changed
    &&& s.keycode == m.keycode
    &&& s.keyboard_blocking == m.keyboard_blocking
    &&& s.key_register == m.key_register
    &&& s.keys == m.keys
    &&& s.key_clicked == m.key_clicked
}

/// Every register other than `a` and `b` holds what it held.
pub open spec fn registers_kept_but(s: Machine, m: Machine, a: int, b: int) -> bool {
    &&& s.reg_v.len() == m.reg_v.len()
    &&& forall|j: int| 0 <= j < REGISTER_COUNT && j != a && j != b ==> #[trigger] s.reg_v[j] == m.reg_v[j]
}

/// An instruction that only writes registers: the rest of the state is kept
/// and execution moves on to the next instruction.
pub open spec fn register_instruction(s: Machine, m: Machine) -> bool {
    &&& same_but_registers(s, m)
    &&& s.pc == m.pc + 2
}

// ---- loads and arithmetic -------------------------------------------------

/// `6xkk` puts the byte `kk` in `Vx` and changes no other register.
pub proof fn law_load_byte(m: Machine, op: u16, rnd: u8)
    requires
        m.wf(),
        op / 4096 == 6,
        m.pc + 2 <= u16::MAX,
    ensures
        can_step(m, op),
        ({
            let s = step(m, op, rnd);
            let x = (op / 256) % 16;
            &&& s.reg_v[x as int] == op % 256
            &&& registers_kept_but(s, m, x as int, x as int)
            &&& register_instruction(s, m)
        }),
{
}

/// `7xkk` adds `kk` to `Vx`, keeping the low byte of the sum, and leaves every
/// other register, `VF` included, as it was.
pub proof fn law_add_byte(m: Machine, op: u16, rnd: u8)
    requires
        m.wf(),
        op / 4096 == 7,
        m.pc + 2 <= u16::MAX,
    ensures
        can_step(m, op),
        ({
            let s = step(m, op, rnd);
            let x = (op / 256) % 16;
            &&& (s.reg_v[x as int] as int) == (m.reg_v[x as int] + op % 256) % 256
            &&& registers_kept_but(s, m, x as int, x as int)
            &&& register_instruction(s, m)
        }),
{
}

/// `8xy0` copies `Vy` into `Vx`.
pub proof fn law_move(m: Machine, op: u16, rnd: u8)
    requires
        m.wf(),
        op / 4096 == 8,
        op % 16 == 0,
        m.pc + 2 <= u16::MAX,
    ensures
        can_step(m, op),
        ({
            let s = step(m, op, rnd);
            let x = ((op / 256) % 16) as int;
            let y = ((op / 16) % 16) as int;
            &&& s.reg_v[x] == m.reg_v[y]
            &&& registers_kept_but(s, m, x, x)
            &&& register_instruction(s, m)
        }),
{
}

/// `8xy1` sets in `Vx` exactly the bits set in `Vx` or in `Vy`.
pub proof fn law_or(m: Machine, op: u16, rnd: u8)
    requires
        m.wf(),
        op / 4096 == 8,
        op % 16 == 1,
        m.pc + 2 <= u16::MAX,
    ensures
        can_step(m, op),
        ({
            let s = step(m, op, rnd);
            let x = ((op / 256) % 16) as int;
            let y = ((op / 16) % 16) as int;
            &&& s.reg_v[x] == m.reg_v[x] | m.reg_v[y]
            &&& s.reg_v[x] & m.reg_v[x] == m.reg_v[x]
            &&& s.reg_v[x] & m.reg_v[y] == m.reg_v[y]
            &&& registers_kept_but(s, m, x, x)
            &&& register_instruction(s, m)
        }),
{
    let (a, b) = (m.reg_v[((op / 256) % 16) as int], m.reg_v[((op / 16) % 16) as int]);
    assert((a | b) & a == a && (a | b) & b == b) by (bit_vector);
}

/// `8xy2` keeps in `Vx` exactly the bits set in both `Vx` and `Vy`.
pub proof fn law_and(m: Machine, op: u16, rnd: u8)
    requires
        m.wf(),
        op / 4096 == 8,
        op % 16 == 2,
        m.pc + 2 <= u16::MAX,
    ensures
        can_step(m, op),
        ({
            let s = step(m, op, rnd);
            let x = ((op / 256) % 16) as int;
            let y = ((op / 16) % 16) as int;
            &&& s.reg_v[x] == m.reg_v[x] & m.reg_v[y]
            &&& s.reg_v[x] | m.reg_v[x] == m.reg_v[x]
            &&& s.reg_v[x] | m.reg_v[y] == m.reg_v[y]
            &&& registers_kept_but(s, m, x, x)
            &&& register_instruction(s, m)
        }),
{
    let (a, b) = (m.reg_v[((op / 256) % 16) as int], m.reg_v[((op / 16) % 16) as int]);
    assert((a & b) | a == a && (a & b) | b == b) by (bit_vector);
}

/// `8xy3` sets in `Vx` the bits where `Vx` and `Vy` differ: XOR-ing the
/// result with `Vy` gives back the old `Vx`, and with the old `Vx` gives `Vy`.
pub proof fn law_xor(m: Machine, op: u16, rnd: u8)
    requires
        m.wf(),
        op / 4096 == 8,
        op % 16 == 3,
        m.pc + 2 <= u16::MAX,
    ensures
        can_step(m, op),
        ({
            let s = step(m, op, rnd);
            let x = ((op / 256) % 16) as int;
            let y = ((op / 16) % 16) as int;
            &&& s.reg_v[x] == m.reg_v[x] ^ m.reg_v[y]
            &&& x != y ==> s.reg_v[x] ^ m.reg_v[y] == m.reg_v[x]
            &&& s.reg_v[x] ^ m.reg_v[x] == m.reg_v[y]
            &&& registers_kept_but(s, m, x, x)
            &&& register_instruction(s, m)
        }),
{
    let (a, b) = (m.reg_v[((op / 256) % 16) as int], m.reg_v[((op / 16) % 16) as int]);
    assert((a ^ b) ^ b == a && (a ^ b) ^ a == b) by (bit_vector);
}

/// `8xy4` with `x` other than `F`: `VF` is the carry and `Vx` the low byte of
/// `Vx + Vy`, so that together they are the full sum.
pub proof fn law_add_registers(m: Machine, op: u16, rnd: u8)
    requires
        m.wf(),
        op / 4096 == 8,
        op % 16 == 4,
        (op / 256) % 16 != FLAG,
        m.pc + 2 <= u16::MAX,
    ensures
        can_step(m, op),
        ({
            let s = step(m, op, rnd);
            let x = ((op / 256) % 16) as int;
            let y = ((op / 16) % 16) as int;
            &&& s.reg_v[FLAG as int] <= 1
            &&& 256 * s.reg_v[FLAG as int] + s.reg_v[x] == m.reg_v[x] + m.reg_v[y]
            &&& registers_kept_but(s, m, x, FLAG as int)
            &&& register_instruction(s, m)
        }),
{
}

/// `8xy5` with `x` other than `F`: the new `Vx` plus `Vy` is the old `Vx`
/// modulo 256, and `VF` is 1 exactly when `Vx > Vy`.
pub proof fn law_subtract(m: Machine, op: u16, rnd: u8)
    requires
        m.wf(),
        op / 4096 == 8,
        op % 16 == 5,
        (op / 256) % 16 != FLAG,
        m.pc + 2 <= u16::MAX,
    ensures
        can_step(m, op),
        ({
            let s = step(m, op, rnd);
            let x = ((op / 256) % 16) as int;
            let y = ((op / 16) % 16) as int;
            &&& (s.reg_v[x] + m.reg_v[y]) % 256 == m.reg_v[x] as int
            &&& s.reg_v[FLAG as int] == (if m.reg_v[x] > m.reg_v[y] { 1u8 } else { 0u8 })
            &&& registers_kept_but(s, m, x, FLAG as int)
            &&& register_instruction(s, m)
        }),
{
}

/// `8xy7` with `x` other than `F`: the new `Vx` plus the old `Vx` is `Vy`
/// modulo 256, and `VF` is 1 exactly when `Vy > Vx`.
pub proof fn law_subtract_reverse(m: Machine, op: u16, rnd: u8)
    requires
        m.wf(),
        op / 4096 == 8,
        op % 16 == 7,
        (op / 256) % 16 != FLAG,
        m.pc + 2 <= u16::MAX,
    ensures
        can_step(m, op),
        ({
            let s = step(m, op, rnd);
            let x = ((op / 256) % 16) as int;
            let y = ((op / 16) % 16) as int;
            &&& (s.reg_v[x] + m.reg_v[x]) % 256 == m.reg_v[y] as int
            &&& s.reg_v[FLAG as int] == (if m.reg_v[y] > m.reg_v[x] { 1u8 } else { 0u8 })
            &&& registers_kept_but(s, m, x, FLAG as int)
            &&& register_instruction(s, m)
        }),
{
}

/// `8xy6` with `x` other than `F`: `Vx` is halved, and `VF` takes the bit that
/// falls off, so that twice the new `Vx` plus `VF` is the old `Vx`.
pub proof fn law_shift_right(m: Machine, op: u16, rnd: u8)
    requires
        m.wf(),
        op / 4096 == 8,
        op % 16 == 6,
        (op / 256) % 16 != FLAG,
        m.pc + 2 <= u16::MAX,
    ensures
        can_step(m, op),
        ({
            let s = step(m, op, rnd);
            let x = ((op / 256) % 16) as int;
            &&& s.reg_v[FLAG as int] <= 1
            &&& 2 * s.reg_v[x] + s.reg_v[FLAG as int] == m.reg_v[x]
            &&& s.reg_v[x] < 128
            &&& registers_kept_but(s, m, x, FLAG as int)
            &&& register_instruction(s, m)
        }),
{
}

/// `8xyE` with `x` other than `F`: `Vx` is doubled, and `VF` takes the bit
/// that falls off the top, so that 256 times `VF` plus the new `Vx` is twice
/// the old `Vx`.
pub proof fn law_shift_left(m: Machine, op: u16, rnd: u8)
    requires
        m.wf(),
        op / 4096 == 8,
        op % 16 == 0xE,
        (op / 256) % 16 != FLAG,
        m.pc + 2 <= u16::MAX,
    ensures
        can_step(m, op),
        ({
            let s = step(m, op, rnd);
            let x = ((op / 256) % 16) as int;
            &&& s.reg_v[FLAG as int] <= 1
            &&& 256 * s.reg_v[FLAG as int] + s.reg_v[x] == 2 * m.reg_v[x]
            &&& s.reg_v[x] % 2 == 0
            &&& registers_kept_but(s, m, x, FLAG as int)
            &&& register_instruction(s, m)
        }),
{
}

/// The `8xy4`, `8xy5`, `8xy6`, `8xy7` and `8xyE` forms whose target is `VF`
/// itself: the flag is written first and the result then overwrites it, so
/// `VF` ends as the result: the low byte of the sum, the differences modulo
/// 256, and for the shifts the flag just written shifted once more (0 after a
/// right shift, twice the top bit after a left shift).
pub proof fn law_arithmetic_into_flag(m: Machine, op: u16, rnd: u8)
    requires
        m.wf(),
        op / 4096 == 8,
        (op / 256) % 16 == FLAG,
        op % 16 == 4 || op % 16 == 5 || op % 16 == 6 || op % 16 == 7 || op % 16 == 0xE,
        m.pc + 2 <= u16::MAX,
    ensures
        can_step(m, op),
        ({
            let s = step(m, op, rnd);
            let vf = m.reg_v[FLAG as int] as int;
            let vy = m.reg_v[((op / 16) % 16) as int] as int;
            &&& op % 16 == 4 ==> s.reg_v[FLAG as int] as int == (vf + vy) % 256
            &&& op % 16 == 5 ==> s.reg_v[FLAG as int] as int == (vf - vy) % 256
            &&& op % 16 == 7 ==> s.reg_v[FLAG as int] as int == (vy - vf) % 256
            &&& op % 16 == 6 ==> s.reg_v[FLAG as int] == 0
            &&& op % 16 == 0xE ==> s.reg_v[FLAG as int] == (if vf >= 128 { 2u8 } else { 0u8 })
            &&& registers_kept_but(s, m, FLAG as int, FLAG as int)
            &&& register_instruction(s, m)
        }),
{
}

/// `Cxkk` puts in `Vx` the random byte with the bits of `kk` kept and all
/// others cleared.
pub proof fn law_random(m: Machine, op: u16, rnd: u8)
    requires
        m.wf(),
        op / 4096 == 0xC,
        m.pc + 2 <= u16::MAX,
    ensures
        can_step(m, op),
        ({
            let s = step(m, op, rnd);
            let x = ((op / 256) % 16) as int;
            let kk = (op % 256) as u8;
            &&& s.reg_v[x] == rnd & kk
            &&& s.reg_v[x] & !kk == 0
            &&& s.reg_v[x] | rnd == rnd
            &&& registers_kept_but(s, m, x, x)
            &&& register_instruction(s, m)
        }),
{
    let kk = (op % 256) as u8;
    assert((rnd & kk) & !kk == 0 && (rnd & kk) | rnd == rnd) by (bit_vector);
}

// ---- skips ----------------------------------------------------------------

/// `3xkk` skips the next instruction exactly when `Vx == kk`, and changes
/// nothing else.
pub proof fn law_skip_if_equal_byte(m: Machine, op: u16, rnd: u8)
    requires
        m.wf(),
        op / 4096 == 3,
        m.pc + 4 <= u16::MAX,
    ensures
        can_step(m, op),
        step(m, op, rnd) == (Machine {
            pc: if m.reg_v[((op / 256) % 16) as int] == op % 256 { m.pc + 4 } else { m.pc + 2 } as u16,
            ..m
        }),
{
}

/// `4xkk` skips the next instruction exactly when `Vx != kk`, and changes
/// nothing else.
pub proof fn law_skip_if_not_equal_byte(m: Machine, op: u16, rnd: u8)
    requires
        m.wf(),
        op / 4096 == 4,
        m.pc + 4 <= u16::MAX,
    ensures
        can_step(m, op),
        step(m, op, rnd) == (Machine {
            pc: if m.reg_v[((op / 256) % 16) as int] != op % 256 { m.pc + 4 } else { m.pc + 2 } as u16,
            ..m
        }),
{
}

/// `5xy0` skips the next instruction exactly when `Vx == Vy`, and changes
/// nothing else.
pub proof fn law_skip_if_equal_registers(m: Machine, op: u16, rnd: u8)
    requires
        m.wf(),
        op / 4096 == 5,
        m.pc + 4 <= u16::MAX,
    ensures
        can_step(m, op),
        step(m, op, rnd) == (Machine {
            pc: if m.reg_v[((op / 256) % 16) as int] == m.reg_v[((op / 16) % 16) as int] {
                m.pc + 4
            } else {
                m.pc + 2
            } as u16,
            ..m
        }),
{
}

/// `9xy0` skips the next instruction exactly when `Vx != Vy`, and changes
/// nothing else.
pub proof fn law_skip_if_not_equal_registers(m: Machine, op: u16, rnd: u8)
    requires
        m.wf(),
        op / 4096 == 9,
        op % 16 == 0,
        m.pc + 4 <= u16::MAX,
    ensures
        can_step(m, op),
        step(m, op, rnd) == (Machine {
            pc: if m.reg_v[((op / 256) % 16) as int] != m.reg_v[((op / 16) % 16) as int] {
                m.pc + 4
            } else {
                m.pc + 2
            } as u16,
            ..m
        }),
{
}

/// `Ex9E` skips the next instruction exactly when the key whose digit is in
/// `Vx` is held, and changes nothing else.
pub proof fn law_skip_if_key(m: Machine, op: u16, rnd: u8)
    requires
        m.wf(),
        op / 4096 == 0xE,
        op % 256 == 0x9E,
        m.pc + 4 <= u16::MAX,
    ensures
        can_step(m, op),
        step(m, op, rnd) == (Machine {
            pc: if m.reg_v[((op / 256) % 16) as int] < 16 && m.keys[m.reg_v[((op / 256) % 16) as int] as int] {
                m.pc + 4
            } else {
                m.pc + 2
            } as u16,
            ..m
        }),
{
}

/// `ExA1` skips the next instruction exactly when the key whose digit is in
/// `Vx` is not held, and changes nothing else.
pub proof fn law_skip_if_not_key(m: Machine, op: u16, rnd: u8)
    requires
        m.wf(),
        op / 4096 == 0xE,
        op % 256 == 0xA1,
        m.pc + 4 <= u16::MAX,
    ensures
        can_step(m, op),
        step(m, op, rnd) == (Machine {
            pc: if m.reg_v[((op / 256) % 16) as int] < 16 && m.keys[m.reg_v[((op / 256) % 16) as int] as int] {
                m.pc + 2
            } else {
                m.pc + 4
            } as u16,
            ..m
        }),
{
}

// ---- control flow ---------------------------------------------------------

/// `1nnn` goes to address `nnn` and changes nothing else.
pub proof fn law_jump(m: Machine, op: u16, rnd: u8)
    requires
        op / 4096 == 1,
    ensures
        can_step(m, op),
        step(m, op, rnd) == (Machine { pc: (op % 4096) as u16, ..m }),
{
}

/// `Bnnn` goes to address `nnn + V0` and changes nothing else.
pub proof fn law_jump_offset(m: Machine, op: u16, rnd: u8)
    requires
        m.wf(),
        op / 4096 == 0xB,
    ensures
        can_step(m, op),
        step(m, op, rnd) == (Machine { pc: (op % 4096 + m.reg_v[0]) as u16, ..m }),
        op % 4096 + m.reg_v[0] <= u16::MAX,
{
}

/// `2nnn` pushes the address of the next instruction on the stack and goes
/// to `nnn`; nothing else changes.
pub proof fn law_call(m: Machine, op: u16, rnd: u8)
    requires
        m.wf(),
        op / 4096 == 2,
        m.sp < 16,
        m.pc + 2 <= u16::MAX,
    ensures
        can_step(m, op),
        ({
            let s = step(m, op, rnd);
            &&& s.pc == op % 4096
            &&& s.sp == m.sp + 1
            &&& s.stack[m.sp as int] == m.pc + 2
            &&& s.stack.len() == m.stack.len()
            &&& forall|j: int| 0 <= j < 16 && j != m.sp ==> #[trigger] s.stack[j] == m.stack[j]
            &&& s == (Machine { pc: s.pc, sp: s.sp, stack: s.stack, ..m })
        }),
{
}

/// `00EE` pops the top of the stack into the program counter; nothing else
/// changes.
pub proof fn law_return(m: Machine, rnd: u8)
    requires
        m.wf(),
        1 <= m.sp <= 16,
    ensures
        can_step(m, 0x00EE),
        step(m, 0x00EE, rnd) == (Machine { pc: m.stack[m.sp - 1], sp: (m.sp - 1) as usize, ..m }),
{
}

// ---- index register and memory ---------------------------------------------

/// `Annn` puts the address `nnn` in `I`; nothing else but the program counter
/// changes.
pub proof fn law_load_index(m: Machine, op: u16, rnd: u8)
    requires
        m.wf(),
        op / 4096 == 0xA,
        m.pc + 2 <= u16::MAX,
    ensures
        can_step(m, op),
        step(m, op, rnd) == (Machine { reg_i: (op % 4096) as usize, pc: (m.pc + 2) as u16, ..m }),
{
}

/// `Fx1E` adds `Vx` to `I`, keeping the twelve bits of an address.
pub proof fn law_add_index(m: Machine, op: u16, rnd: u8)
    requires
        m.wf(),
        op / 4096 == 0xF,
        op % 256 == 0x1E,
        m.pc + 2 <= u16::MAX,
    ensures
        can_step(m, op),
        ({
            let s = step(m, op, rnd);
            &&& s.reg_i < MEMORY_SIZE
            &&& s.reg_i as int == (m.reg_i + m.reg_v[((op / 256) % 16) as int]) % 4096
            &&& s == (Machine { reg_i: s.reg_i, pc: (m.pc + 2) as u16, ..m })
        }),
{
}

/// `Fx29` points `I` at the glyph of digit `Vx`, glyphs being five bytes
/// apart from address 0.
pub proof fn law_load_glyph(m: Machine, op: u16, rnd: u8)
    requires
        m.wf(),
        op / 4096 == 0xF,
        op % 256 == 0x29,
        m.pc + 2 <= u16::MAX,
    ensures
        can_step(m, op),
        step(m, op, rnd) == (Machine {
            reg_i: (5 * m.reg_v[((op / 256) % 16) as int]) as usize,
            pc: (m.pc + 2) as u16,
            ..m
        }),
{
}

/// `Fx33` writes at `I`, `I + 1`, `I + 2` the hundreds, tens and ones digits
/// of `Vx`, and no other byte of memory.
pub proof fn law_store_decimal(m: Machine, op: u16, rnd: u8)
    requires
        m.wf(),
        op / 4096 == 0xF,
        op % 256 == 0x33,
        m.reg_i + 2 < MEMORY_SIZE,
        m.pc + 2 <= u16::MAX,
    ensures
        can_step(m, op),
        ({
            let s = step(m, op, rnd);
            let v = m.reg_v[((op / 256) % 16) as int];
            let i = m.reg_i as int;
            &&& s.memory[i] < 10 && s.memory[i + 1] < 10 && s.memory[i + 2] < 10
            &&& 100 * s.memory[i] + 10 * s.memory[i + 1] + s.memory[i + 2] == v
            &&& s.memory.len() == m.memory.len()
            &&& forall|a: int| 0 <= a < MEMORY_SIZE && (a < i || a > i + 2) ==> #[trigger] s.memory[a] == m.memory[a]
            &&& s == (Machine { memory: s.memory, pc: (m.pc + 2) as u16, ..m })
        }),
{
}

/// `Fx55` copies `V0` to `Vx` into memory from `I` on, and no other byte.
pub proof fn law_store_registers(m: Machine, op: u16, rnd: u8)
    requires
        m.wf(),
        op / 4096 == 0xF,
        op % 256 == 0x55,
        m.reg_i + (op / 256) % 16 < MEMORY_SIZE,
        m.pc + 2 <= u16::MAX,
    ensures
        can_step(m, op),
        ({
            let s = step(m, op, rnd);
            let x = ((op / 256) % 16) as int;
            let i = m.reg_i as int;
            &&& s.memory.len() == m.memory.len()
            &&& forall|j: int| 0 <= j <= x ==> #[trigger] s.memory[i + j] == m.reg_v[j]
            &&& forall|a: int| 0 <= a < MEMORY_SIZE && (a < i || a > i + x) ==> #[trigger] s.memory[a] == m.memory[a]
            &&& s == (Machine { memory: s.memory, pc: (m.pc + 2) as u16, ..m })
        }),
{
}

/// `Fx65` copies memory from `I` on into `V0` to `Vx`, and changes no other
/// register.
pub proof fn law_load_registers(m: Machine, op: u16, rnd: u8)
    requires
        m.wf(),
        op / 4096 == 0xF,
        op % 256 == 0x65,
        m.reg_i + (op / 256) % 16 < MEMORY_SIZE,
        m.pc + 2 <= u16::MAX,
    ensures
        can_step(m, op),
        ({
            let s = step(m, op, rnd);
            let x = ((op / 256) % 16) as int;
            &&& s.reg_v.len() == m.reg_v.len()
            &&& forall|j: int| 0 <= j <= x ==> #[trigger] s.reg_v[j] == m.memory[m.reg_i + j]
            &&& forall|j: int| x < j < REGISTER_COUNT ==> #[trigger] s.reg_v[j] == m.reg_v[j]
            &&& register_instruction(s, m)
        }),
{
}

// ---- timers, keys, display ------------------------------------------------

/// `Fx07` reads the delay timer into `Vx`.
pub proof fn law_read_delay(m: Machine, op: u16, rnd: u8)
    requires
        m.wf(),
        op / 4096 == 0xF,
        op % 256 == 0x07,
        m.pc + 2 <= u16::MAX,
    ensures
        can_step(m, op),
        ({
            let s = step(m, op, rnd);
            let x = ((op / 256) % 16) as int;
            &&& s.reg_v[x] == m.delay_timer
            &&& registers_kept_but(s, m, x, x)
            &&& register_instruction(s, m)
        }),
{
}

/// `Fx15` sets the delay timer to `Vx`; nothing else but the program counter
/// changes.
pub proof fn law_set_delay(m: Machine, op: u16, rnd: u8)
    requires
        m.wf(),
        op / 4096 == 0xF,
        op % 256 == 0x15,
        m.pc + 2 <= u16::MAX,
    ensures
        can_step(m, op),
        step(m, op, rnd) == (Machine {
            delay_timer: m.reg_v[((op / 256) % 16) as int],
            pc: (m.pc + 2) as u16,
            ..m
        }),
{
}

/// `Fx18` sets the sound timer to `Vx`; nothing else but the program counter
/// changes.
pub proof fn law_set_sound(m: Machine, op: u16, rnd: u8)
    requires
        m.wf(),
        op / 4096 == 0xF,
        op % 256 == 0x18,
        m.pc + 2 <= u16::MAX,
    ensures
        can_step(m, op),
        step(m, op, rnd) == (Machine {
            sound_timer: m.reg_v[((op / 256) % 16) as int],
            pc: (m.pc + 2) as u16,
            ..m
        }),
{
}

/// `Fx0A` starts a wait for a key that will fill `Vx`; no register changes
/// yet.
pub proof fn law_wait_key(m: Machine, op: u16, rnd: u8)
    requires
        m.wf(),
        op / 4096 == 0xF,
        op % 256 == 0x0A,
        m.pc + 2 <= u16::MAX,
    ensures
        can_step(m, op),
        step(m, op, rnd) == (Machine {
            keyboard_blocking: true,
            key_register: ((op / 256) % 16) as usize,
            pc: (m.pc + 2) as u16,
            ..m
        }),
{
}

/// `00E0` turns every pixel off and marks the display changed; nothing else
/// but the program counter changes.
pub proof fn law_clear_screen(m: Machine, rnd: u8)
    requires
        m.wf(),
        m.pc + 2 <= u16::MAX,
    ensures
        can_step(m, 0x00E0),
        ({
            let s = step(m, 0x00E0, rnd);
            &&& s.display.len() == 32
            &&& forall|r: int| 0 <= r < 32 ==> (#[trigger] s.display[r]).len() == 64
            &&& forall|r: int, c: int| 0 <= r < 32 && 0 <= c < 64 ==> #[trigger] s.display[r][c] == 0
            &&& s == (Machine { display: s.display, display_changed: true, pc: (m.pc + 2) as u16, ..m })
        }),
{
}

/// A word in the `0` family other than `00E0` and `00EE`, or any other word
/// that names no instruction, only moves on to the next instruction.
pub proof fn law_no_instruction(m: Machine, op: u16, rnd: u8)
    requires
        m.wf(),
        m.pc + 2 <= u16::MAX,
        (op / 4096 == 0 && op != 0x00E0 && op != 0x00EE)
            || (op / 4096 == 8 && 7 < op % 16 < 0xE) || (op / 4096 == 8 && op % 16 == 0xF)
            || (op / 4096 == 9 && op % 16 != 0)
            || (op / 4096 == 0xE && op % 256 != 0x9E && op % 256 != 0xA1)
            || (op / 4096 == 0xF && op % 256 != 0x07 && op % 256 != 0x0A && op % 256 != 0x15
                && op % 256 != 0x18 && op % 256 != 0x1E && op % 256 != 0x29 && op % 256 != 0x33
                && op % 256 != 0x55 && op % 256 != 0x65),
    ensures
        can_step(m, op),
        step(m, op, rnd) == (Machine { pc: (m.pc + 2) as u16, ..m }),
{
}

// ---- drawing --------------------------------------------------------------

/// Whether the sprite at `I` has the pixel of row `k`, column `b` set: bit
/// `b` of byte `k`, counted from the most significant bit.
pub open spec fn sprite_pixel_set(m: Machine, k: int, b: int) -> bool {
    (m.memory[m.reg_i + k] >> ((7 - b) as usize)) & 1u8 == 1u8
}

/// Whether drawing the `n`-row sprite with its corner at `(vx, vy)` turns off
/// a lit pixel at sprite row `k`, column `b`.
pub open spec fn erases(m: Machine, vx: int, vy: int, k: int, b: int) -> bool {
    &&& sprite_pixel_set(m, k, b)
    &&& m.display[(vy + k) % 32][(vx + b) % 64] & 1u8 == 1u8
}

/// The sprite row that lands on display row `row` when the sprite's top is
/// at `vy`, wrapping round the display.
pub open spec fn sprite_row_at(vy: int, row: int) -> int {
    (row - vy) % 32
}

/// The sprite column that lands on display column `col` when the sprite's
/// left edge is at `vx`, wrapping round the display.
pub open spec fn sprite_col_at(vx: int, col: int) -> int {
    (col - vx) % 64
}

proof fn lemma_row_wrap(v: int, k: int)
    requires
        0 <= v,
        0 <= k < 32,
    ensures
        ((v + k) % 32 - v) % 32 == k,
{
}

proof fn lemma_row_unwrap(v: int, row: int)
    requires
        0 <= v,
        0 <= row < 32,
    ensures
        (v + (row - v) % 32) % 32 == row,
{
}

proof fn lemma_col_wrap(v: int, b: int)
    requires
        0 <= v,
        0 <= b < 64,
    ensures
        ((v + b) % 64 - v) % 64 == b,
{
}

proof fn lemma_col_unwrap(v: int, col: int)
    requires
        0 <= v,
        0 <= col < 64,
    ensures
        (v + (col - v) % 64) % 64 == col,
{
}

/// The display after the first `done` sprite pixels (row by row, eight per
/// row) have been drawn: each position they cover is flipped where the
/// sprite bit is set, and every other position is as in `m`.
spec fn display_after(d: Machine, m: Machine, vx: int, vy: int, n: int, done: int) -> bool {
    forall|row: int, col: int|
        0 <= row < 32 && 0 <= col < 64 ==> #[trigger] d.display[row][col] == {
            let k = sprite_row_at(vy, row);
            let b = sprite_col_at(vx, col);
            if k < n && b < 8 && k * 8 + b < done && sprite_pixel_set(m, k, b) {
                m.display[row][col] ^ 1u8
            } else {
                m.display[row][col]
            }
        }
}

/// `VF` after the first `done` sprite pixels: 1 exactly when one of them
/// turned off a lit pixel.
spec fn flag_after(d: Machine, m: Machine, vx: int, vy: int, n: int, done: int) -> bool {
    &&& d.reg_v[FLAG as int] <= 1
    &&& (d.reg_v[FLAG as int] == 1) == (exists|k: int, b: int|
        0 <= k < n && 0 <= b < 8 && k * 8 + b < done && #[trigger] erases(m, vx, vy, k, b))
}

spec fn draw_invariant(d: Machine, m: Machine, vx: int, vy: int, n: int, done: int) -> bool {
    &&& d.wf()
    &&& d.memory == m.memory
    &&& d.reg_i == m.reg_i
    &&& registers_kept_but(d, m, FLAG as int, FLAG as int)
    &&& display_after(d, m, vx, vy, n, done)
    &&& flag_after(d, m, vx, vy, n, done)
}

proof fn lemma_draw_row_invariant(d: Machine, m: Machine, vx: int, vy: int, n: int, k: int, bits: nat)
    requires
        m.wf(),
        0 <= vx,
        0 <= vy,
        0 <= k < n <= 16,
        bits <= 8,
        draw_invariant(d, m, vx, vy, n, k * 8),
    ensures
        draw_invariant(draw_row(d, vx, (vy + k) % 32, k, bits), m, vx, vy, n, k * 8 + bits),
    decreases bits,
{
    let row_k = (vy + k) % 32;
    if bits > 0 {
        let b = bits - 1;
        lemma_draw_row_invariant(d, m, vx, vy, n, k, (bits - 1) as nat);
        let e = draw_row(d, vx, row_k, k, (bits - 1) as nat);
        lemma_draw_row_frame(d, vx, row_k, k, (bits - 1) as nat);
        lemma_draw_row_wf(d, vx, row_k, k, (bits - 1) as nat);
        let f = draw_pixel(e, vx, row_k, k, b);
        lemma_draw_row_wf(d, vx, row_k, k, bits);
        let col = (vx + b) % 64;
        let sbit = sprite_bit(e, k, b);
        let byte = m.memory[m.reg_i + k];
        let sh = (7 - b) as usize;
        assert(sbit == (byte >> sh) & 1u8);
        assert((byte >> sh) & 1u8 <= 1) by (bit_vector);
        lemma_row_wrap(vy, k);
        lemma_col_wrap(vx, b);
        assert(sprite_row_at(vy, row_k) == k);
        assert(sprite_col_at(vx, col) == b);
        let p = e.display[row_k][col];
        assert(p == m.display[row_k][col]);
        assert(display_after(f, m, vx, vy, n, k * 8 + bits)) by {
            assert forall|row: int, c: int| 0 <= row < 32 && 0 <= c < 64 implies #[trigger] f.display[row][c] == {
                let kk = sprite_row_at(vy, row);
                let bb = sprite_col_at(vx, c);
                if kk < n && bb < 8 && kk * 8 + bb < k * 8 + bits && sprite_pixel_set(m, kk, bb) {
                    m.display[row][c] ^ 1u8
                } else {
                    m.display[row][c]
                }
            } by {
                let kk = sprite_row_at(vy, row);
                let bb = sprite_col_at(vx, c);
                lemma_row_unwrap(vy, row);
                lemma_col_unwrap(vx, c);
                assert(e.display[row][c] == {
                    if kk < n && bb < 8 && kk * 8 + bb < k * 8 + b && sprite_pixel_set(m, kk, bb) {
                        m.display[row][c] ^ 1u8
                    } else {
                        m.display[row][c]
                    }
                });
                if row == row_k && c == col {
                    assert(p ^ 0u8 == p && (sbit == 1u8 ==> p ^ sbit == p ^ 1u8)) by (bit_vector);
                    assert(sbit <= 1);
                } else {
                    assert(!(kk == k && bb == b));
                }
            }
        }
        assert(flag_after(f, m, vx, vy, n, k * 8 + bits)) by {
            let v = e.reg_v[FLAG as int];
            assert(v <= 1 && sbit <= 1 ==> (v | (p & sbit)) <= 1) by (bit_vector);
            assert(v <= 1 && sbit <= 1 ==> ((v | (p & sbit)) == 1 <==> (v == 1 || (sbit == 1
                && p & 1u8 == 1u8)))) by (bit_vector);
            assert(f.reg_v[FLAG as int] == v | (p & sbit));
            if f.reg_v[FLAG as int] == 1 {
                if v == 1 {
                    let (k2, b2) = choose|k2: int, b2: int|
                        0 <= k2 < n && 0 <= b2 < 8 && k2 * 8 + b2 < k * 8 + b && #[trigger] erases(m, vx, vy, k2, b2);
                    assert(erases(m, vx, vy, k2, b2));
                } else {
                    assert(erases(m, vx, vy, k, b));
                }
            } else {
                assert forall|k2: int, b2: int|
                    0 <= k2 < n && 0 <= b2 < 8 && k2 * 8 + b2 < k * 8 + bits implies !#[trigger] erases(m, vx, vy, k2, b2) by {
                    if k2 * 8 + b2 < k * 8 + b {
                    } else {
                        assert(k2 == k && b2 == b);
                    }
                }
            }
        }
    }
}

proof fn lemma_draw_rows_invariant(d: Machine, m: Machine, vx: int, vy: int, n: int, bytes: nat)
    requires
        m.wf(),
        0 <= vx,
        0 <= vy,
        bytes <= n <= 16,
        draw_invariant(d, m, vx, vy, n, 0),
    ensures
        draw_invariant(draw_rows(d, vx, vy, bytes), m, vx, vy, n, (bytes * 8) as int),
    decreases bytes,
{
    if bytes > 0 {
        let k = bytes - 1;
        lemma_draw_rows_invariant(d, m, vx, vy, n, (bytes - 1) as nat);
        let e = draw_rows(d, vx, vy, (bytes - 1) as nat);
        assert(k * 8 == (bytes - 1) * 8);
        lemma_draw_row_invariant(e, m, vx, vy, n, k, 8);
        assert(k * 8 + 8 == bytes * 8);
    }
}

/// `Dxyn` draws the `n`-row sprite stored at `I` with its corner at the old
/// `(Vx, Vy)`, wrapping round the edges: every display position it covers is
/// flipped exactly where the sprite's bit is set, every other position keeps
/// its pixel, and `VF` becomes 1 exactly when some set sprite bit lands on a
/// lit pixel (0 otherwise). No other register, nor memory, `I`, the timers or
/// the stack, changes.
pub proof fn law_draw(m: Machine, op: u16, rnd: u8)
    requires
        m.wf(),
        op / 4096 == 0xD,
        op % 16 == 0 || m.reg_i + op % 16 <= MEMORY_SIZE,
        m.pc + 2 <= u16::MAX,
    ensures
        can_step(m, op),
        ({
            let s = step(m, op, rnd);
            let n = (op % 16) as int;
            let vx = m.reg_v[((op / 256) % 16) as int] as int;
            let vy = m.reg_v[((op / 16) % 16) as int] as int;
            &&& s.display.len() == DISPLAY_HEIGHT
            &&& forall|row: int| 0 <= row < DISPLAY_HEIGHT ==> (#[trigger] s.display[row]).len() == DISPLAY_WIDTH
            &&& forall|row: int, col: int|
                0 <= row < 32 && 0 <= col < 64 ==> #[trigger] s.display[row][col] == (if sprite_row_at(vy, row)
                    < n && sprite_col_at(vx, col) < 8 && sprite_pixel_set(
                    m,
                    sprite_row_at(vy, row),
                    sprite_col_at(vx, col),
                ) {
                    m.display[row][col] ^ 1u8
                } else {
                    m.display[row][col]
                })
            &&& s.reg_v[FLAG as int] <= 1
            &&& (s.reg_v[FLAG as int] == 1) == (exists|k: int, b: int|
                0 <= k < n && 0 <= b < 8 && #[trigger] erases(m, vx, vy, k, b))
            &&& registers_kept_but(s, m, FLAG as int, FLAG as int)
            &&& s.display_changed
            &&& s == (Machine {
                reg_v: s.reg_v,
                display: s.display,
                display_changed: true,
                pc: (m.pc + 2) as u16,
                ..m
            })
        }),
{
    let n = (op % 16) as int;
    let vx = m.reg_v[((op / 256) % 16) as int] as int;
    let vy = m.reg_v[((op / 16) % 16) as int] as int;
    let d = m.set_reg(FLAG as int, 0);
    assert(draw_invariant(d, m, vx, vy, n, 0)) by {
        assert(display_after(d, m, vx, vy, n, 0));
    }
    lemma_draw_rows_invariant(d, m, vx, vy, n, n as nat);
    lemma_draw_rows_frame(d, vx, vy, n as nat);
    let e = draw_rows(d, vx, vy, n as nat);
    let s = step(m, op, rnd);
    assert(s.display == e.display);
    assert forall|row: int, col: int| 0 <= row < 32 && 0 <= col < 64 implies #[trigger] s.display[row][col]
        == (if sprite_row_at(vy, row) < n && sprite_col_at(vx, col) < 8 && sprite_pixel_set(
        m,
        sprite_row_at(vy, row),
        sprite_col_at(vx, col),
    ) {
        m.display[row][col] ^ 1u8
    } else {
        m.display[row][col]
    }) by {
        let k = sprite_row_at(vy, row);
        let b = sprite_col_at(vx, col);
        assert(e.display[row][col] == (if k < n && b < 8 && k * 8 + b < n * 8 && sprite_pixel_set(m, k, b) {
            m.display[row][col] ^ 1u8
        } else {
            m.display[row][col]
        }));
        assert(k < n && b < 8 ==> k * 8 + b < n * 8);
    }
    if s.reg_v[FLAG as int] == 1 {
        let (k, b) = choose|k: int, b: int| 0 <= k < n && 0 <= b < 8 && k * 8 + b < n * 8 && #[trigger] erases(m, vx, vy, k, b);
        assert(erases(m, vx, vy, k, b));
    } else {
        assert forall|k: int, b: int| 0 <= k < n && 0 <= b < 8 implies !#[trigger] erases(m, vx, vy, k, b) by {
            assert(k * 8 + b < n * 8);
        }
    }
}

// ---- cycles, keys and start-up ---------------------------------------------

/// A cycle executes the word whose high byte is at the program counter and
/// whose low byte follows it, then counts each timer down by one unless it is
/// already zero.
pub proof fn law_cycle(m: Machine, rnd: u8)
    requires
        m.wf(),
        can_cycle(m),
    ensures
        ({
            let op = (m.memory[m.pc as int] * 256 + m.memory[m.pc + 1]) as u16;
            let s = step(m, op, rnd);
            &&& can_step(m, op)
            &&& cycle_step(m, rnd) == (Machine {
                delay_timer: if s.delay_timer == 0 { 0 } else { (s.delay_timer - 1) as u8 },
                sound_timer: if s.sound_timer == 0 { 0 } else { (s.sound_timer - 1) as u8 },
                ..s
            })
        }),
{
}

/// A key report ends a pending wait exactly when it names a key (1 to 16); the
/// key's digit (one less) then goes to the waiting register and to `keycode`.
/// Otherwise nothing changes.
pub proof fn law_receive_key(m: Machine)
    requires
        m.wf(),
        m.key_register < 16,
    ensures
        ({
            let s = receive_key(m);
            if m.keyboard_blocking && 1 <= m.key_clicked <= 16 {
                &&& !s.keyboard_blocking
                &&& s.keycode == m.key_clicked - 1
                &&& s.reg_v[m.key_register as int] == m.key_clicked - 1
                &&& registers_kept_but(s, m, m.key_register as int, m.key_register as int)
                &&& s == (Machine { reg_v: s.reg_v, keycode: s.keycode, keyboard_blocking: false, ..m })
            } else {
                s == m
            }
        }),
{
}

/// The interpreter starts at address 0 with every register, timer and stack
/// slot zero, nothing waiting, the display dark, and the program at `0x200`
/// onwards, as much of it as fits in memory; memory between the glyphs and
/// the program, and after the program, is zero.
pub proof fn law_start(program: Seq<u8>)
    ensures
        ({
            let m = initial_machine(program);
            &&& m.wf()
            &&& m.pc == 0 && m.sp == 0 && m.reg_i == 0
            &&& m.delay_timer == 0 && m.sound_timer == 0
            &&& !m.keyboard_blocking && !m.display_changed
            &&& forall|j: int| 0 <= j < 16 ==> #[trigger] m.reg_v[j] == 0 && m.stack[j] == 0 && !m.keys[j]
            &&& forall|r: int, c: int| 0 <= r < 32 && 0 <= c < 64 ==> #[trigger] m.display[r][c] == 0
            &&& forall|i: int| 0 <= i < program.len() && 0x200 + i < 4096 ==> #[trigger] m.memory[0x200 + i] == program[i]
            &&& forall|a: int| 80 <= a < 0x200 ==> #[trigger] m.memory[a] == 0
            &&& forall|a: int| 0x200 + program.len() <= a < 4096 ==> #[trigger] m.memory[a] == 0
        }),
{
    let m = initial_machine(program);
    assert forall|r: int| 0 <= r < 32 implies #[trigger] m.display[r].len() == 64 by {}
}

} // verus!
