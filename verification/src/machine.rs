//! The mathematical model of the interpreter: its state as plain sequences and
//! numbers, the meaning of every instruction word, and the effect of executing
//! one instruction.
use vstd::prelude::*;
use crate::opcode::{family_of, kk_of, n_of, nnn_of, x_of, y_of};

verus! {

/// Bytes of addressable memory.
pub const MEMORY_SIZE: usize = 4096;

/// Pixels per display row.
pub const DISPLAY_WIDTH: usize = 64;

/// Rows of the display.
pub const DISPLAY_HEIGHT: usize = 32;

/// Number of general registers `V0` to `VF`, and of stack slots.
pub const REGISTER_COUNT: usize = 16;

/// Address at which a program is loaded.
pub const PROGRAM_START: usize = 0x200;

/// The register that instructions use as a flag.
pub const FLAG: usize = 15;

/// The state of the interpreter.
#[verifier::ext_equal]
pub struct Machine {
    pub reg_v: Seq<u8>,
    pub reg_i: usize,
    pub delay_timer: u8,
    pub sound_timer: u8,
    pub pc: u16,
    pub sp: usize,
    pub stack: Seq<u16>,
    pub memory: Seq<u8>,
    pub display: Seq<Seq<u8>>,
    pub display_changed: bool,
    pub keycode: u8,
    pub keyboard_blocking: bool,
    pub key_register: usize,
    pub keys: Seq<bool>,
    pub key_clicked: u8,
}

/// What an instruction word means.
pub enum Instruction {
    /// `00E0`: clear the display.
    ClearScreen,
    /// `00EE`: return from a subroutine.
    Return,
    /// `1nnn`: jump to `nnn`.
    Jump,
    /// `2nnn`: call the subroutine at `nnn`.
    Call,
    /// `3xkk`: skip the next instruction if `Vx == kk`.
    SkipIfEqualByte,
    /// `4xkk`: skip the next instruction if `Vx != kk`.
    SkipIfNotEqualByte,
    /// `5xy0` (any low digit): skip the next instruction if `Vx == Vy`.
    SkipIfEqualReg,
    /// `6xkk`: `Vx = kk`.
    LoadByte,
    /// `7xkk`: `Vx = Vx + kk`, wrapping.
    AddByte,
    /// `8xy0`: `Vx = Vy`.
    Move,
    /// `8xy1`: `Vx = Vx | Vy`.
    Or,
    /// `8xy2`: `Vx = Vx & Vy`.
    And,
    /// `8xy3`: `Vx = Vx ^ Vy`.
    Xor,
    /// `8xy4`: `VF = carry of Vx + Vy`, then `Vx = Vx + Vy`, wrapping.
    AddReg,
    /// `8xy5`: `VF = (Vx > Vy)`, then `Vx = Vx - Vy`, wrapping.
    SubReg,
    /// `8xy6`: `VF = low bit of Vx`, then `Vx = Vx / 2`.
    ShiftRight,
    /// `8xy7`: `VF = (Vy > Vx)`, then `Vx = Vy - Vx`, wrapping.
    SubReverse,
    /// `8xyE`: `VF = high bit of Vx`, then `Vx = Vx * 2`, wrapping.
    ShiftLeft,
    /// `9xy0`: skip the next instruction if `Vx != Vy`.
    SkipIfNotEqualReg,
    /// `Annn`: `I = nnn`.
    LoadIndex,
    /// `Bnnn`: jump to `nnn + V0`.
    JumpOffset,
    /// `Cxkk`: `Vx = random byte & kk`.
    Random,
    /// `Dxyn`: draw the `n`-byte sprite at `I` at `(Vx, Vy)`; `VF = collision`.
    Draw,
    /// `Ex9E`: skip the next instruction if key `Vx` is held.
    SkipIfPressed,
    /// `ExA1`: skip the next instruction if key `Vx` is not held.
    SkipIfNotPressed,
    /// `Fx07`: `Vx = delay timer`.
    LoadDelay,
    /// `Fx0A`: wait for a key press; the key's digit (0 to F) is stored in `Vx`.
    WaitKey,
    /// `Fx15`: `delay timer = Vx`.
    SetDelay,
    /// `Fx18`: `sound timer = Vx`.
    SetSound,
    /// `Fx1E`: `I = I + Vx`, kept to the twelve bits of an address.
    AddIndex,
    /// `Fx29`: `I = address of the glyph of digit Vx`.
    LoadGlyph,
    /// `Fx33`: store the decimal digits of `Vx` at `I`, `I + 1`, `I + 2`.
    StoreBcd,
    /// `Fx55`: store `V0` to `Vx` at `I` onwards.
    StoreRegs,
    /// `Fx65`: load `V0` to `Vx` from `I` onwards.
    LoadRegs,
    /// Any other word: no effect but moving on to the next instruction.
    Unknown,
}

/// The instruction that a word encodes.
pub open spec fn decode(op: u16) -> Instruction {
    let f = family_of(op);
    let n = n_of(op);
    let kk = kk_of(op);
    if op == 0x00E0 {
        Instruction::ClearScreen
    } else if op == 0x00EE {
        Instruction::Return
    } else if f == 1 {
        Instruction::Jump
    } else if f == 2 {
        Instruction::Call
    } else if f == 3 {
        Instruction::SkipIfEqualByte
    } else if f == 4 {
        Instruction::SkipIfNotEqualByte
    } else if f == 5 {
        Instruction::SkipIfEqualReg
    } else if f == 6 {
        Instruction::LoadByte
    } else if f == 7 {
        Instruction::AddByte
    } else if f == 8 && n == 0 {
        Instruction::Move
    } else if f == 8 && n == 1 {
        Instruction::Or
    } else if f == 8 && n == 2 {
        Instruction::And
    } else if f == 8 && n == 3 {
        Instruction::Xor
    } else if f == 8 && n == 4 {
        Instruction::AddReg
    } else if f == 8 && n == 5 {
        Instruction::SubReg
    } else if f == 8 && n == 6 {
        Instruction::ShiftRight
    } else if f == 8 && n == 7 {
        Instruction::SubReverse
    } else if f == 8 && n == 0xE {
        Instruction::ShiftLeft
    } else if f == 9 && n == 0 {
        Instruction::SkipIfNotEqualReg
    } else if f == 0xA {
        Instruction::LoadIndex
    } else if f == 0xB {
        Instruction::JumpOffset
    } else if f == 0xC {
        Instruction::Random
    } else if f == 0xD {
        Instruction::Draw
    } else if f == 0xE && kk == 0x9E {
        Instruction::SkipIfPressed
    } else if f == 0xE && kk == 0xA1 {
        Instruction::SkipIfNotPressed
    } else if f == 0xF && kk == 0x07 {
        Instruction::LoadDelay
    } else if f == 0xF && kk == 0x0A {
        Instruction::WaitKey
    } else if f == 0xF && kk == 0x15 {
        Instruction::SetDelay
    } else if f == 0xF && kk == 0x18 {
        Instruction::SetSound
    } else if f == 0xF && kk == 0x1E {
        Instruction::AddIndex
    } else if f == 0xF && kk == 0x29 {
        Instruction::LoadGlyph
    } else if f == 0xF && kk == 0x33 {
        Instruction::StoreBcd
    } else if f == 0xF && kk == 0x55 {
        Instruction::StoreRegs
    } else if f == 0xF && kk == 0x65 {
        Instruction::LoadRegs
    } else {
        Instruction::Unknown
    }
}

/// Instructions that set the program counter to an address of their own
/// rather than moving past themselves.
pub open spec fn transfers_control(i: Instruction) -> bool {
    ||| i is Return
    ||| i is Jump
    ||| i is Call
    ||| i is JumpOffset
}

/// A display with every pixel off.
pub open spec fn blank_display() -> Seq<Seq<u8>> {
    Seq::new(DISPLAY_HEIGHT as nat, |r: int| Seq::new(DISPLAY_WIDTH as nat, |c: int| 0u8))
}

impl Machine {
    /// The sizes that the hardware fixes.
    pub open spec fn wf(self) -> bool {
        &&& self.reg_v.len() == REGISTER_COUNT
        &&& self.stack.len() == REGISTER_COUNT
        &&& self.memory.len() == MEMORY_SIZE
        &&& self.keys.len() == REGISTER_COUNT
        &&& self.display.len() == DISPLAY_HEIGHT
        &&& forall|r: int| 0 <= r < DISPLAY_HEIGHT ==> #[trigger] self.display[r].len() == DISPLAY_WIDTH
    }

    pub open spec fn with_pc(self, pc: u16) -> Machine {
        Machine { pc: pc, ..self }
    }

    pub open spec fn set_reg(self, i: int, v: u8) -> Machine {
        Machine { reg_v: self.reg_v.update(i, v), ..self }
    }

    /// Whether key `key` is held down.
    pub open spec fn key_pressed(self, key: u8) -> bool {
        key < 16 && self.keys[key as int]
    }

    /// The word at the program counter: the instruction executed next.
    pub open spec fn fetch(self) -> u16 {
        (self.memory[self.pc as int] * 256 + self.memory[self.pc + 1]) as u16
    }
}

/// Whether the instruction skips the one after it.
pub open spec fn skips(m: Machine, op: u16) -> bool {
    let vx = m.reg_v[x_of(op)];
    let vy = m.reg_v[y_of(op)];
    match decode(op) {
        Instruction::SkipIfEqualByte => vx == kk_of(op),
        Instruction::SkipIfNotEqualByte => vx != kk_of(op),
        Instruction::SkipIfEqualReg => vx == vy,
        Instruction::SkipIfNotEqualReg => vx != vy,
        Instruction::SkipIfPressed => m.key_pressed(vx),
        Instruction::SkipIfNotPressed => !m.key_pressed(vx),
        _ => false,
    }
}

/// How far an instruction that does not transfer control moves the program
/// counter: past itself, or past the next instruction as well.
pub open spec fn advance(m: Machine, op: u16) -> int {
    if skips(m, op) {
        4
    } else {
        2
    }
}

/// The bit of row `byte` of the sprite at `I` for column `bit`, counted from
/// the most significant bit.
pub open spec fn sprite_bit(m: Machine, byte: int, bit: int) -> u8 {
    (m.memory[m.reg_i + byte] >> ((7 - bit) as usize)) & 1u8
}

/// One pixel of a sprite whose left edge is at column `x0`: `VF` records
/// whether a lit pixel is turned off, and the pixel is flipped where the
/// sprite bit is set.
pub open spec fn draw_pixel(m: Machine, x0: int, row: int, byte: int, bit: int) -> Machine {
    let s = sprite_bit(m, byte, bit);
    let col = (x0 + bit) % (DISPLAY_WIDTH as int);
    let p = m.display[row][col];
    Machine {
        reg_v: m.reg_v.update(FLAG as int, m.reg_v[FLAG as int] | (p & s)),
        display: m.display.update(row, m.display[row].update(col, p ^ s)),
        ..m
    }
}

/// The first `bits` pixels of row `byte` of a sprite, drawn on display row `row`.
pub open spec fn draw_row(m: Machine, x0: int, row: int, byte: int, bits: nat) -> Machine
    decreases bits,
{
    if bits == 0 {
        m
    } else {
        draw_pixel(draw_row(m, x0, row, byte, (bits - 1) as nat), x0, row, byte, bits - 1)
    }
}

/// The first `bytes` rows of a sprite whose top left corner is at
/// `(x0, y0)`, each row drawn at the row below `y0` by its index, wrapping
/// round the display.
pub open spec fn draw_rows(m: Machine, x0: int, y0: int, bytes: nat) -> Machine
    decreases bytes,
{
    if bytes == 0 {
        m
    } else {
        let prev = draw_rows(m, x0, y0, (bytes - 1) as nat);
        let row = (y0 + (bytes - 1)) % (DISPLAY_HEIGHT as int);
        draw_row(prev, x0, row, bytes - 1, 8)
    }
}

/// `Dxyn`: read the coordinates `(Vx, Vy)`, clear `VF`, then draw the sprite
/// row by row.
pub open spec fn draw(m: Machine, op: u16) -> Machine {
    Machine {
        display_changed: true,
        ..draw_rows(
            m.set_reg(FLAG as int, 0),
            m.reg_v[x_of(op)] as int,
            m.reg_v[y_of(op)] as int,
            n_of(op) as nat,
        )
    }
}

/// What an instruction that does not transfer control does, apart from
/// moving the program counter. `rnd` is the random byte that `Cxkk` draws.
pub open spec fn effect(m: Machine, op: u16, rnd: u8) -> Machine {
    let x = x_of(op);
    let vx = m.reg_v[x];
    let vy = m.reg_v[y_of(op)];
    let kk = kk_of(op);
    let i = m.reg_i as int;
    match decode(op) {
        Instruction::ClearScreen => Machine { display: blank_display(), display_changed: true, ..m },
        Instruction::LoadByte => m.set_reg(x, kk as u8),
        Instruction::AddByte => m.set_reg(x, ((vx + kk) % 256) as u8),
        Instruction::Move => m.set_reg(x, vy),
        Instruction::Or => m.set_reg(x, vx | vy),
        Instruction::And => m.set_reg(x, vx & vy),
        Instruction::Xor => m.set_reg(x, vx ^ vy),
        Instruction::AddReg => m.set_reg(FLAG as int, if vx + vy > 255 { 1 } else { 0 }).set_reg(
            x,
            ((vx + vy) % 256) as u8,
        ),
        Instruction::SubReg => m.set_reg(FLAG as int, if vx > vy { 1 } else { 0 }).set_reg(
            x,
            ((vx - vy) % 256) as u8,
        ),
        Instruction::ShiftRight => {
            let m1 = m.set_reg(FLAG as int, vx % 2);
            m1.set_reg(x, m1.reg_v[x] / 2)
        },
        Instruction::SubReverse => m.set_reg(FLAG as int, if vy > vx { 1 } else { 0 }).set_reg(
            x,
            ((vy - vx) % 256) as u8,
        ),
        Instruction::ShiftLeft => {
            let m1 = m.set_reg(FLAG as int, if vx >= 128 { 1 } else { 0 });
            m1.set_reg(x, ((m1.reg_v[x] * 2) % 256) as u8)
        },
        Instruction::LoadIndex => Machine { reg_i: nnn_of(op) as usize, ..m },
        Instruction::Random => m.set_reg(x, rnd & (kk as u8)),
        Instruction::Draw => draw(m, op),
        Instruction::LoadDelay => m.set_reg(x, m.delay_timer),
        Instruction::WaitKey => Machine { keyboard_blocking: true, key_register: x as usize, ..m },
        Instruction::SetDelay => Machine { delay_timer: vx, ..m },
        Instruction::SetSound => Machine { sound_timer: vx, ..m },
        Instruction::AddIndex => Machine { reg_i: ((i + vx) % (MEMORY_SIZE as int)) as usize, ..m },
        Instruction::LoadGlyph => Machine { reg_i: (vx * 5) as usize, ..m },
        Instruction::StoreBcd => Machine {
            memory: m.memory.update(i, vx / 100).update(i + 1, (vx % 100) / 10).update(i + 2, vx % 10),
            ..m
        },
        Instruction::StoreRegs => Machine {
            memory: Seq::new(
                m.memory.len(),
                |a: int| if i <= a <= i + x { m.reg_v[a - i] } else { m.memory[a] },
            ),
            ..m
        },
        Instruction::LoadRegs => Machine {
            reg_v: Seq::new(
                m.reg_v.len(),
                |j: int| if j <= x { m.memory[i + j] } else { m.reg_v[j] },
            ),
            ..m
        },
        _ => m,
    }
}

/// The state after executing instruction `op`, where `rnd` is the random
/// byte that `Cxkk` draws (no other instruction reads it).
pub open spec fn step(m: Machine, op: u16, rnd: u8) -> Machine {
    let nnn = nnn_of(op);
    match decode(op) {
        Instruction::Return => Machine { sp: (m.sp - 1) as usize, pc: m.stack[m.sp - 1], ..m },
        Instruction::Jump => m.with_pc(nnn as u16),
        Instruction::Call => Machine {
            stack: m.stack.update(m.sp as int, (m.pc + 2) as u16),
            sp: (m.sp + 1) as usize,
            pc: nnn as u16,
            ..m
        },
        Instruction::JumpOffset => m.with_pc((m.reg_v[0] + nnn) as u16),
        _ => effect(m, op, rnd).with_pc((m.pc + advance(m, op)) as u16),
    }
}

/// The states in which instruction `op` can execute: the interpreter stops
/// with an error on any other (an empty or full stack, a memory access past
/// the end, an index or program counter that would overflow).
pub open spec fn can_step(m: Machine, op: u16) -> bool {
    let vx = m.reg_v[x_of(op)];
    let i = m.reg_i as int;
    match decode(op) {
        Instruction::Return => 1 <= m.sp <= REGISTER_COUNT,
        Instruction::Jump => true,
        Instruction::JumpOffset => true,
        Instruction::Call => m.sp < REGISTER_COUNT && m.pc + 2 <= u16::MAX,
        _ => {
            &&& m.pc + advance(m, op) <= u16::MAX
            &&& decode(op) is Draw ==> (n_of(op) == 0 || i + n_of(op) <= MEMORY_SIZE)
            &&& decode(op) is StoreBcd ==> i + 2 < MEMORY_SIZE
            &&& decode(op) is StoreRegs ==> i + x_of(op) < MEMORY_SIZE
            &&& decode(op) is LoadRegs ==> i + x_of(op) < MEMORY_SIZE
        },
    }
}

/// The timers count down by one per cycle until they reach zero.
pub open spec fn tick_timers(m: Machine) -> Machine {
    Machine {
        delay_timer: if m.delay_timer > 0 { (m.delay_timer - 1) as u8 } else { 0 },
        sound_timer: if m.sound_timer > 0 { (m.sound_timer - 1) as u8 } else { 0 },
        ..m
    }
}

/// One cycle: execute the instruction at the program counter, then count the
/// timers down.
pub open spec fn cycle_step(m: Machine, rnd: u8) -> Machine {
    tick_timers(step(m, m.fetch(), rnd))
}

/// Whether a cycle from `m` may proceed: the interpreter is not waiting for a
/// key, and the instruction word lies in memory and can execute.
pub open spec fn can_cycle(m: Machine) -> bool {
    &&& !m.keyboard_blocking
    &&& m.pc + 1 < MEMORY_SIZE
    &&& can_step(m, m.fetch())
}

/// The host's key report ends a wait for a key when it names a key (numbered
/// 1 to 16 for the digits 0 to F): the key's digit is stored in the register
/// that the waiting `Fx0A` named, and kept as the last key received.
pub open spec fn receive_key(m: Machine) -> Machine {
    if m.keyboard_blocking && 0 < m.key_clicked < 0x11 {
        Machine {
            keyboard_blocking: false,
            keycode: (m.key_clicked - 1) as u8,
            reg_v: if m.key_register < REGISTER_COUNT {
                m.reg_v.update(m.key_register as int, (m.key_clicked - 1) as u8)
            } else {
                m.reg_v
            },
            ..m
        }
    } else {
        m
    }
}

/// Drawing changes nothing but the registers and the display.
pub proof fn lemma_draw_row_frame(m: Machine, x0: int, row: int, byte: int, bits: nat)
    ensures
        ({
            let r = draw_row(m, x0, row, byte, bits);
            r == Machine { reg_v: r.reg_v, display: r.display, ..m }
        }),
    decreases bits,
{
    if bits > 0 {
        lemma_draw_row_frame(m, x0, row, byte, (bits - 1) as nat);
    }
}

/// Drawing changes nothing but the registers and the display.
pub proof fn lemma_draw_rows_frame(m: Machine, x0: int, y0: int, bytes: nat)
    ensures
        ({
            let r = draw_rows(m, x0, y0, bytes);
            r == Machine { reg_v: r.reg_v, display: r.display, ..m }
        }),
    decreases bytes,
{
    if bytes > 0 {
        let prev = draw_rows(m, x0, y0, (bytes - 1) as nat);
        lemma_draw_rows_frame(m, x0, y0, (bytes - 1) as nat);
        let row = (y0 + (bytes - 1)) % (DISPLAY_HEIGHT as int);
        lemma_draw_row_frame(prev, x0, row, bytes - 1, 8);
    }
}

/// Drawing keeps the sizes of the state.
pub proof fn lemma_draw_row_wf(m: Machine, x0: int, row: int, byte: int, bits: nat)
    requires
        m.wf(),
        0 <= row < DISPLAY_HEIGHT,
    ensures
        draw_row(m, x0, row, byte, bits).wf(),
    decreases bits,
{
    if bits > 0 {
        lemma_draw_row_wf(m, x0, row, byte, (bits - 1) as nat);
        let prev = draw_row(m, x0, row, byte, (bits - 1) as nat);
        let r = draw_pixel(prev, x0, row, byte, bits - 1);
        assert forall|k: int| 0 <= k < DISPLAY_HEIGHT implies #[trigger] r.display[k].len()
            == DISPLAY_WIDTH by {
            assert(prev.display[k].len() == DISPLAY_WIDTH);
        }
    }
}

/// Drawing keeps the sizes of the state.
pub proof fn lemma_draw_wf(m: Machine, x0: int, y0: int, bytes: nat)
    requires
        m.wf(),
    ensures
        draw_rows(m, x0, y0, bytes).wf(),
    decreases bytes,
{
    if bytes > 0 {
        lemma_draw_wf(m, x0, y0, (bytes - 1) as nat);
        let prev = draw_rows(m, x0, y0, (bytes - 1) as nat);
        let row = (y0 + (bytes - 1)) % (DISPLAY_HEIGHT as int);
        lemma_draw_row_wf(prev, x0, row, bytes - 1, 8);
    }
}

} // verus!
