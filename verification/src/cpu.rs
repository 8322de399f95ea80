//! The interpreter: its registers, memory and display, and the execution of
//! instructions on them.
use vstd::prelude::*;
use vstd::arithmetic::div_mod::lemma_add_mod_noop;
use crate::font::{glyphs, FontSet};
use crate::keyboard::Keyboard;
use crate::random::random_byte;
use crate::machine::{
    advance, blank_display, can_cycle, can_step, cycle_step, decode, draw_row, draw_rows,
    lemma_draw_row_frame, lemma_draw_rows_frame, receive_key, skips, step, Machine,
    DISPLAY_HEIGHT, DISPLAY_WIDTH, FLAG, MEMORY_SIZE, PROGRAM_START, REGISTER_COUNT,
};
use crate::opcode::{get_kk, get_n, get_nnn, get_x, get_y, n_of, x_of, y_of};

verus! {

/// What one cycle hands to the host: the display, whether an instruction drew
/// on it, and whether the tone is to sound during this cycle.
pub struct Output<'a> {
    pub display_memory: &'a [[u8; DISPLAY_WIDTH]; DISPLAY_HEIGHT],
    pub display_changed: bool,
    pub play_sound: bool,
}

/// The interpreter: sixteen registers `V0` to `VF`, the index register `I`,
/// the two timers, the program counter, the call stack, memory, the keypad and
/// the display, and the state of a wait for a key (whether one is pending, the
/// register it fills, and the last key received).
pub struct CPU {
    pub reg_v: [u8; REGISTER_COUNT],
    /// The index register `I`: an address in memory, of which only the
    /// right-most twelve bits are used.
    pub reg_i: usize,
    pub delay_timer: u8,
    pub sound_timer: u8,
    pub pc: u16,
    pub sp: usize,
    pub stack: [u16; REGISTER_COUNT],
    pub memory: [u8; MEMORY_SIZE],
    pub keyboard: Keyboard,
    pub display_memory: [[u8; DISPLAY_WIDTH]; DISPLAY_HEIGHT],
    pub display_changed: bool,
    pub keycode: u8,
    pub keyboard_blocking: bool,
    /// The register that receives the key when a wait for a key ends.
    pub key_register: usize,
}

/// The display as rows of pixels.
pub open spec fn display_view(d: [[u8; DISPLAY_WIDTH]; DISPLAY_HEIGHT]) -> Seq<Seq<u8>> {
    d@.map_values(|row: [u8; DISPLAY_WIDTH]| row@)
}

impl View for CPU {
    type V = Machine;

    open spec fn view(&self) -> Machine {
        Machine {
            reg_v: self.reg_v@,
            reg_i: self.reg_i,
            delay_timer: self.delay_timer,
            sound_timer: self.sound_timer,
            pc: self.pc,
            sp: self.sp,
            stack: self.stack@,
            memory: self.memory@,
            display: display_view(self.display_memory),
            display_changed: self.display_changed,
            keycode: self.keycode,
            keyboard_blocking: self.keyboard_blocking,
            key_register: self.key_register,
            keys: self.keyboard.pressed@,
            key_clicked: self.keyboard.key_clicked,
        }
    }
}

/// Memory as the interpreter starts: the glyphs at address 0, the program
/// from `PROGRAM_START` on, as much of it as fits, and zero elsewhere.
pub open spec fn initial_memory(program: Seq<u8>) -> Seq<u8> {
    Seq::new(
        MEMORY_SIZE as nat,
        |a: int|
            if a < glyphs().len() {
                glyphs()[a]
            } else if PROGRAM_START <= a < PROGRAM_START + program.len() {
                program[a - PROGRAM_START]
            } else {
                0u8
            },
    )
}

/// The state in which the interpreter starts on `program`.
pub open spec fn initial_machine(program: Seq<u8>) -> Machine {
    Machine {
        reg_v: Seq::new(REGISTER_COUNT as nat, |i: int| 0u8),
        reg_i: 0,
        delay_timer: 0,
        sound_timer: 0,
        pc: 0,
        sp: 0,
        stack: Seq::new(REGISTER_COUNT as nat, |i: int| 0u16),
        memory: initial_memory(program),
        display: blank_display(),
        display_changed: false,
        keycode: 0,
        keyboard_blocking: false,
        key_register: 0,
        keys: Seq::new(REGISTER_COUNT as nat, |i: int| false),
        key_clicked: 0,
    }
}

impl CPU {
    /// The sizes of the state are those of the hardware.
    pub proof fn lemma_wf(&self)
        ensures
            self@.wf(),
    {
        assert forall|r: int| 0 <= r < DISPLAY_HEIGHT implies #[trigger] self@.display[r].len()
            == DISPLAY_WIDTH by {
            assert(self@.display[r] == self.display_memory@[r]@);
        }
    }

    /// An interpreter with the glyphs and `file_buffer` loaded, everything
    /// else zero. The part of the program that does not fit in memory is
    /// left out.
    pub fn new(file_buffer: &[u8]) -> (cpu: CPU)
        ensures
            cpu@ == initial_machine(file_buffer@),
    {
        let mut memory = [0u8; MEMORY_SIZE];
        let font_set = FontSet::new();
        for i in 0..80
            invariant
                font_set.set@ == glyphs(),
                forall|a: int| 0 <= a < i ==> memory@[a] == glyphs()[a],
                forall|a: int| i <= a < MEMORY_SIZE ==> memory@[a] == 0,
        {
            memory[i] = font_set.set[i];
        }
        let mut i: usize = 0;
        while i < file_buffer.len() && i < MEMORY_SIZE - PROGRAM_START
            invariant
                i <= file_buffer.len(),
                i <= MEMORY_SIZE - PROGRAM_START,
                forall|a: int| 0 <= a < 80 ==> memory@[a] == glyphs()[a],
                forall|a: int| 80 <= a < PROGRAM_START ==> memory@[a] == 0,
                forall|a: int|
                    PROGRAM_START <= a < PROGRAM_START + i ==> memory@[a]
                        == file_buffer@[a - PROGRAM_START],
                forall|a: int| PROGRAM_START + i <= a < MEMORY_SIZE ==> memory@[a] == 0,
            decreases file_buffer.len() - i,
        {
            let address = PROGRAM_START + i;
            memory[address] = file_buffer[i];
            i = i + 1;
        }
        let cpu = CPU {
            reg_v: [0; REGISTER_COUNT],
            reg_i: 0,
            delay_timer: 0,
            sound_timer: 0,
            pc: 0x000,
            sp: 0,
            stack: [0x000; REGISTER_COUNT],
            memory,
            keyboard: Keyboard::new(),
            display_memory: [[0; DISPLAY_WIDTH]; DISPLAY_HEIGHT],
            display_changed: false,
            keycode: 0x0,
            keyboard_blocking: false,
            key_register: 0,
        };
        assert(cpu@.memory =~= initial_memory(file_buffer@));
        assert(cpu@.display =~= blank_display()) by {
            assert forall|r: int| 0 <= r < DISPLAY_HEIGHT implies #[trigger] cpu@.display[r]
                =~= blank_display()[r] by {
                assert(cpu.display_memory@[r] == [0u8; DISPLAY_WIDTH]);
            }
        }
        assert(cpu@.reg_v =~= initial_machine(file_buffer@).reg_v);
        assert(cpu@.stack =~= initial_machine(file_buffer@).stack);
        assert(cpu@.keys =~= initial_machine(file_buffer@).keys);
        cpu
    }
}


/// The display with every pixel off, as the array the interpreter holds.
proof fn lemma_blank_display(d: [[u8; DISPLAY_WIDTH]; DISPLAY_HEIGHT])
    requires
        d == [[0u8; DISPLAY_WIDTH]; DISPLAY_HEIGHT],
    ensures
        display_view(d) == blank_display(),
{
    assert forall|r: int| 0 <= r < DISPLAY_HEIGHT implies #[trigger] display_view(d)[r]
        =~= blank_display()[r] by {
        assert(d@[r] == [0u8; DISPLAY_WIDTH]);
    }
    assert(display_view(d) =~= blank_display());
}

impl CPU {
    /// `1nnn`: jump to `nnn`.
    fn handle_1nnn(&mut self, opcode: u16) -> (next: u16)
        requires
            decode(opcode) is Jump,
        ensures
            final(self)@.with_pc(next) == step(old(self)@, opcode, 0),
            final(self).pc == next,
    {
        proof {
            assert(opcode & 0x0fff == opcode % 4096) by (bit_vector);
        }
        self.pc = opcode & 0x0fff;
        self.pc
    }

    /// `00E0`: clear the display.
    fn handle_cls(&mut self) -> (next: u16)
        requires
            can_step(old(self)@, 0x00E0),
        ensures
            final(self)@.with_pc(next) == step(old(self)@, 0x00E0, 0),
            final(self).pc == old(self).pc,
    {
        self.display_memory = [[0; DISPLAY_WIDTH]; DISPLAY_HEIGHT];
        proof {
            lemma_blank_display(self.display_memory);
        }
        self.display_changed = true;
        self.pc + 2
    }

    /// `00EE`: return from a subroutine, to the address on top of the stack.
    fn handle_ret(&mut self) -> (next: u16)
        requires
            can_step(old(self)@, 0x00EE),
        ensures
            final(self)@.with_pc(next) == step(old(self)@, 0x00EE, 0),
            final(self).pc == next,
    {
        self.sp -= 1;
        self.pc = self.stack[self.sp];
        self.pc
    }

    /// `2nnn`: call the subroutine at `nnn`. The address of the next
    /// instruction goes on top of the stack; the program counter becomes `nnn`.
    fn handle_2nnn(&mut self, opcode: u16) -> (next: u16)
        requires
            decode(opcode) is Call,
            can_step(old(self)@, opcode),
        ensures
            final(self)@.with_pc(next) == step(old(self)@, opcode, 0),
            final(self).pc == next,
    {
        self.stack[self.sp] = self.pc + 2;
        self.sp += 1;
        self.pc = get_nnn(opcode) as u16;
        self.pc
    }

    /// `3xkk`: skip the next instruction if `Vx == kk`.
    fn handle_3xkk(&mut self, opcode: u16) -> (next: u16)
        requires
            decode(opcode) is SkipIfEqualByte,
            can_step(old(self)@, opcode),
        ensures
            final(self)@.with_pc(next) == step(old(self)@, opcode, 0),
            final(self).pc == old(self).pc,
    {
        proof {
            assert((opcode & 0x00ff) as u8 == opcode % 256) by (bit_vector);
        }
        let kk = (opcode & 0x00ff) as u8;
        let vx = self.reg_v[get_x(opcode)] as u8;
        if vx == kk {
            return self.pc + 4;
        }
        self.pc + 2
    }

    /// `4xkk`: skip the next instruction if `Vx != kk`.
    fn handle_4xkk(&mut self, opcode: u16) -> (next: u16)
        requires
            decode(opcode) is SkipIfNotEqualByte,
            can_step(old(self)@, opcode),
        ensures
            final(self)@.with_pc(next) == step(old(self)@, opcode, 0),
            final(self).pc == old(self).pc,
    {
        let kk = get_kk(opcode);
        let x = get_x(opcode);
        if self.reg_v[x] as usize == kk {
            return self.pc + 2;
        }
        self.pc + 4
    }

    /// `5xy0`: skip the next instruction if `Vx == Vy`.
    fn handle_5xy0(&mut self, opcode: u16) -> (next: u16)
        requires
            decode(opcode) is SkipIfEqualReg,
            can_step(old(self)@, opcode),
        ensures
            final(self)@.with_pc(next) == step(old(self)@, opcode, 0),
            final(self).pc == old(self).pc,
    {
        if self.reg_v[get_x(opcode)] == self.reg_v[get_y(opcode)] {
            return self.pc + 4;
        }
        self.pc + 2
    }

    /// `6xkk`: `Vx = kk`.
    fn handle_6xkk(&mut self, opcode: u16) -> (next: u16)
        requires
            decode(opcode) is LoadByte,
            can_step(old(self)@, opcode),
        ensures
            final(self)@.with_pc(next) == step(old(self)@, opcode, 0),
            final(self).pc == old(self).pc,
    {
        self.reg_v[get_x(opcode)] = get_kk(opcode) as u8;
        self.pc + 2
    }

    /// `7xkk`: `Vx = Vx + kk`, keeping the low eight bits.
    fn handle_7xkk(&mut self, opcode: u16) -> (next: u16)
        requires
            decode(opcode) is AddByte,
            can_step(old(self)@, opcode),
        ensures
            final(self)@.with_pc(next) == step(old(self)@, opcode, 0),
            final(self).pc == old(self).pc,
    {
        let result = get_kk(opcode) as u16 + self.reg_v[get_x(opcode)] as u16;
        proof {
            assert(result as u8 == result % 256) by (bit_vector);
        }
        self.reg_v[get_x(opcode)] = result as u8;
        self.pc + 2
    }

    /// `8xy0`: `Vx = Vy`.
    fn handle_8xy0(&mut self, opcode: u16) -> (next: u16)
        requires
            decode(opcode) is Move,
            can_step(old(self)@, opcode),
        ensures
            final(self)@.with_pc(next) == step(old(self)@, opcode, 0),
            final(self).pc == old(self).pc,
    {
        self.reg_v[get_x(opcode)] = self.reg_v[get_y(opcode)];
        self.pc + 2
    }

    /// `8xy1`: `Vx = Vx | Vy`.
    fn handle_8xy1(&mut self, opcode: u16) -> (next: u16)
        requires
            decode(opcode) is Or,
            can_step(old(self)@, opcode),
        ensures
            final(self)@.with_pc(next) == step(old(self)@, opcode, 0),
            final(self).pc == old(self).pc,
    {
        let x = get_x(opcode);
        self.reg_v[x] = self.reg_v[x] | self.reg_v[get_y(opcode)];
        self.pc + 2
    }

    /// `8xy2`: `Vx = Vx & Vy`.
    fn handle_8xy2(&mut self, opcode: u16) -> (next: u16)
        requires
            decode(opcode) is And,
            can_step(old(self)@, opcode),
        ensures
            final(self)@.with_pc(next) == step(old(self)@, opcode, 0),
            final(self).pc == old(self).pc,
    {
        let x = get_x(opcode);
        self.reg_v[x] = self.reg_v[x] & self.reg_v[get_y(opcode)];
        self.pc + 2
    }

    /// `8xy3`: `Vx = Vx ^ Vy`.
    fn handle_8xy3(&mut self, opcode: u16) -> (next: u16)
        requires
            decode(opcode) is Xor,
            can_step(old(self)@, opcode),
        ensures
            final(self)@.with_pc(next) == step(old(self)@, opcode, 0),
            final(self).pc == old(self).pc,
    {
        let x = get_x(opcode);
        self.reg_v[x] = self.reg_v[x] ^ self.reg_v[get_y(opcode)];
        self.pc + 2
    }

    /// `8xy4`: `VF` is set to 1 if `Vx + Vy` exceeds 255 and to 0 otherwise;
    /// then `Vx` keeps the low eight bits of the sum.
    fn handle_8xy4(&mut self, opcode: u16) -> (next: u16)
        requires
            decode(opcode) is AddReg,
            can_step(old(self)@, opcode),
        ensures
            final(self)@.with_pc(next) == step(old(self)@, opcode, 0),
            final(self).pc == old(self).pc,
    {
        let val = self.reg_v[get_x(opcode)] as u16 + self.reg_v[get_y(opcode)] as u16;
        if (val as usize) > 255 {
            self.reg_v[FLAG] = 1;
        } else {
            self.reg_v[FLAG] = 0;
        }
        proof {
            assert(val as u8 == val % 256) by (bit_vector);
        }
        self.reg_v[get_x(opcode)] = val as u8;
        self.pc + 2
    }

    /// `8xy5`: `VF` is set to 1 if `Vx > Vy` and to 0 otherwise; then
    /// `Vx = Vx - Vy`, wrapping.
    fn handle_8xy5(&mut self, opcode: u16) -> (next: u16)
        requires
            decode(opcode) is SubReg,
            can_step(old(self)@, opcode),
        ensures
            final(self)@.with_pc(next) == step(old(self)@, opcode, 0),
            final(self).pc == old(self).pc,
    {
        let v_x = self.reg_v[get_x(opcode)];
        let v_y = self.reg_v[get_y(opcode)];
        if v_x > v_y {
            self.reg_v[FLAG] = 1;
        } else {
            self.reg_v[FLAG] = 0;
        }
        self.reg_v[get_x(opcode)] = v_x.wrapping_sub(v_y);
        self.pc + 2
    }

    /// `8xy6`: `VF` takes the low bit of `Vx`; then `Vx` is halved.
    fn handle_8xy6(&mut self, opcode: u16) -> (next: u16)
        requires
            decode(opcode) is ShiftRight,
            can_step(old(self)@, opcode),
        ensures
            final(self)@.with_pc(next) == step(old(self)@, opcode, 0),
            final(self).pc == old(self).pc,
    {
        let v_x = self.reg_v[get_x(opcode)];
        let least_sig_bit = v_x & 0x1;
        proof {
            assert(v_x & 0x1 == v_x % 2) by (bit_vector);
        }
        if least_sig_bit == 1 {
            self.reg_v[FLAG] = 1;
        } else {
            self.reg_v[FLAG] = 0;
        }
        let x = get_x(opcode);
        let r = self.reg_v[x];
        proof {
            assert(r >> 1u8 == r / 2) by (bit_vector);
        }
        self.reg_v[x] = r >> 1u8;
        self.pc + 2
    }

    /// `8xy7`: `VF` is set to 1 if `Vy > Vx` and to 0 otherwise; then
    /// `Vx = Vy - Vx`, wrapping.
    fn handle_8xy7(&mut self, opcode: u16) -> (next: u16)
        requires
            decode(opcode) is SubReverse,
            can_step(old(self)@, opcode),
        ensures
            final(self)@.with_pc(next) == step(old(self)@, opcode, 0),
            final(self).pc == old(self).pc,
    {
        let v_y = self.reg_v[get_y(opcode)];
        let v_x = self.reg_v[get_x(opcode)];
        if v_y > v_x {
            self.reg_v[FLAG] = 1;
        } else {
            self.reg_v[FLAG] = 0;
        }
        self.reg_v[get_x(opcode)] = v_y.wrapping_sub(v_x);
        self.pc + 2
    }

    /// `8xyE`: `VF` takes the high bit of `Vx`; then `Vx` is doubled,
    /// keeping the low eight bits.
    fn handle_8xye(&mut self, opcode: u16) -> (next: u16)
        requires
            decode(opcode) is ShiftLeft,
            can_step(old(self)@, opcode),
        ensures
            final(self)@.with_pc(next) == step(old(self)@, opcode, 0),
            final(self).pc == old(self).pc,
    {
        let v_x = self.reg_v[get_x(opcode)] & 0b1000_0000;
        let most_sig_bit = v_x >> 7u8;
        proof {
            let w = self.reg_v[x_of(opcode)];
            assert(((w & 0x80) >> 7u8 == 1) == (w >= 128)) by (bit_vector);
        }
        if most_sig_bit == 1 {
            self.reg_v[FLAG] = 1;
        } else {
            self.reg_v[FLAG] = 0;
        }
        let x = get_x(opcode);
        let r = self.reg_v[x];
        proof {
            assert(r << 1u8 == (r * 2) % 256) by (bit_vector);
        }
        self.reg_v[x] = r << 1u8;
        self.pc + 2
    }

    /// `9xy0`: skip the next instruction if `Vx != Vy`.
    fn handle_9xy0(&mut self, opcode: u16) -> (next: u16)
        requires
            decode(opcode) is SkipIfNotEqualReg,
            can_step(old(self)@, opcode),
        ensures
            final(self)@.with_pc(next) == step(old(self)@, opcode, 0),
            final(self).pc == old(self).pc,
    {
        if self.reg_v[get_x(opcode)] != self.reg_v[get_y(opcode)] {
            return self.pc + 4;
        }
        self.pc + 2
    }

    /// `Annn`: `I = nnn`.
    fn handle_annn(&mut self, opcode: u16) -> (next: u16)
        requires
            decode(opcode) is LoadIndex,
            can_step(old(self)@, opcode),
        ensures
            final(self)@.with_pc(next) == step(old(self)@, opcode, 0),
            final(self).pc == old(self).pc,
    {
        self.reg_i = get_nnn(opcode);
        self.pc + 2
    }

    /// `Bnnn`: jump to `nnn + V0`.
    fn handle_bnnn(&mut self, opcode: u16) -> (next: u16)
        requires
            decode(opcode) is JumpOffset,
        ensures
            final(self)@.with_pc(next) == step(old(self)@, opcode, 0),
            final(self).pc == old(self).pc,
    {
        let pc = (self.reg_v[0] as usize) + get_nnn(opcode);
        pc as u16
    }

    /// `Cxkk`: `Vx = random_byte & kk`.
    fn handle_cxkk(&mut self, opcode: u16, random_byte: u8) -> (next: u16)
        requires
            decode(opcode) is Random,
            can_step(old(self)@, opcode),
        ensures
            final(self)@.with_pc(next) == step(old(self)@, opcode, random_byte),
            final(self).pc == old(self).pc,
    {
        self.reg_v[get_x(opcode)] = random_byte & get_kk(opcode) as u8;
        self.pc + 2
    }

    /// `Ex9E`: skip the next instruction if key `Vx` is held.
    fn handle_ex9e(&mut self, opcode: u16) -> (next: u16)
        requires
            decode(opcode) is SkipIfPressed,
            can_step(old(self)@, opcode),
        ensures
            final(self)@.with_pc(next) == step(old(self)@, opcode, 0),
            final(self).pc == old(self).pc,
    {
        let is_pressed = self.keyboard.is_key_pressed(self.reg_v[get_x(opcode)]);
        if is_pressed {
            return self.pc + 4;
        }
        self.pc + 2
    }

    /// `ExA1`: skip the next instruction if key `Vx` is not held.
    fn handle_exa1(&mut self, opcode: u16) -> (next: u16)
        requires
            decode(opcode) is SkipIfNotPressed,
            can_step(old(self)@, opcode),
        ensures
            final(self)@.with_pc(next) == step(old(self)@, opcode, 0),
            final(self).pc == old(self).pc,
    {
        let is_pressed = self.keyboard.is_key_pressed(self.reg_v[get_x(opcode)]);
        if is_pressed {
            return self.pc + 2;
        }
        self.pc + 4
    }

    /// `Fx07`: `Vx = delay timer`.
    fn handle_fx07(&mut self, opcode: u16) -> (next: u16)
        requires
            decode(opcode) is LoadDelay,
            can_step(old(self)@, opcode),
        ensures
            final(self)@.with_pc(next) == step(old(self)@, opcode, 0),
            final(self).pc == old(self).pc,
    {
        self.reg_v[get_x(opcode)] = self.delay_timer;
        self.pc + 2
    }

    /// `Fx0A`: wait for a key press. The interpreter blocks until the host
    /// reports a key, which `receive_key` then stores in `Vx`.
    fn handle_fx0a(&mut self, opcode: u16) -> (next: u16)
        requires
            decode(opcode) is WaitKey,
            can_step(old(self)@, opcode),
        ensures
            final(self)@.with_pc(next) == step(old(self)@, opcode, 0),
            final(self).pc == old(self).pc,
    {
        self.keyboard_blocking = true;
        self.key_register = get_x(opcode);
        self.pc + 2
    }

    /// `Fx15`: `delay timer = Vx`.
    fn handle_fx15(&mut self, opcode: u16) -> (next: u16)
        requires
            decode(opcode) is SetDelay,
            can_step(old(self)@, opcode),
        ensures
            final(self)@.with_pc(next) == step(old(self)@, opcode, 0),
            final(self).pc == old(self).pc,
    {
        self.delay_timer = self.reg_v[get_x(opcode)];
        self.pc + 2
    }

    /// `Fx18`: `sound timer = Vx`.
    fn handle_fx18(&mut self, opcode: u16) -> (next: u16)
        requires
            decode(opcode) is SetSound,
            can_step(old(self)@, opcode),
        ensures
            final(self)@.with_pc(next) == step(old(self)@, opcode, 0),
            final(self).pc == old(self).pc,
    {
        self.sound_timer = self.reg_v[get_x(opcode)];
        self.pc + 2
    }

    /// `Fx1E`: `I = I + Vx`, keeping the right-most twelve bits.
    fn handle_fx1e(&mut self, opcode: u16) -> (next: u16)
        requires
            decode(opcode) is AddIndex,
            can_step(old(self)@, opcode),
        ensures
            final(self)@.with_pc(next) == step(old(self)@, opcode, 0),
            final(self).pc == old(self).pc,
    {
        let vx = self.reg_v[get_x(opcode)] as usize;
        let i = (self.reg_i % MEMORY_SIZE + vx) % MEMORY_SIZE;
        proof {
            lemma_add_mod_noop(self.reg_i as int, vx as int, MEMORY_SIZE as int);
        }
        self.reg_i = i;
        self.pc + 2
    }

    /// `Fx29`: `I` is the address of the glyph of digit `Vx`; glyphs are
    /// five bytes long.
    fn handle_fx29(&mut self, opcode: u16) -> (next: u16)
        requires
            decode(opcode) is LoadGlyph,
            can_step(old(self)@, opcode),
        ensures
            final(self)@.with_pc(next) == step(old(self)@, opcode, 0),
            final(self).pc == old(self).pc,
    {
        self.reg_i = (self.reg_v[get_x(opcode)] as usize) * 5;
        self.pc + 2
    }

    /// `Fx33`: store the hundreds, tens and ones digits of `Vx` at `I`,
    /// `I + 1` and `I + 2`.
    fn handle_fx33(&mut self, opcode: u16) -> (next: u16)
        requires
            decode(opcode) is StoreBcd,
            can_step(old(self)@, opcode),
        ensures
            final(self)@.with_pc(next) == step(old(self)@, opcode, 0),
            final(self).pc == old(self).pc,
    {
        let v_x = self.reg_v[get_x(opcode)];
        self.memory[self.reg_i] = v_x / 100;
        self.memory[self.reg_i + 1] = (v_x % 100) / 10;
        self.memory[self.reg_i + 2] = v_x % 10;
        self.pc + 2
    }

    /// `Fx55`: store `V0` to `Vx` in memory from `I` on.
    fn handle_fx55(&mut self, opcode: u16) -> (next: u16)
        requires
            decode(opcode) is StoreRegs,
            can_step(old(self)@, opcode),
        ensures
            final(self)@.with_pc(next) == step(old(self)@, opcode, 0),
            final(self).pc == old(self).pc,
    {
        let ghost m0 = self@;
        let end = get_x(opcode) + 1;
        for x in 0..end
            invariant
                end == x_of(opcode) + 1,
                self@ == (Machine {
                    memory: Seq::new(
                        m0.memory.len(),
                        |a: int|
                            if m0.reg_i <= a < m0.reg_i + x {
                                m0.reg_v[a - m0.reg_i]
                            } else {
                                m0.memory[a]
                            },
                    ),
                    ..m0
                }),
                m0.reg_i + x_of(opcode) < MEMORY_SIZE,
                m0.memory.len() == MEMORY_SIZE,
                m0.reg_v.len() == REGISTER_COUNT,
        {
            self.memory[self.reg_i + x] = self.reg_v[x];
            assert(self@.memory =~= Seq::new(
                m0.memory.len(),
                |a: int|
                    if m0.reg_i <= a < m0.reg_i + x + 1 {
                        m0.reg_v[a - m0.reg_i]
                    } else {
                        m0.memory[a]
                    },
            ));
        }
        self.pc + 2
    }

    /// `Fx65`: load `V0` to `Vx` from memory from `I` on.
    fn handle_fx65(&mut self, opcode: u16) -> (next: u16)
        requires
            decode(opcode) is LoadRegs,
            can_step(old(self)@, opcode),
        ensures
            final(self)@.with_pc(next) == step(old(self)@, opcode, 0),
            final(self).pc == old(self).pc,
    {
        let ghost m0 = self@;
        let end = get_x(opcode) + 1;
        for x in 0..end
            invariant
                end == x_of(opcode) + 1,
                self@ == (Machine {
                    reg_v: Seq::new(
                        m0.reg_v.len(),
                        |j: int| if j < x { m0.memory[m0.reg_i + j] } else { m0.reg_v[j] },
                    ),
                    ..m0
                }),
                m0.reg_i + x_of(opcode) < MEMORY_SIZE,
                m0.memory.len() == MEMORY_SIZE,
                m0.reg_v.len() == REGISTER_COUNT,
        {
            self.reg_v[x] = self.memory[self.reg_i + x];
            assert(self@.reg_v =~= Seq::new(
                m0.reg_v.len(),
                |j: int| if j < x + 1 { m0.memory[m0.reg_i + j] } else { m0.reg_v[j] },
            ));
        }
        self.pc + 2
    }

    /// `Dxyn`: draw the `n`-byte sprite stored at `I` with its top left corner
    /// at `(Vx, Vy)` (read before `VF` is cleared), wrapping round the edges of
    /// the display. Each sprite
    /// bit that is set flips its pixel; `VF` is set to 1 if a lit pixel is
    /// turned off, and to 0 otherwise.
    fn handle_dxyn(&mut self, opcode: u16) -> (next: u16)
        requires
            decode(opcode) is Draw,
            can_step(old(self)@, opcode),
        ensures
            final(self)@.with_pc(next) == step(old(self)@, opcode, 0),
            final(self).pc == old(self).pc,
    {
        let n = get_n(opcode);
        let vx = self.reg_v[get_x(opcode)];
        let vy = self.reg_v[get_y(opcode)];
        self.reg_v[FLAG] = 0;
        let ghost start = self@;
        for byte in 0..n
            invariant
                n == n_of(opcode),
                n == 0 || start.reg_i + n <= MEMORY_SIZE,
                self@ == draw_rows(start, vx as int, vy as int, byte as nat),
        {
            proof {
                self.lemma_wf();
                lemma_draw_rows_frame(start, vx as int, vy as int, byte as nat);
            }
            let y = (vy as usize + byte) % DISPLAY_HEIGHT;
            let ghost row_start = self@;
            for bit in 0..8usize
                invariant
                    0 <= byte < n,
                    n == n_of(opcode),
                    start.reg_i + n <= MEMORY_SIZE,
                    y < DISPLAY_HEIGHT,
                    row_start.reg_i == start.reg_i,
                    self@ == draw_row(row_start, vx as int, y as int, byte as int, bit as nat),
            {
                proof {
                    self.lemma_wf();
                    lemma_draw_row_frame(row_start, vx as int, y as int, byte as int, bit as nat);
                }
                let sprite_value = (self.memory[self.reg_i + byte] >> (7 - bit)) & 1;
                let x = (vx as usize + bit) % DISPLAY_WIDTH;
                let ghost before = self@;
                self.reg_v[FLAG] = self.reg_v[FLAG] | (self.display_memory[y][x] & sprite_value);
                let mut row = self.display_memory[y];
                row[x] = row[x] ^ sprite_value;
                self.display_memory[y] = row;
                proof {
                    assert(display_view(self.display_memory) =~= before.display.update(
                        y as int,
                        before.display[y as int].update(x as int, before.display[y as int][x as int] ^ sprite_value),
                    ));
                }
            }
        }
        proof {
            lemma_draw_rows_frame(start, vx as int, vy as int, n as nat);
        }
        self.display_changed = true;
        self.pc + 2
    }

    /// The instruction word at the program counter, high byte first.
    fn get_opcode(&mut self) -> (op: u16)
        requires
            old(self).pc + 1 < MEMORY_SIZE,
        ensures
            *final(self) == *old(self),
            op == old(self)@.fetch(),
    {
        let first_byte = self.memory[self.pc as usize];
        let second_byte = self.memory[self.pc as usize + 1];
        proof {
            assert(((first_byte as u16) << 8u16) | second_byte as u16 == first_byte * 256
                + second_byte) by (bit_vector);
        }
        ((first_byte as u16) << 8u16) | second_byte as u16
    }

    /// Execute instruction `opcode`, with `random_byte` as the byte that
    /// `Cxkk` draws.
    pub fn execute(&mut self, opcode: u16, random_byte: u8)
        requires
            can_step(old(self)@, opcode),
        ensures
            final(self)@ == step(old(self)@, opcode, random_byte),
    {
        let tuple_opcode = (
            (opcode & 0xf000) >> 12u8,
            (opcode & 0x0f00) >> 8u8,
            (opcode & 0x00f0) >> 4u8,
            (opcode & 0x000f) as u8,
        );
        proof {
            assert((opcode & 0xf000) >> 12u8 == opcode / 4096) by (bit_vector);
            assert((opcode & 0x0f00) >> 8u8 == (opcode / 256) % 16) by (bit_vector);
            assert((opcode & 0x00f0) >> 4u8 == (opcode / 16) % 16) by (bit_vector);
            assert((opcode & 0x000f) as u8 == opcode % 16) by (bit_vector);
            assert(opcode % 256 == ((opcode / 16) % 16) * 16 + opcode % 16) by (bit_vector);
            assert(opcode == (opcode / 4096) * 4096 + ((opcode / 256) % 16) * 256 + ((opcode / 16)
                % 16) * 16 + opcode % 16) by (bit_vector);
        }
        self.pc = match tuple_opcode {
            (0x0, 0x0, 0xe, 0x0) => self.handle_cls(),
            (0x0, 0x0, 0xe, 0xe) => self.handle_ret(),
            (0x1, _, _, _) => self.handle_1nnn(opcode),
            (0x2, _, _, _) => self.handle_2nnn(opcode),
            (0x3, _, _, _) => self.handle_3xkk(opcode),
            (0x4, _, _, _) => self.handle_4xkk(opcode),
            (0x5, _, _, _) => self.handle_5xy0(opcode),
            (0x6, _, _, _) => self.handle_6xkk(opcode),
            (0x7, _, _, _) => self.handle_7xkk(opcode),
            (0x8, _, _, 0x0) => self.handle_8xy0(opcode),
            (0x8, _, _, 0x1) => self.handle_8xy1(opcode),
            (0x8, _, _, 0x2) => self.handle_8xy2(opcode),
            (0x8, _, _, 0x3) => self.handle_8xy3(opcode),
            (0x8, _, _, 0x4) => self.handle_8xy4(opcode),
            (0x8, _, _, 0x5) => self.handle_8xy5(opcode),
            (0x8, _, _, 0x6) => self.handle_8xy6(opcode),
            (0x8, _, _, 0x7) => self.handle_8xy7(opcode),
            (0x8, _, _, 0xe) => self.handle_8xye(opcode),
            (0x9, _, _, 0x0) => self.handle_9xy0(opcode),
            (0xa, _, _, _) => self.handle_annn(opcode),
            (0xb, _, _, _) => self.handle_bnnn(opcode),
            (0xc, _, _, _) => self.handle_cxkk(opcode, random_byte),
            (0xd, _, _, _) => self.handle_dxyn(opcode),
            (0xe, _, 0x9, 0xe) => self.handle_ex9e(opcode),
            (0xe, _, 0xa, 0x1) => self.handle_exa1(opcode),
            (0xf, _, 0x0, 0x7) => self.handle_fx07(opcode),
            (0xf, _, 0x0, 0xa) => self.handle_fx0a(opcode),
            (0xf, _, 0x1, 0x5) => self.handle_fx15(opcode),
            (0xf, _, 0x1, 0x8) => self.handle_fx18(opcode),
            (0xf, _, 0x1, 0xe) => self.handle_fx1e(opcode),
            (0xf, _, 0x2, 0x9) => self.handle_fx29(opcode),
            (0xf, _, 0x3, 0x3) => self.handle_fx33(opcode),
            (0xf, _, 0x5, 0x5) => self.handle_fx55(opcode),
            (0xf, _, 0x6, 0x5) => self.handle_fx65(opcode),
            (_, _, _, _) => self.pc + 2,
        };
    }

    /// Execute instruction `opcode`. `Cxkk` draws its byte from the random
    /// generator; every other instruction is determined by the state.
    pub fn handle_opcode(&mut self, opcode: u16)
        requires
            can_step(old(self)@, opcode),
        ensures
            exists|r: u8| final(self)@ == #[trigger] step(old(self)@, opcode, r),
            !(decode(opcode) is Random) ==> final(self)@ == step(old(self)@, opcode, 0),
    {
        let rnd = if (opcode & 0xf000) == 0xc000 {
            random_byte()
        } else {
            0
        };
        proof {
            assert(((opcode & 0xf000) == 0xc000) == (opcode / 4096 == 0xc)) by (bit_vector);
        }
        self.execute(opcode, rnd);
    }

    /// While the interpreter waits for a key (after `Fx0A`), take the key the
    /// host last reported in `keyboard.key_clicked`, if it names one (1 to
    /// 16 for the digits 0 to F): the wait ends, the key's digit is stored in
    /// the register that the `Fx0A` named, and it is kept in `keycode`.
    pub fn receive_key(&mut self)
        ensures
            final(self)@ == receive_key(old(self)@),
            final(self).keyboard == old(self).keyboard,
    {
        if self.keyboard_blocking && self.keyboard.key_clicked > 0 && self.keyboard.key_clicked
            < 0x11 {
            self.keyboard_blocking = false;
            let digit = self.keyboard.key_clicked - 1;
            self.keycode = digit;
            if self.key_register < REGISTER_COUNT {
                self.reg_v[self.key_register] = digit;
            }
        }
    }

    /// One cycle of the interpreter: fetch the instruction at the program
    /// counter, execute it, then count the delay and sound timers down. While
    /// a wait for a key is pending no cycle runs: the host feeds keys to
    /// `receive_key` until the wait ends. The
    /// tone sounds during the cycle when the sound timer, after the
    /// instruction, is above zero.
    pub fn cycle(&mut self) -> (out: Output<'_>)
        requires
            can_cycle(old(self)@),
        ensures
            exists|r: u8|
                {
                    &&& final(self)@ == #[trigger] cycle_step(old(self)@, r)
                    &&& out.play_sound == (step(old(self)@, old(self)@.fetch(), r).sound_timer > 0)
                },
            !(decode(old(self)@.fetch()) is Random) ==> final(self)@ == cycle_step(old(self)@, 0),
            *out.display_memory == final(self).display_memory,
            out.display_changed == final(self).display_changed,
    {
        let ghost m0 = self@;
        let opcode = self.get_opcode();
        self.handle_opcode(opcode);
        let ghost r = choose|r: u8| self@ == step(m0, opcode, r);
        assert(self@ == step(m0, opcode, r));
        if self.delay_timer > 0 {
            self.delay_timer -= 1;
        }
        let play_sound = self.sound_timer > 0;
        if self.sound_timer > 0 {
            self.sound_timer -= 1;
        }
        assert(self@ == cycle_step(m0, r));
        Output {
            display_memory: &self.display_memory,
            display_changed: self.display_changed,
            play_sound,
        }
    }

    /// How far instruction `opcode` moves the program counter when it does
    /// not transfer control: 4 for a skip whose condition holds, else 2.
    fn advance_of(&self, opcode: u16) -> (a: u32)
        ensures
            a == advance(self@, opcode),
    {
        let family = opcode >> 12u16;
        let vx = self.reg_v[get_x(opcode)];
        let vy = self.reg_v[get_y(opcode)];
        let kk = get_kk(opcode);
        let n = get_n(opcode);
        proof {
            assert(opcode >> 12u16 == opcode / 4096) by (bit_vector);
            assert(opcode % 256 == ((opcode / 16) % 16) * 16 + opcode % 16) by (bit_vector);
        }
        let skip = if family == 3 {
            vx as usize == kk
        } else if family == 4 {
            vx as usize != kk
        } else if family == 5 {
            vx == vy
        } else if family == 9 && n == 0 {
            vx != vy
        } else if family == 0xE && kk == 0x9E {
            self.keyboard.is_key_pressed(vx)
        } else if family == 0xE && kk == 0xA1 {
            !self.keyboard.is_key_pressed(vx)
        } else {
            false
        };
        assert(skip == skips(self@, opcode));
        if skip {
            4
        } else {
            2
        }
    }

    /// Whether instruction `opcode` can execute in the present state, that is,
    /// whether `handle_opcode` and `execute` accept it here.
    pub fn can_execute(&self, opcode: u16) -> (r: bool)
        ensures
            r == can_step(self@, opcode),
    {
        let family = opcode >> 12u16;
        let x = get_x(opcode);
        let kk = get_kk(opcode);
        let n = get_n(opcode);
        let pc = self.pc as u32;
        proof {
            assert(opcode >> 12u16 == opcode / 4096) by (bit_vector);
            assert(opcode % 256 == ((opcode / 16) % 16) * 16 + opcode % 16) by (bit_vector);
            assert(opcode == (opcode / 4096) * 4096 + ((opcode / 256) % 16) * 256 + ((opcode / 16)
                % 16) * 16 + opcode % 16) by (bit_vector);
        }
        if opcode == 0x00EE {
            1 <= self.sp && self.sp <= REGISTER_COUNT
        } else if family == 1 || family == 0xB {
            true
        } else if family == 2 {
            self.sp < REGISTER_COUNT && pc + 2 <= 0xFFFF
        } else {
            let fits = pc + self.advance_of(opcode) <= 0xFFFF;
            let i = self.reg_i;
            let resources = if family == 0xD {
                n == 0 || (i <= MEMORY_SIZE && n <= MEMORY_SIZE - i)
            } else if family == 0xF && kk == 0x33 {
                i < MEMORY_SIZE - 2
            } else if family == 0xF && (kk == 0x55 || kk == 0x65) {
                i < MEMORY_SIZE - x
            } else {
                true
            };
            fits && resources
        }
    }

    /// Whether a cycle can run in the present state, that is, whether
    /// `cycle` accepts it here: no wait for a key is pending, and the
    /// instruction word at the program counter lies in memory and can execute.
    pub fn can_cycle(&self) -> (r: bool)
        ensures
            r == can_cycle(self@),
    {
        if !self.keyboard_blocking && self.pc as usize + 1 < MEMORY_SIZE {
            let first_byte = self.memory[self.pc as usize];
            let second_byte = self.memory[self.pc as usize + 1];
            proof {
                assert(((first_byte as u16) << 8u16) | second_byte as u16 == first_byte * 256
                    + second_byte) by (bit_vector);
            }
            self.can_execute(((first_byte as u16) << 8u16) | second_byte as u16)
        } else {
            false
        }
    }
}

} // verus!
