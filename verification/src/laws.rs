//! Properties of the interpreter that hold across instructions and states.
use vstd::prelude::*;
use crate::machine::{
    advance, draw_pixel, can_cycle, can_step, cycle_step, decode, draw_row, draw_rows, receive_key, lemma_draw_row_frame,
    lemma_draw_row_wf, lemma_draw_rows_frame, lemma_draw_wf, skips, sprite_bit, step,
    transfers_control, Machine, DISPLAY_HEIGHT, DISPLAY_WIDTH, FLAG, MEMORY_SIZE, REGISTER_COUNT,
};
use crate::font::glyphs;
use crate::opcode::{kk_of, n_of, x_of, y_of};

verus! {

/// Every instruction keeps the sizes of registers, stack, memory and display.
pub proof fn lemma_step_wf(m: Machine, op: u16, rnd: u8)
    requires
        m.wf(),
        can_step(m, op),
    ensures
        step(m, op, rnd).wf(),
{
    if decode(op) is Draw {
        lemma_draw_wf(m.set_reg(FLAG as int, 0), m.reg_v[x_of(op)] as int, m.reg_v[y_of(op)] as int, n_of(op) as nat);
    }
}

/// An instruction that does not transfer control moves the program counter
/// past itself (two bytes), or past the next instruction as well (four
/// bytes) exactly when it is a skip whose condition holds.
pub proof fn lemma_sequential_flow(m: Machine, op: u16, rnd: u8)
    requires
        !transfers_control(decode(op)),
        can_step(m, op),
    ensures
        step(m, op, rnd).pc == m.pc + advance(m, op),
        advance(m, op) == (if skips(m, op) { 4int } else { 2int }),
{
}

/// Only `Cxkk` depends on the random byte: every other instruction gives the
/// same state whatever byte is drawn.
pub proof fn lemma_deterministic(m: Machine, op: u16, r1: u8, r2: u8)
    requires
        !(decode(op) is Random),
    ensures
        step(m, op, r1) == step(m, op, r2),
{
}

/// `Cxkk` never sets a bit of `Vx` that `kk` clears, and changes no other
/// register than `Vx`.
pub proof fn lemma_random_masked(m: Machine, op: u16, rnd: u8)
    requires
        m.wf(),
        decode(op) is Random,
    ensures
        step(m, op, rnd).reg_v[x_of(op)] & !(kk_of(op) as u8) == 0,
        forall|j: int|
            0 <= j < 16 && j != x_of(op) ==> #[trigger] step(m, op, rnd).reg_v[j] == m.reg_v[j],
{
    let k = kk_of(op) as u8;
    assert((rnd & k) & !k == 0) by (bit_vector);
}

/// A return right after a call comes back to the instruction after the call,
/// with the stack pointer as before; the call leaves its return address in
/// the stack slot it used.
pub proof fn lemma_call_then_return(m: Machine, call: u16, r1: u8, r2: u8)
    requires
        m.wf(),
        decode(call) is Call,
        can_step(m, call),
    ensures
        can_step(step(m, call, r1), 0x00EE),
        step(step(m, call, r1), 0x00EE, r2) == (Machine {
            stack: m.stack.update(m.sp as int, (m.pc + 2) as u16),
            pc: (m.pc + 2) as u16,
            ..m
        }),
{
    assert(decode(0x00EE) is Return);
}

/// Storing `V0` to `Vx` with `Fx55` and loading them back with `Fx65` from the
/// same address gives back the registers, and the memory holds their copy.
pub proof fn lemma_store_then_load(m: Machine, store: u16, load: u16, r1: u8, r2: u8)
    requires
        m.wf(),
        decode(store) is StoreRegs,
        decode(load) is LoadRegs,
        x_of(store) == x_of(load),
        can_step(m, store),
        m.pc + 4 <= u16::MAX,
    ensures
        can_step(step(m, store, r1), load),
        step(step(m, store, r1), load, r2).reg_v == m.reg_v,
        step(step(m, store, r1), load, r2).reg_i == m.reg_i,
        forall|j: int|
            0 <= j <= x_of(store) ==> #[trigger] step(m, store, r1).memory[m.reg_i + j]
                == m.reg_v[j],
{
    let s = step(m, store, r1);
    assert(s.reg_i == m.reg_i);
    assert(!skips(s, load));
    let l = step(s, load, r2);
    assert(l.reg_v =~= m.reg_v);
}

/// `Fx33` writes the decimal digits of `Vx`: each below ten, and together
/// worth `Vx`.
pub proof fn lemma_bcd(m: Machine, op: u16, rnd: u8)
    requires
        m.wf(),
        decode(op) is StoreBcd,
        can_step(m, op),
    ensures
        ({
            let s = step(m, op, rnd);
            let i = m.reg_i as int;
            &&& s.memory[i] < 10 && s.memory[i + 1] < 10 && s.memory[i + 2] < 10
            &&& 100 * s.memory[i] + 10 * s.memory[i + 1] + s.memory[i + 2] == m.reg_v[x_of(op)]
        }),
{
}

/// `8xy4` with `x` other than `F`: the carry in `VF` and the new `Vx`
/// together are the full sum.
pub proof fn lemma_add_carry(m: Machine, op: u16, rnd: u8)
    requires
        m.wf(),
        decode(op) is AddReg,
        x_of(op) != FLAG,
        can_step(m, op),
    ensures
        ({
            let s = step(m, op, rnd);
            256 * s.reg_v[FLAG as int] + s.reg_v[x_of(op)] == m.reg_v[x_of(op)] + m.reg_v[y_of(op)]
        }),
{
}

/// `8xy5` with `x` other than `F`: `VF` is 1 exactly when `Vx > Vy`, and the
/// new `Vx` is `Vx - Vy` taken modulo 256.
pub proof fn lemma_sub_borrow(m: Machine, op: u16, rnd: u8)
    requires
        m.wf(),
        decode(op) is SubReg,
        x_of(op) != FLAG,
        can_step(m, op),
    ensures
        ({
            let s = step(m, op, rnd);
            let vx = m.reg_v[x_of(op)];
            let vy = m.reg_v[y_of(op)];
            &&& (s.reg_v[FLAG as int] == 1) == (vx > vy)
            &&& s.reg_v[x_of(op)] == (if vx >= vy { vx - vy } else { vx - vy + 256 })
        }),
{
}

/// The XOR of the sprite bits that the first `bits` pixels of row `byte`
/// put on display position `(row, col)` when drawn on display row `row_at`
/// from column `x0`.
spec fn row_mask(m: Machine, x0: int, row_at: int, byte: int, bits: nat, row: int, col: int) -> u8
    decreases bits,
{
    if bits == 0 {
        0
    } else {
        let b = bits - 1;
        let prev = row_mask(m, x0, row_at, byte, (bits - 1) as nat, row, col);
        if row_at == row && (x0 + b) % (DISPLAY_WIDTH as int) == col {
            prev ^ sprite_bit(m, byte, b)
        } else {
            prev
        }
    }
}

/// The XOR of the sprite bits that the first `bytes` rows of a sprite put on
/// display position `(row, col)`.
spec fn rows_mask(m: Machine, x0: int, y0: int, bytes: nat, row: int, col: int) -> u8
    decreases bytes,
{
    if bytes == 0 {
        0
    } else {
        let k = bytes - 1;
        let row_at = (y0 + k) % (DISPLAY_HEIGHT as int);
        rows_mask(m, x0, y0, (bytes - 1) as nat, row, col) ^ row_mask(m, x0, row_at, k, 8, row, col)
    }
}

proof fn lemma_xor_assoc(a: u8, b: u8, c: u8)
    ensures
        (a ^ b) ^ c == a ^ (b ^ c),
        (a ^ b) ^ b == a,
        a ^ 0 == a,
{
    assert((a ^ b) ^ c == a ^ (b ^ c)) by (bit_vector);
    assert((a ^ b) ^ b == a) by (bit_vector);
    assert(a ^ 0 == a) by (bit_vector);
}

/// Drawing a row flips each display position by the row's mask and leaves
/// every register but `VF` as it was.
proof fn lemma_draw_row_mask(m: Machine, x0: int, row_at: int, byte: int, bits: nat)
    requires
        m.wf(),
        0 <= row_at < DISPLAY_HEIGHT,
    ensures
        ({
            let r = draw_row(m, x0, row_at, byte, bits);
            &&& forall|j: int| 0 <= j < REGISTER_COUNT && j != FLAG ==> #[trigger] r.reg_v[j] == m.reg_v[j]
            &&& forall|row: int, col: int|
                0 <= row < DISPLAY_HEIGHT && 0 <= col < DISPLAY_WIDTH ==> #[trigger] r.display[row][col]
                    == m.display[row][col] ^ row_mask(m, x0, row_at, byte, bits, row, col)
        }),
    decreases bits,
{
    let r = draw_row(m, x0, row_at, byte, bits);
    if bits == 0 {
        assert forall|row: int, col: int|
            0 <= row < DISPLAY_HEIGHT && 0 <= col < DISPLAY_WIDTH implies #[trigger] r.display[row][col]
                == m.display[row][col] ^ row_mask(m, x0, row_at, byte, bits, row, col) by {
            lemma_xor_assoc(m.display[row][col], 0, 0);
        }
    } else {
        let b = bits - 1;
        lemma_draw_row_mask(m, x0, row_at, byte, (bits - 1) as nat);
        lemma_draw_row_frame(m, x0, row_at, byte, (bits - 1) as nat);
        lemma_draw_row_wf(m, x0, row_at, byte, (bits - 1) as nat);
        let prev = draw_row(m, x0, row_at, byte, (bits - 1) as nat);
        assert(sprite_bit(prev, byte, b) == sprite_bit(m, byte, b));
        assert forall|row: int, col: int|
            0 <= row < DISPLAY_HEIGHT && 0 <= col < DISPLAY_WIDTH implies #[trigger] r.display[row][col]
                == m.display[row][col] ^ row_mask(m, x0, row_at, byte, bits, row, col) by {
            let c = (x0 + b) % (DISPLAY_WIDTH as int);
            let pm = row_mask(m, x0, row_at, byte, (bits - 1) as nat, row, col);
            assert(prev.display[row][col] == m.display[row][col] ^ pm);
            if row_at == row && c == col {
                lemma_xor_assoc(m.display[row][col], pm, sprite_bit(m, byte, b));
            }
        }
    }
}

/// Drawing rows flips each display position by the sprite's mask and leaves
/// every register but `VF` as it was.
proof fn lemma_draw_rows_mask(m: Machine, x0: int, y0: int, bytes: nat)
    requires
        m.wf(),
    ensures
        ({
            let r = draw_rows(m, x0, y0, bytes);
            &&& forall|j: int| 0 <= j < REGISTER_COUNT && j != FLAG ==> #[trigger] r.reg_v[j] == m.reg_v[j]
            &&& forall|row: int, col: int|
                0 <= row < DISPLAY_HEIGHT && 0 <= col < DISPLAY_WIDTH ==> #[trigger] r.display[row][col]
                    == m.display[row][col] ^ rows_mask(m, x0, y0, bytes, row, col)
        }),
    decreases bytes,
{
    let r = draw_rows(m, x0, y0, bytes);
    if bytes == 0 {
        assert forall|row: int, col: int|
            0 <= row < DISPLAY_HEIGHT && 0 <= col < DISPLAY_WIDTH implies #[trigger] r.display[row][col]
                == m.display[row][col] ^ rows_mask(m, x0, y0, bytes, row, col) by {
            lemma_xor_assoc(m.display[row][col], 0, 0);
        }
    } else {
        let k = bytes - 1;
        lemma_draw_rows_mask(m, x0, y0, (bytes - 1) as nat);
        lemma_draw_rows_frame(m, x0, y0, (bytes - 1) as nat);
        lemma_draw_wf(m, x0, y0, (bytes - 1) as nat);
        let prev = draw_rows(m, x0, y0, (bytes - 1) as nat);
        let row_at = (y0 + k) % (DISPLAY_HEIGHT as int);
        lemma_draw_row_mask(prev, x0, row_at, k, 8);
        lemma_row_mask_depends(prev, m, x0, row_at, k, 8);
        assert forall|row: int, col: int|
            0 <= row < DISPLAY_HEIGHT && 0 <= col < DISPLAY_WIDTH implies #[trigger] r.display[row][col]
                == m.display[row][col] ^ rows_mask(m, x0, y0, bytes, row, col) by {
            lemma_xor_assoc(
                m.display[row][col],
                rows_mask(m, x0, y0, (bytes - 1) as nat, row, col),
                row_mask(m, x0, row_at, k, 8, row, col),
            );
        }
    }
}

/// A row's mask depends only on the state's `I` and memory.
proof fn lemma_row_mask_depends(a: Machine, b: Machine, x0: int, row_at: int, byte: int, bits: nat)
    requires
        a.reg_i == b.reg_i,
        a.memory == b.memory,
    ensures
        forall|row: int, col: int|
            #[trigger] row_mask(a, x0, row_at, byte, bits, row, col) == row_mask(b, x0, row_at, byte, bits, row, col),
    decreases bits,
{
    if bits > 0 {
        lemma_row_mask_depends(a, b, x0, row_at, byte, (bits - 1) as nat);
        assert(sprite_bit(a, byte, bits - 1) == sprite_bit(b, byte, bits - 1));
        assert forall|row: int, col: int|
            #[trigger] row_mask(a, x0, row_at, byte, bits, row, col) == row_mask(b, x0, row_at, byte, bits, row, col) by {
            assert(row_mask(a, x0, row_at, byte, (bits - 1) as nat, row, col) == row_mask(
                b,
                x0,
                row_at,
                byte,
                (bits - 1) as nat,
                row,
                col,
            ));
        }
    }
}

/// A sprite's mask depends only on the state's `I` and memory.
proof fn lemma_rows_mask_depends(a: Machine, b: Machine, x0: int, y0: int, bytes: nat)
    requires
        a.reg_i == b.reg_i,
        a.memory == b.memory,
    ensures
        forall|row: int, col: int|
            #[trigger] rows_mask(a, x0, y0, bytes, row, col) == rows_mask(b, x0, y0, bytes, row, col),
    decreases bytes,
{
    if bytes > 0 {
        lemma_rows_mask_depends(a, b, x0, y0, (bytes - 1) as nat);
        let row_at = (y0 + (bytes - 1)) % (DISPLAY_HEIGHT as int);
        lemma_row_mask_depends(a, b, x0, row_at, bytes - 1, 8);
        assert forall|row: int, col: int|
            #[trigger] rows_mask(a, x0, y0, bytes, row, col) == rows_mask(b, x0, y0, bytes, row, col) by {
            assert(rows_mask(a, x0, y0, (bytes - 1) as nat, row, col) == rows_mask(
                b,
                x0,
                y0,
                (bytes - 1) as nat,
                row,
                col,
            ));
            assert(row_mask(a, x0, row_at, bytes - 1, 8, row, col) == row_mask(b, x0, row_at, bytes - 1, 8, row, col));
        }
    }
}

/// Drawing the same sprite twice at the same place restores the display,
/// when neither coordinate is held in `VF` (which the drawing overwrites).
pub proof fn lemma_draw_twice(m: Machine, op: u16, r1: u8, r2: u8)
    requires
        m.wf(),
        decode(op) is Draw,
        x_of(op) != FLAG,
        y_of(op) != FLAG,
        can_step(m, op),
        m.pc + 4 <= u16::MAX,
    ensures
        can_step(step(m, op, r1), op),
        step(step(m, op, r1), op, r2).display == m.display,
{
    let x0 = m.reg_v[x_of(op)] as int;
    let y0 = m.reg_v[y_of(op)] as int;
    let n = n_of(op) as nat;
    let m0 = m.set_reg(FLAG as int, 0);
    lemma_draw_rows_frame(m0, x0, y0, n);
    lemma_draw_rows_mask(m0, x0, y0, n);
    lemma_draw_wf(m0, x0, y0, n);
    let s = step(m, op, r1);
    assert(s.reg_v[x_of(op)] == m.reg_v[x_of(op)]);
    assert(s.reg_v[y_of(op)] == m.reg_v[y_of(op)]);
    let s0 = s.set_reg(FLAG as int, 0);
    lemma_draw_rows_frame(s0, x0, y0, n);
    lemma_draw_rows_mask(s0, x0, y0, n);
    lemma_draw_wf(s0, x0, y0, n);
    lemma_rows_mask_depends(s0, m0, x0, y0, n);
    let t = step(s, op, r2);
    assert forall|row: int| 0 <= row < DISPLAY_HEIGHT implies #[trigger] t.display[row] =~= m.display[row] by {
        assert forall|col: int| 0 <= col < DISPLAY_WIDTH implies #[trigger] t.display[row][col] == m.display[row][col] by {
            lemma_xor_assoc(m.display[row][col], rows_mask(m0, x0, y0, n, row, col), 0);
        }
    }
    assert(t.display =~= m.display);
}

/// The timers run down by one per cycle, independently of the program,
/// unless the cycle's instruction sets them.
pub proof fn lemma_timers_count_down(m: Machine, rnd: u8)
    requires
        m.wf(),
        !(decode(m.fetch()) is SetDelay),
        !(decode(m.fetch()) is SetSound),
    ensures
        cycle_step(m, rnd).delay_timer == (if m.delay_timer > 0 { m.delay_timer - 1 } else { 0 }),
        cycle_step(m, rnd).sound_timer == (if m.sound_timer > 0 { m.sound_timer - 1 } else { 0 }),
{
    let op = m.fetch();
    if decode(op) is Draw {
        lemma_draw_rows_frame(m.set_reg(FLAG as int, 0), m.reg_v[x_of(op)] as int, m.reg_v[y_of(op)] as int, n_of(op) as nat);
    }
}

/// `Fx0A` makes the interpreter wait, and no cycle runs during the wait; the
/// first key reported ends it and its digit is stored in the register the
/// `Fx0A` named, with every other register as before.
pub proof fn lemma_wait_for_key(m: Machine, wait: u16, r: u8, key: u8)
    requires
        m.wf(),
        decode(wait) is WaitKey,
        can_step(m, wait),
        0 < key < 0x11,
    ensures
        step(m, wait, r).keyboard_blocking,
        !can_cycle(step(m, wait, r)),
        ({
            let after = receive_key(Machine { key_clicked: key, ..step(m, wait, r) });
            &&& !after.keyboard_blocking
            &&& after.reg_v[x_of(wait)] == key - 1
            &&& forall|j: int|
                0 <= j < REGISTER_COUNT && j != x_of(wait) ==> #[trigger] after.reg_v[j] == m.reg_v[j]
            &&& after.pc == m.pc + 2
        }),
{
}

/// With the glyphs at address 0, as the interpreter loads them, `Fx29`
/// points `I` at the five bytes of the glyph of digit `Vx`.
pub proof fn lemma_glyph_address(m: Machine, op: u16, rnd: u8, k: int)
    requires
        m.wf(),
        decode(op) is LoadGlyph,
        can_step(m, op),
        m.reg_v[x_of(op)] < 16,
        forall|a: int| 0 <= a < glyphs().len() ==> #[trigger] m.memory[a] == glyphs()[a],
        0 <= k < 5,
    ensures
        ({
            let s = step(m, op, rnd);
            s.memory[s.reg_i + k] == glyphs()[5 * m.reg_v[x_of(op)] + k]
        }),
{
    assert(glyphs().len() == 80);
}

/// Every pixel is on (1) or off (0).
pub open spec fn display_binary(m: Machine) -> bool {
    forall|row: int, col: int|
        0 <= row < DISPLAY_HEIGHT && 0 <= col < DISPLAY_WIDTH ==> #[trigger] m.display[row][col] <= 1
}

proof fn lemma_draw_row_binary(m: Machine, x0: int, row_at: int, byte: int, bits: nat)
    requires
        m.wf(),
        display_binary(m),
        0 <= row_at < DISPLAY_HEIGHT,
    ensures
        display_binary(draw_row(m, x0, row_at, byte, bits)),
    decreases bits,
{
    if bits > 0 {
        lemma_draw_row_binary(m, x0, row_at, byte, (bits - 1) as nat);
        lemma_draw_row_wf(m, x0, row_at, byte, (bits - 1) as nat);
        let prev = draw_row(m, x0, row_at, byte, (bits - 1) as nat);
        let r = draw_pixel(prev, x0, row_at, byte, bits - 1);
        let sb = sprite_bit(prev, byte, bits - 1);
        let w = prev.memory[prev.reg_i + byte];
        let sh = (7 - (bits - 1)) as usize;
        assert((w >> sh) & 1u8 <= 1) by (bit_vector);
        assert forall|row: int, col: int|
            0 <= row < DISPLAY_HEIGHT && 0 <= col < DISPLAY_WIDTH implies #[trigger] r.display[row][col]
                <= 1 by {
            let p = prev.display[row][col];
            assert(p <= 1 && sb <= 1 ==> p ^ sb <= 1) by (bit_vector);
        }
    }
}

proof fn lemma_draw_rows_binary(m: Machine, x0: int, y0: int, bytes: nat)
    requires
        m.wf(),
        display_binary(m),
    ensures
        display_binary(draw_rows(m, x0, y0, bytes)),
    decreases bytes,
{
    if bytes > 0 {
        lemma_draw_rows_binary(m, x0, y0, (bytes - 1) as nat);
        lemma_draw_wf(m, x0, y0, (bytes - 1) as nat);
        let prev = draw_rows(m, x0, y0, (bytes - 1) as nat);
        let row_at = (y0 + (bytes - 1)) % (DISPLAY_HEIGHT as int);
        lemma_draw_row_binary(prev, x0, row_at, bytes - 1, 8);
    }
}

/// A display of on and off pixels stays so: no instruction puts any other
/// value in a pixel.
pub proof fn lemma_display_stays_binary(m: Machine, op: u16, rnd: u8)
    requires
        m.wf(),
        display_binary(m),
        can_step(m, op),
    ensures
        display_binary(step(m, op, rnd)),
{
    if decode(op) is Draw {
        lemma_draw_rows_binary(m.set_reg(FLAG as int, 0), m.reg_v[x_of(op)] as int, m.reg_v[y_of(op)] as int, n_of(op) as nat);
    }
}

/// The stack pointer stays within the stack: calls need a free slot and
/// returns a used one.
pub proof fn lemma_stack_bound(m: Machine, op: u16, rnd: u8)
    requires
        m.sp <= REGISTER_COUNT,
        can_step(m, op),
    ensures
        step(m, op, rnd).sp <= REGISTER_COUNT,
{
    if decode(op) is Draw {
        lemma_draw_rows_frame(m.set_reg(FLAG as int, 0), m.reg_v[x_of(op)] as int, m.reg_v[y_of(op)] as int, n_of(op) as nat);
    }
}

/// The index register stays a twelve-bit address: no instruction takes it
/// out of memory once it is in.
pub proof fn lemma_index_stays_in_memory(m: Machine, op: u16, rnd: u8)
    requires
        m.wf(),
        m.reg_i < MEMORY_SIZE,
        can_step(m, op),
    ensures
        step(m, op, rnd).reg_i < MEMORY_SIZE,
{
    if decode(op) is Draw {
        lemma_draw_rows_frame(m.set_reg(FLAG as int, 0), m.reg_v[x_of(op)] as int, m.reg_v[y_of(op)] as int, n_of(op) as nat);
    }
}

} // verus!
