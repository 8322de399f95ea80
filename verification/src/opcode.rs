//! The fields of a CHIP-8 instruction word.
//!
//! An instruction is sixteen bits, read as four hexadecimal digits. Most
//! instructions name a register in the second digit (`x`), another register in
//! the third (`y`), and a constant in the low byte (`kk`), the low twelve bits
//! (`nnn`) or the low digit (`n`).
use vstd::prelude::*;

verus! {

/// The high digit of the word: it selects the family of the instruction.
pub open spec fn family_of(op: u16) -> int {
    op as int / 4096
}

/// The low twelve bits: an address.
pub open spec fn nnn_of(op: u16) -> int {
    op as int % 4096
}

/// The second digit: the first register operand.
pub open spec fn x_of(op: u16) -> int {
    (op as int / 256) % 16
}

/// The third digit: the second register operand.
pub open spec fn y_of(op: u16) -> int {
    (op as int / 16) % 16
}

/// The low byte: an immediate value.
pub open spec fn kk_of(op: u16) -> int {
    op as int % 256
}

/// The low digit: a small count.
pub open spec fn n_of(op: u16) -> int {
    op as int % 16
}

/// The address field `nnn` of an instruction.
pub fn get_nnn(opcode: u16) -> (r: usize)
    ensures
        r == nnn_of(opcode),
{
    proof {
        assert(opcode & 0x0fff == opcode % 4096) by (bit_vector);
    }
    (opcode & 0x0fff) as usize
}

/// The register number `x` of an instruction.
pub fn get_x(opcode: u16) -> (r: usize)
    ensures
        r == x_of(opcode),
        r < 16,
{
    proof {
        assert((opcode & 0x0f00) >> 8 == (opcode / 256) % 16) by (bit_vector);
    }
    ((opcode & 0x0f00) >> 8) as usize
}

/// The immediate byte `kk` of an instruction.
pub fn get_kk(opcode: u16) -> (r: usize)
    ensures
        r == kk_of(opcode),
        r < 256,
{
    proof {
        assert(opcode & 0x00ff == opcode % 256) by (bit_vector);
    }
    (opcode & 0x00ff) as usize
}

/// The register number `y` of an instruction.
pub fn get_y(opcode: u16) -> (r: usize)
    ensures
        r == y_of(opcode),
        r < 16,
{
    proof {
        assert((opcode & 0x00f0) >> 4 == (opcode / 16) % 16) by (bit_vector);
    }
    ((opcode & 0x00f0) >> 4) as usize
}

/// The low digit `n` of an instruction.
pub fn get_n(opcode: u16) -> (r: usize)
    ensures
        r == n_of(opcode),
        r < 16,
{
    proof {
        assert(opcode & 0x000f == opcode % 16) by (bit_vector);
    }
    (opcode & 0x000f) as usize
}

} // verus!
