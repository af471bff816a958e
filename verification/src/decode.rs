use vstd::prelude::*;

verus! {

/// The fields of a 16-bit instruction word: the opcode class nibble `c`, the
/// two register operand nibbles `x` and `y`, the low nibble `d`, and the two
/// derived operands, the 12-bit address `nnn` and the 8-bit immediate `kk`.
///
/// Every 16-bit value decodes to some field tuple; whether that tuple names a
/// recognized instruction is decided by the execution engine.
#[derive(Clone, Copy, Debug, PartialEq, Eq, Structural)]
pub struct Opcode {
    pub c: u8,
    pub x: u8,
    pub y: u8,
    pub d: u8,
    pub nnn: u16,
    pub kk: u8,
}

/// Splits an instruction word into its nibble fields and derived operands.
/// A pure function with no error cases.
pub fn decode(word: u16) -> (op: Opcode)
    ensures
        op.c == ((word >> 12) & 0xf) as u8,
        op.x == ((word >> 8) & 0xf) as u8,
        op.y == ((word >> 4) & 0xf) as u8,
        op.d == (word & 0xf) as u8,
        op.nnn == word & 0xfff,
        op.kk == (word & 0xff) as u8,
        op.c < 16,
        op.x < 16,
        op.y < 16,
        op.d < 16,
        op.nnn < 0x1000,
{
    proof {
        assert((word >> 12) & 0xf < 16) by (bit_vector);
        assert((word >> 8) & 0xf < 16) by (bit_vector);
        assert((word >> 4) & 0xf < 16) by (bit_vector);
        assert(word & 0xf < 16) by (bit_vector);
        assert(word & 0xfff < 0x1000) by (bit_vector);
    }
    Opcode {
        c: ((word >> 12) & 0xf) as u8,
        x: ((word >> 8) & 0xf) as u8,
        y: ((word >> 4) & 0xf) as u8,
        d: (word & 0xf) as u8,
        nnn: word & 0xfff,
        kk: (word & 0xff) as u8,
    }
}

} // verus!
