//! Splitting a 16-bit instruction word into its four 4-bit fields.

use vstd::prelude::*;

verus! {

/// The four hexadecimal digits `(op, x, y, n)` of an instruction word, most
/// significant first.
pub open spec fn decode_spec(w: u16) -> (u16, u16, u16, u16) {
    (w / 0x1000, (w / 0x100) % 0x10, (w / 0x10) % 0x10, w % 0x10)
}

/// Every field of a decoded tuple fits in four bits.
pub open spec fn is_decoded(t: (u16, u16, u16, u16)) -> bool {
    t.0 < 16 && t.1 < 16 && t.2 < 16 && t.3 < 16
}

/// The 12-bit immediate `nnn` formed by the last three fields.
pub open spec fn imm12_spec(x: u16, y: u16, n: u16) -> u16 {
    (x * 0x100 + y * 0x10 + n) as u16
}

/// The 8-bit immediate `kk` formed by the last two fields.
pub open spec fn imm8_spec(y: u16, n: u16) -> u8 {
    (y * 0x10 + n) as u8
}

/// Splits an instruction word into `(op, x, y, n)`. Total: every word decodes.
pub fn decode(instruction: u16) -> (fields: (u16, u16, u16, u16))
    ensures
        fields == decode_spec(instruction),
        is_decoded(fields),
{
    let op: u16 = (instruction & 0xF000) >> 12;
    let x: u16 = (instruction & 0xF00) >> 8;
    let y: u16 = (instruction & 0xF0) >> 4;
    let n: u16 = instruction & 0xF;
    proof {
        assert((instruction & 0xF000) >> 12 == instruction / 0x1000) by (bit_vector);
        assert((instruction & 0xF00) >> 8 == (instruction / 0x100) % 0x10) by (bit_vector);
        assert((instruction & 0xF0) >> 4 == (instruction / 0x10) % 0x10) by (bit_vector);
        assert(instruction & 0xF == instruction % 0x10) by (bit_vector);
    }
    (op, x, y, n)
}

/// Joins three fields into the 12-bit immediate `nnn`.
pub fn imm12(x: u16, y: u16, n: u16) -> (nnn: u16)
    requires
        x < 16,
        y < 16,
        n < 16,
    ensures
        nnn == imm12_spec(x, y, n),
        nnn < 0x1000,
{
    proof {
        assert(x < 16 && y < 16 && n < 16 ==> (x << 8 | y << 4 | n) == x * 0x100 + y * 0x10 + n)
            by (bit_vector);
    }
    x << 8 | y << 4 | n
}

/// Joins two fields into the 8-bit immediate `kk`.
pub fn imm8(y: u16, n: u16) -> (kk: u8)
    requires
        y < 16,
        n < 16,
    ensures
        kk == imm8_spec(y, n),
{
    proof {
        assert(y < 16 && n < 16 ==> (y << 4 | n) == y * 0x10 + n) by (bit_vector);
    }
    (y << 4 | n) as u8
}

/// The fields of a word put the word together again, as bits and as digits.
pub proof fn lemma_decode_reconstructs(w: u16)
    ensures
        ({
            let (op, x, y, n) = decode_spec(w);
            &&& (op << 12) | (x << 8) | (y << 4) | n == w
            &&& op * 0x1000 + x * 0x100 + y * 0x10 + n == w
            &&& is_decoded((op, x, y, n))
        }),
{
    assert(((w / 0x1000) << 12) | (((w / 0x100) % 0x10) << 8) | (((w / 0x10) % 0x10) << 4) | (w
        % 0x10) == w) by (bit_vector);
}

/// Decoding the word built from four fields gives the fields back.
pub proof fn lemma_decode_of_encoded(op: u16, x: u16, y: u16, n: u16)
    requires
        is_decoded((op, x, y, n)),
    ensures
        decode_spec((op * 0x1000 + x * 0x100 + y * 0x10 + n) as u16) == (op, x, y, n),
{
    let w: u16 = (op * 0x1000 + x * 0x100 + y * 0x10 + n) as u16;
    assert(w / 0x1000 == op && (w / 0x100) % 0x10 == x && (w / 0x10) % 0x10 == y && w % 0x10 == n)
        by (bit_vector)
        requires
            op < 16 && x < 16 && y < 16 && n < 16,
            w == op * 0x1000 + x * 0x100 + y * 0x10 + n,
    ;
}

} // verus!
