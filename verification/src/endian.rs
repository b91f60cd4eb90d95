//! Little-endian decoding of fixed-width integers.

use vstd::prelude::*;

verus! {

/// The value of two bytes, least significant first.
pub open spec fn le_u16(b0: u8, b1: u8) -> u16 {
    (b0 + 0x100 * b1) as u16
}

/// The value of four bytes, least significant first.
pub open spec fn le_u32(b0: u8, b1: u8, b2: u8, b3: u8) -> u32 {
    (b0 + 0x100 * b1 + 0x1_0000 * b2 + 0x100_0000 * b3) as u32
}

/// The two's complement reading of a 16-bit pattern.
pub open spec fn signed16(w: u16) -> i16 {
    if w < 0x8000 {
        w as i16
    } else {
        (w - 0x1_0000) as i16
    }
}

/// The two's complement reading of a 32-bit pattern.
pub open spec fn signed32(w: u32) -> i32 {
    if w < 0x8000_0000 {
        w as i32
    } else {
        (w - 0x1_0000_0000) as i32
    }
}

/// The complete two-byte groups of `bytes`, each decoded little-endian. A
/// trailing byte that fills no group is left out.
pub open spec fn le_words16(bytes: Seq<u8>) -> Seq<u16> {
    Seq::new(bytes.len() / 2, |i: int| le_u16(bytes[2 * i], bytes[2 * i + 1]))
}

/// The complete four-byte groups of `bytes`, each decoded little-endian.
/// Trailing bytes that fill no group are left out.
pub open spec fn le_words32(bytes: Seq<u8>) -> Seq<u32> {
    Seq::new(
        bytes.len() / 4,
        |i: int| le_u32(bytes[4 * i], bytes[4 * i + 1], bytes[4 * i + 2], bytes[4 * i + 3]),
    )
}

/// Decodes two bytes, least significant first.
pub fn u16_from_le(b0: u8, b1: u8) -> (w: u16)
    ensures
        w == le_u16(b0, b1),
{
    b0 as u16 + 0x100 * (b1 as u16)
}

/// Decodes four bytes, least significant first.
pub fn u32_from_le(b0: u8, b1: u8, b2: u8, b3: u8) -> (w: u32)
    ensures
        w == le_u32(b0, b1, b2, b3),
{
    b0 as u32 + 0x100 * (b1 as u32) + 0x1_0000 * (b2 as u32) + 0x100_0000 * (b3 as u32)
}

/// Reads a 16-bit pattern as a two's complement number.
pub fn i16_from_bits(w: u16) -> (v: i16)
    ensures
        v == signed16(w),
{
    if w < 0x8000 {
        w as i16
    } else {
        (w - 0x8000) as i16 + i16::MIN
    }
}

/// Reads a 32-bit pattern as a two's complement number.
pub fn i32_from_bits(w: u32) -> (v: i32)
    ensures
        v == signed32(w),
{
    if w < 0x8000_0000 {
        w as i32
    } else {
        (w - 0x8000_0000) as i32 + i32::MIN
    }
}

/// Decodes every complete four-byte group of `bytes`.
pub fn words32_from_le(bytes: &[u8]) -> (words: Vec<u32>)
    ensures
        words@ == le_words32(bytes@),
{
    let len: usize = bytes.len();
    let count: usize = len / 4;
    let mut words: Vec<u32> = Vec::new();
    let mut i: usize = 0;
    while i < count
        invariant
            i <= count,
            len == bytes@.len(),
            count == len / 4,
            words@ == le_words32(bytes@).take(i as int),
        decreases count - i,
    {
        let w = u32_from_le(bytes[4 * i], bytes[4 * i + 1], bytes[4 * i + 2], bytes[4 * i + 3]);
        words.push(w);
        i += 1;
        assert(words@ =~= le_words32(bytes@).take(i as int));
    }
    assert(words@ =~= le_words32(bytes@));
    words
}

/// A stream cut between two groups decodes piece by piece.
pub proof fn lemma_words32_of_pieces(first: Seq<u8>, second: Seq<u8>)
    requires
        first.len() % 4 == 0,
    ensures
        le_words32(first + second) == le_words32(first) + le_words32(second),
{
    assert(le_words32(first + second) =~= le_words32(first) + le_words32(second));
}

/// The arithmetic reading of a group agrees with assembling its bytes by
/// shifts.
pub proof fn lemma_le_matches_bit_layout(b0: u8, b1: u8, b2: u8, b3: u8)
    ensures
        le_u16(b0, b1) == (b0 as u16) | ((b1 as u16) << 8),
        le_u32(b0, b1, b2, b3) == (b0 as u32) | ((b1 as u32) << 8) | ((b2 as u32) << 16) | ((
        b3 as u32) << 24),
{
    assert((b0 as u16) + 0x100 * (b1 as u16) == (b0 as u16) | ((b1 as u16) << 8))
        by (bit_vector);
    assert((b0 as u32) + 0x100 * (b1 as u32) + 0x1_0000 * (b2 as u32) + 0x100_0000 * (b3 as u32)
        == (b0 as u32) | ((b1 as u32) << 8) | ((b2 as u32) << 16) | ((b3 as u32) << 24))
        by (bit_vector);
}

/// The two's complement reading of a pattern is what a cast to the signed
/// type of the same width gives.
pub proof fn lemma_signed_matches_cast(narrow: u16, wide: u32)
    ensures
        signed16(narrow) == narrow as i16,
        signed32(wide) == wide as i32,
{
    assert(narrow < 0x8000 ==> (narrow as i16) as i32 == narrow as i32) by (bit_vector);
    assert(narrow >= 0x8000 ==> (narrow as i16) as i32 == (narrow as i32) - 0x1_0000i32)
        by (bit_vector);
    assert(wide < 0x8000_0000 ==> (wide as i32) as i64 == wide as i64) by (bit_vector);
    assert(wide >= 0x8000_0000 ==> (wide as i32) as i64 == (wide as i64) - 0x1_0000_0000i64)
        by (bit_vector);
}

} // verus!
