//! The conversion modes and the rendering of a chunk of bytes under each.

use crate::endian::{
    i16_from_bits, i32_from_bits, le_u16, le_u32, le_words16, le_words32,
    lemma_words32_of_pieces, signed16, signed32, u16_from_le, u32_from_le, words32_from_le,
};
use crate::text::{joined, lemma_joined_concat, push_notation, Radix};
use crate::token::{eq_ignoring_case, same_ignoring_case};
use vstd::prelude::*;
use vstd::slice::slice_to_vec;

verus! {

/// How the bytes of the stream are shown.
#[derive(Clone, Copy, Debug, PartialEq, Eq, Structural)]
pub enum ConvertFrom {
    /// The bytes pass through unchanged.
    Raw,
    /// Each byte in lowercase hexadecimal.
    Hex,
    /// Each byte in binary.
    Binary,
    /// Every four bytes as a signed 32-bit integer.
    Int32,
    /// Every four bytes as an unsigned 32-bit integer.
    UInt32,
    /// Every two bytes as a signed 16-bit integer.
    Int16,
    /// Every two bytes as an unsigned 16-bit integer.
    UInt16,
    /// Every four bytes as an IEEE-754 single precision number.
    Float32,
}

/// The error for a word that names no conversion mode.
#[derive(Clone, Copy, Debug, PartialEq, Eq, Structural)]
pub struct InvalidConvertFrom;

impl InvalidConvertFrom {
    /// What to tell the user.
    pub fn message(&self) -> (text: String)
        ensures
            text@ == "ConvertFrom got invalid value"@,
    {
        "ConvertFrom got invalid value".to_owned()
    }
}

impl Default for ConvertFrom {
    /// No conversion.
    fn default() -> (mode: ConvertFrom)
        ensures
            mode == ConvertFrom::Raw,
    {
        ConvertFrom::Raw
    }
}

/// What a chunk of the stream becomes under a conversion mode.
#[derive(Debug)]
pub enum Output {
    /// Text that goes to the sink as it is.
    Text(Vec<u8>),
    /// Bit patterns of single precision numbers, in stream order. The caller
    /// writes the decimal form of each to the sink, with nothing between them.
    FloatBits(Vec<u32>),
}

/// The mathematical content of an [`Output`].
pub enum OutputView {
    Text(Seq<u8>),
    FloatBits(Seq<u32>),
}

impl View for Output {
    type V = OutputView;

    open spec fn view(&self) -> OutputView {
        match self {
            Output::Text(text) => OutputView::Text(text@),
            Output::FloatBits(words) => OutputView::FloatBits(words@),
        }
    }
}

impl ConvertFrom {
    /// The mode that a word names, whatever its case: `NON`, `HEX`, `BIN`,
    /// `INT`, `UINT`, `SHR`, `USHR` or `FLT`.
    pub open spec fn named(word: Seq<char>) -> Option<ConvertFrom> {
        if same_ignoring_case(word, "NON"@) {
            Some(ConvertFrom::Raw)
        } else if same_ignoring_case(word, "HEX"@) {
            Some(ConvertFrom::Hex)
        } else if same_ignoring_case(word, "BIN"@) {
            Some(ConvertFrom::Binary)
        } else if same_ignoring_case(word, "INT"@) {
            Some(ConvertFrom::Int32)
        } else if same_ignoring_case(word, "UINT"@) {
            Some(ConvertFrom::UInt32)
        } else if same_ignoring_case(word, "SHR"@) {
            Some(ConvertFrom::Int16)
        } else if same_ignoring_case(word, "USHR"@) {
            Some(ConvertFrom::UInt16)
        } else if same_ignoring_case(word, "FLT"@) {
            Some(ConvertFrom::Float32)
        } else {
            None
        }
    }

    /// Reads a conversion mode from the word that names it.
    pub fn from_str(s: &str) -> (result: Result<ConvertFrom, InvalidConvertFrom>)
        ensures
            result == match ConvertFrom::named(s@) {
                Some(mode) => Ok::<ConvertFrom, InvalidConvertFrom>(mode),
                None => Err(InvalidConvertFrom),
            },
    {
        if eq_ignoring_case(s, "NON") {
            Ok(ConvertFrom::Raw)
        } else if eq_ignoring_case(s, "HEX") {
            Ok(ConvertFrom::Hex)
        } else if eq_ignoring_case(s, "BIN") {
            Ok(ConvertFrom::Binary)
        } else if eq_ignoring_case(s, "INT") {
            Ok(ConvertFrom::Int32)
        } else if eq_ignoring_case(s, "UINT") {
            Ok(ConvertFrom::UInt32)
        } else if eq_ignoring_case(s, "SHR") {
            Ok(ConvertFrom::Int16)
        } else if eq_ignoring_case(s, "USHR") {
            Ok(ConvertFrom::UInt16)
        } else if eq_ignoring_case(s, "FLT") {
            Ok(ConvertFrom::Float32)
        } else {
            Err(InvalidConvertFrom)
        }
    }

    /// The number of bytes that make up one value.
    pub open spec fn width(self) -> nat {
        match self {
            ConvertFrom::Raw | ConvertFrom::Hex | ConvertFrom::Binary => 1,
            ConvertFrom::Int16 | ConvertFrom::UInt16 => 2,
            ConvertFrom::Int32 | ConvertFrom::UInt32 | ConvertFrom::Float32 => 4,
        }
    }

    /// The base in which the values are written.
    pub open spec fn radix(self) -> Radix {
        match self {
            ConvertFrom::Hex => Radix::Hex,
            ConvertFrom::Binary => Radix::Binary,
            _ => Radix::Decimal,
        }
    }

    /// The integers that the complete groups of `bytes` stand for, in stream
    /// order. Each group is `width()` bytes, least significant first; bytes
    /// after the last complete group stand for nothing. Under `Float32` these
    /// are the bit patterns.
    pub open spec fn values(self, bytes: Seq<u8>) -> Seq<int> {
        match self {
            ConvertFrom::Raw | ConvertFrom::Hex | ConvertFrom::Binary => Seq::new(
                bytes.len(),
                |i: int| bytes[i] as int,
            ),
            ConvertFrom::UInt16 => Seq::new(bytes.len() / 2, |i: int| le_words16(bytes)[i] as int),
            ConvertFrom::Int16 => Seq::new(
                bytes.len() / 2,
                |i: int| signed16(le_words16(bytes)[i]) as int,
            ),
            ConvertFrom::UInt32 | ConvertFrom::Float32 => Seq::new(
                bytes.len() / 4,
                |i: int| le_words32(bytes)[i] as int,
            ),
            ConvertFrom::Int32 => Seq::new(
                bytes.len() / 4,
                |i: int| signed32(le_words32(bytes)[i]) as int,
            ),
        }
    }

    /// What `bytes` become under this mode.
    pub open spec fn transformed(self, bytes: Seq<u8>) -> OutputView {
        match self {
            ConvertFrom::Raw => OutputView::Text(bytes),
            ConvertFrom::Float32 => OutputView::FloatBits(le_words32(bytes)),
            _ => OutputView::Text(joined(self.values(bytes), self.radix().base())),
        }
    }

    fn radix_of(self) -> (r: Radix)
        ensures
            r == self.radix(),
    {
        match self {
            ConvertFrom::Hex => Radix::Hex,
            ConvertFrom::Binary => Radix::Binary,
            _ => Radix::Decimal,
        }
    }

    fn value_count(self, len: usize) -> (count: usize)
        ensures
            count == len as nat / self.width(),
    {
        match self {
            ConvertFrom::Raw | ConvertFrom::Hex | ConvertFrom::Binary => len,
            ConvertFrom::Int16 | ConvertFrom::UInt16 => len / 2,
            ConvertFrom::Int32 | ConvertFrom::UInt32 | ConvertFrom::Float32 => len / 4,
        }
    }

    fn value_at(self, bytes: &[u8], i: usize) -> (v: i64)
        requires
            i < bytes@.len() / self.width(),
        ensures
            v == self.values(bytes@)[i as int],
    {
        assert(bytes@.len() == bytes.len());
        match self {
            ConvertFrom::Raw | ConvertFrom::Hex | ConvertFrom::Binary => bytes[i] as i64,
            ConvertFrom::UInt16 => u16_from_le(bytes[2 * i], bytes[2 * i + 1]) as i64,
            ConvertFrom::Int16 => i16_from_bits(u16_from_le(bytes[2 * i], bytes[2 * i + 1])) as i64,
            ConvertFrom::UInt32 | ConvertFrom::Float32 => u32_from_le(
                bytes[4 * i],
                bytes[4 * i + 1],
                bytes[4 * i + 2],
                bytes[4 * i + 3],
            ) as i64,
            ConvertFrom::Int32 => i32_from_bits(
                u32_from_le(bytes[4 * i], bytes[4 * i + 1], bytes[4 * i + 2], bytes[4 * i + 3]),
            ) as i64,
        }
    }

    /// Renders one chunk of the stream.
    ///
    /// `Raw` hands the bytes back unchanged. `Float32` hands back the bit
    /// pattern of each complete four-byte group. Every other mode writes the
    /// value of each complete group in its base, with no separator and no
    /// padding. Bytes after the last complete group are dropped.
    pub fn transform(self, bytes: &[u8]) -> (out: Output)
        ensures
            out@ == self.transformed(bytes@),
    {
        match self {
            ConvertFrom::Raw => Output::Text(slice_to_vec(bytes)),
            ConvertFrom::Float32 => Output::FloatBits(words32_from_le(bytes)),
            _ => {
                let radix = self.radix_of();
                let count: usize = self.value_count(bytes.len());
                let mut text: Vec<u8> = Vec::new();
                let mut i: usize = 0;
                while i < count
                    invariant
                        i <= count,
                        count == bytes@.len() / self.width(),
                        count == self.values(bytes@).len(),
                        radix == self.radix(),
                        text@ == joined(self.values(bytes@).take(i as int), radix.base()),
                    decreases count - i,
                {
                    let v = self.value_at(bytes, i);
                    push_notation(&mut text, v, radix);
                    proof {
                        let values = self.values(bytes@);
                        assert(values.take(i + 1).drop_last() =~= values.take(i as int));
                        assert(values.take(i + 1).last() == values[i as int]);
                    }
                    i += 1;
                }
                assert(self.values(bytes@).take(count as int) =~= self.values(bytes@));
                Output::Text(text)
            },
        }
    }
}

/// `Raw` is the identity: what goes to the sink is what was read.
pub proof fn lemma_raw_is_identity(bytes: Seq<u8>)
    ensures
        ConvertFrom::Raw.transformed(bytes) == OutputView::Text(bytes),
{
}

/// Nothing read gives nothing to write, in every mode.
pub proof fn lemma_empty_chunk_gives_nothing(mode: ConvertFrom)
    ensures
        mode.transformed(Seq::empty()) == if mode == ConvertFrom::Float32 {
            OutputView::FloatBits(Seq::empty())
        } else {
            OutputView::Text(Seq::empty())
        },
{
    let none = Seq::<u8>::empty();
    assert(mode.values(none) =~= Seq::<int>::empty());
    assert(le_words32(none) =~= Seq::<u32>::empty());
}

/// There is one value for each complete group, and it is the little-endian
/// reading of that group: unsigned, or two's complement under the signed
/// modes.
pub proof fn lemma_values_read_groups(mode: ConvertFrom, bytes: Seq<u8>, i: int)
    requires
        0 <= i < bytes.len() / mode.width(),
    ensures
        mode.values(bytes).len() == bytes.len() / mode.width(),
        mode.values(bytes)[i] == match mode {
            ConvertFrom::Raw | ConvertFrom::Hex | ConvertFrom::Binary => bytes[i] as int,
            ConvertFrom::UInt16 => le_u16(bytes[2 * i], bytes[2 * i + 1]) as int,
            ConvertFrom::Int16 => signed16(le_u16(bytes[2 * i], bytes[2 * i + 1])) as int,
            ConvertFrom::UInt32 | ConvertFrom::Float32 => le_u32(
                bytes[4 * i],
                bytes[4 * i + 1],
                bytes[4 * i + 2],
                bytes[4 * i + 3],
            ) as int,
            ConvertFrom::Int32 => signed32(
                le_u32(bytes[4 * i], bytes[4 * i + 1], bytes[4 * i + 2], bytes[4 * i + 3]),
            ) as int,
        },
{
}

/// Bytes after the last complete group are dropped: the result is that of
/// the complete groups alone.
pub proof fn lemma_incomplete_group_dropped(mode: ConvertFrom, bytes: Seq<u8>)
    ensures
        mode.transformed(bytes) == mode.transformed(
            bytes.take(bytes.len() - bytes.len() % mode.width()),
        ),
{
    let whole = bytes.take(bytes.len() - bytes.len() % mode.width());
    match mode {
        ConvertFrom::Raw => {
            assert(whole =~= bytes);
        },
        ConvertFrom::Float32 => {
            assert(le_words32(whole) =~= le_words32(bytes));
        },
        _ => {
            assert(mode.values(whole) =~= mode.values(bytes));
        },
    }
}

/// A stream cut between two groups converts piece by piece: the values of
/// the whole are those of the first piece followed by those of the second.
pub proof fn lemma_values_of_pieces(mode: ConvertFrom, first: Seq<u8>, second: Seq<u8>)
    requires
        first.len() % mode.width() == 0,
    ensures
        mode.values(first + second) == mode.values(first) + mode.values(second),
{
    assert(mode.values(first + second) =~= mode.values(first) + mode.values(second));
}

/// What is written for a stream cut between two groups is what is written
/// for the first piece followed by what is written for the second.
pub proof fn lemma_transform_of_pieces(mode: ConvertFrom, first: Seq<u8>, second: Seq<u8>)
    requires
        first.len() % mode.width() == 0,
    ensures
        mode.transformed(first + second) == match mode {
            ConvertFrom::Float32 => OutputView::FloatBits(
                le_words32(first) + le_words32(second),
            ),
            ConvertFrom::Raw => OutputView::Text(first + second),
            _ => OutputView::Text(
                joined(mode.values(first), mode.radix().base()) + joined(
                    mode.values(second),
                    mode.radix().base(),
                ),
            ),
        },
{
    lemma_values_of_pieces(mode, first, second);
    lemma_joined_concat(mode.values(first), mode.values(second), mode.radix().base());
    if mode == ConvertFrom::Float32 {
        lemma_words32_of_pieces(first, second);
    }
}

} // verus!
