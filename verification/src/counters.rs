//! The throughput counters of one reporting window.

use vstd::prelude::*;

verus! {

broadcast use vstd::seq_lib::to_multiset_build;

/// The byte that separates words.
pub const SPACE: u8 = 0x20;

/// The byte that is counted as a comma.
pub const COMMA: u8 = 0x2c;

/// The byte that ends a line.
pub const NEWLINE: u8 = 0x0a;

/// How often `byte` occurs in `bytes`.
pub open spec fn occurrences(bytes: Seq<u8>, byte: u8) -> nat {
    bytes.to_multiset().count(byte)
}

/// Nothing occurs in the empty sequence.
pub proof fn lemma_occurrences_empty(byte: u8)
    ensures
        occurrences(Seq::empty(), byte) == 0,
{
    broadcast use vstd::multiset::group_multiset_axioms;

    Seq::<u8>::empty().to_multiset_ensures();
}

/// One more byte at the end adds one occurrence of itself and none of any
/// other byte.
pub proof fn lemma_occurrences_push(bytes: Seq<u8>, last: u8, byte: u8)
    ensures
        occurrences(bytes.push(last), byte) == occurrences(bytes, byte) + if last == byte {
            1nat
        } else {
            0nat
        },
{
}

/// A byte occurs at most once for each place of the sequence.
pub proof fn lemma_occurrences_bounded(bytes: Seq<u8>, byte: u8)
    ensures
        occurrences(bytes, byte) <= bytes.len(),
{
    broadcast use vstd::multiset::group_multiset_axioms;

    bytes.to_multiset_ensures();
}

/// `n`, held at the largest value a counter can take.
pub open spec fn saturated(n: int) -> u64
    recommends
        n >= 0,
{
    if n > u64::MAX {
        u64::MAX
    } else {
        n as u64
    }
}

/// What has passed through since the reporting window began. A counter that
/// reaches `u64::MAX` stays there.
#[derive(Clone, Copy, Debug, PartialEq, Eq, Structural)]
pub struct Counters {
    pub bytes: u64,
    pub words: u64,
    pub commas: u64,
    pub lines: u64,
}

impl Counters {
    /// The counters of a window through which nothing has passed.
    pub open spec fn zero() -> Counters {
        Counters { bytes: 0, words: 0, commas: 0, lines: 0 }
    }

    /// The counters after `n` more bytes were read.
    pub open spec fn with_bytes(self, n: nat) -> Counters {
        Counters { bytes: saturated(self.bytes + n), ..self }
    }

    /// The counters after the spaces, commas and newlines of `bytes` were
    /// counted as words, commas and lines.
    pub open spec fn with_marks(self, bytes: Seq<u8>) -> Counters {
        Counters {
            words: saturated(self.words + occurrences(bytes, SPACE)),
            commas: saturated(self.commas + occurrences(bytes, COMMA)),
            lines: saturated(self.lines + occurrences(bytes, NEWLINE)),
            ..self
        }
    }

    /// No counter of `self` is above its counterpart in `later`.
    pub open spec fn not_above(self, later: Counters) -> bool {
        &&& self.bytes <= later.bytes
        &&& self.words <= later.words
        &&& self.commas <= later.commas
        &&& self.lines <= later.lines
    }

    /// Counters that are all zero.
    pub fn new() -> (c: Counters)
        ensures
            c == Counters::zero(),
    {
        Counters { bytes: 0, words: 0, commas: 0, lines: 0 }
    }

    /// Counts `n` more bytes.
    pub fn add_bytes(&mut self, n: usize)
        ensures
            *final(self) == old(self).with_bytes(n as nat),
    {
        self.bytes = self.bytes.saturating_add(n as u64);
    }

    /// Counts each space of `bytes` as a word, each comma as a comma and each
    /// newline as a line. The byte counter is left alone.
    pub fn scan(&mut self, bytes: &[u8])
        ensures
            *final(self) == old(self).with_marks(bytes@),
    {
        let len: usize = bytes.len();
        let mut words: usize = 0;
        let mut commas: usize = 0;
        let mut lines: usize = 0;
        let mut i: usize = 0;
        proof {
            assert(bytes@.take(0) =~= Seq::<u8>::empty());
            lemma_occurrences_empty(SPACE);
            lemma_occurrences_empty(COMMA);
            lemma_occurrences_empty(NEWLINE);
        }
        while i < len
            invariant
                i <= len,
                len == bytes@.len(),
                words == occurrences(bytes@.take(i as int), SPACE),
                commas == occurrences(bytes@.take(i as int), COMMA),
                lines == occurrences(bytes@.take(i as int), NEWLINE),
                words <= i,
                commas <= i,
                lines <= i,
            decreases len - i,
        {
            let b = bytes[i];
            assert(bytes@.take(i + 1) =~= bytes@.take(i as int).push(b));
            if b == SPACE {
                words += 1;
            } else if b == COMMA {
                commas += 1;
            } else if b == NEWLINE {
                lines += 1;
            }
            i += 1;
        }
        assert(bytes@.take(len as int) =~= bytes@);
        self.words = self.words.saturating_add(words as u64);
        self.commas = self.commas.saturating_add(commas as u64);
        self.lines = self.lines.saturating_add(lines as u64);
    }
}

/// Counting never lowers a counter.
pub proof fn lemma_counting_never_lowers(before: Counters, bytes: Seq<u8>)
    ensures
        before.not_above(before.with_bytes(bytes.len())),
        before.not_above(before.with_marks(bytes)),
{
}

/// Counting nothing changes nothing.
pub proof fn lemma_counting_nothing(before: Counters)
    ensures
        before.with_bytes(0) == before,
        before.with_marks(Seq::empty()) == before,
{
    lemma_occurrences_empty(SPACE);
    lemma_occurrences_empty(COMMA);
    lemma_occurrences_empty(NEWLINE);
}

} // verus!
