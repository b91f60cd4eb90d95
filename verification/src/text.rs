//! Positional notation of integers as ASCII text.

use vstd::prelude::*;

verus! {

/// The bases in which a value can be written.
#[derive(Clone, Copy, Debug, PartialEq, Eq, Structural)]
pub enum Radix {
    Binary,
    Decimal,
    Hex,
}

impl Radix {
    /// The number of distinct digits of the base.
    pub open spec fn base(self) -> nat {
        match self {
            Radix::Binary => 2,
            Radix::Decimal => 10,
            Radix::Hex => 16,
        }
    }

    /// The number of distinct digits of the base.
    pub fn digit_count(self) -> (b: u64)
        ensures
            b == self.base(),
    {
        match self {
            Radix::Binary => 2,
            Radix::Decimal => 10,
            Radix::Hex => 16,
        }
    }
}

/// The ASCII character of a single digit: `0` to `9`, then `a` to `f`.
pub open spec fn digit_char(d: nat) -> u8
    recommends
        d < 16,
{
    if d < 10 {
        (0x30 + d) as u8
    } else {
        (0x57 + d) as u8
    }
}

/// The notation of `n` in base `base`, most significant digit first and
/// without padding: zero is the single digit `0`.
pub open spec fn digits(n: nat, base: nat) -> Seq<u8>
    recommends
        2 <= base <= 16,
    decreases n,
{
    if base < 2 || n < base {
        seq![digit_char(n)]
    } else {
        proof {
            assert(n / base < n) by (nonlinear_arith)
                requires
                    base >= 2,
                    n >= base,
            ;
        }
        digits(n / base, base).push(digit_char(n % base))
    }
}

/// The notation of an integer: a minus sign before the digits of the
/// magnitude of a negative number, the bare digits otherwise.
pub open spec fn notation(v: int, base: nat) -> Seq<u8>
    recommends
        2 <= base <= 16,
{
    if v < 0 {
        seq![0x2du8] + digits((-v) as nat, base)
    } else {
        digits(v as nat, base)
    }
}

/// The notations of `values`, in order, with nothing between them.
pub open spec fn joined(values: Seq<int>, base: nat) -> Seq<u8>
    recommends
        2 <= base <= 16,
    decreases values.len(),
{
    if values.len() == 0 {
        Seq::empty()
    } else {
        joined(values.drop_last(), base) + notation(values.last(), base)
    }
}

/// Appends the digits of `n` to `out`.
pub fn push_digits(out: &mut Vec<u8>, n: u64, radix: Radix)
    ensures
        final(out)@ == old(out)@ + digits(n as nat, radix.base()),
    decreases n,
{
    let base: u64 = radix.digit_count();
    if n >= base {
        assert(n / base < n) by (nonlinear_arith)
            requires
                base >= 2,
                n >= base,
        ;
        push_digits(out, n / base, radix);
    }
    let d: u64 = n % base;
    let c: u8 = if d < 10 {
        0x30 + d as u8
    } else {
        0x57 + d as u8
    };
    out.push(c);
    proof {
        assert(c == digit_char(d as nat));
        if n < base {
            assert(d == n) by (nonlinear_arith)
                requires
                    d == n % base,
                    n < base,
            ;
            assert(out@ =~= old(out)@ + seq![c]);
        } else {
            let shorter = digits((n / base) as nat, base as nat);
            assert(out@ =~= (old(out)@ + shorter).push(c));
            assert(out@ =~= old(out)@ + shorter.push(c));
        }
    }
}

/// Appends the notation of `v` to `out`.
pub fn push_notation(out: &mut Vec<u8>, v: i64, radix: Radix)
    ensures
        final(out)@ == old(out)@ + notation(v as int, radix.base()),
{
    if v < 0 {
        out.push(0x2d);
        let magnitude: u64 = if v == i64::MIN {
            0x8000_0000_0000_0000
        } else {
            (-v) as u64
        };
        push_digits(out, magnitude, radix);
        assert(out@ =~= old(out)@ + notation(v as int, radix.base()));
    } else {
        push_digits(out, v as u64, radix);
    }
}

/// Joining is a homomorphism: the text of two runs of values, one after the
/// other, is the text of the first followed by the text of the second.
pub proof fn lemma_joined_concat(first: Seq<int>, second: Seq<int>, base: nat)
    ensures
        joined(first + second, base) == joined(first, base) + joined(second, base),
    decreases second.len(),
{
    if second.len() == 0 {
        assert(first + second =~= first);
        assert(joined(first, base) + joined(second, base) =~= joined(first, base));
    } else {
        lemma_joined_concat(first, second.drop_last(), base);
        assert((first + second).drop_last() =~= first + second.drop_last());
        assert((first + second).last() == second.last());
        assert(joined(first + second, base) =~= joined(first, base) + joined(second, base));
    }
}

/// The digit that an ASCII character stands for; the inverse of
/// [`digit_char`].
pub open spec fn digit_value(c: u8) -> nat {
    if 0x30 <= c <= 0x39 {
        (c - 0x30) as nat
    } else {
        (c - 0x57) as nat
    }
}

/// The number that a run of digits denotes in base `base`.
pub open spec fn denoted(text: Seq<u8>, base: nat) -> nat
    decreases text.len(),
{
    if text.len() == 0 {
        0
    } else {
        denoted(text.drop_last(), base) * base + digit_value(text.last())
    }
}

/// The notation of a number denotes that number, so two numbers never share
/// a notation.
pub proof fn lemma_digits_denote(n: nat, base: nat)
    requires
        2 <= base <= 16,
    ensures
        denoted(digits(n, base), base) == n,
    decreases n,
{
    if n < base {
        let text = digits(n, base);
        assert(text.drop_last() =~= Seq::<u8>::empty());
        assert(denoted(text.drop_last(), base) == 0);
        assert(denoted(text.drop_last(), base) * base == 0) by (nonlinear_arith)
            requires
                denoted(text.drop_last(), base) == 0,
        ;
    } else {
        assert(n / base < n && n % base < base && n == (n / base) * base + n % base)
            by (nonlinear_arith)
            requires
                base >= 2,
                n >= base,
        ;
        lemma_digits_denote(n / base, base);
        let shorter = digits(n / base, base);
        let text = shorter.push(digit_char(n % base));
        assert(text.drop_last() =~= shorter);
        assert(digit_value(text.last()) == n % base);
    }
}

/// The notation is never empty, holds only digits of the base, and begins
/// with `0` for zero alone: there is no padding.
pub proof fn lemma_digits_shape(n: nat, base: nat)
    requires
        2 <= base <= 16,
    ensures
        digits(n, base).len() >= 1,
        forall|i: int|
            0 <= i < digits(n, base).len() ==> {
                let c = #[trigger] digits(n, base)[i];
                &&& digit_value(c) < base
                &&& c == digit_char(digit_value(c))
            },
        digits(n, base)[0] == 0x30 <==> n == 0,
    decreases n,
{
    if n >= base {
        assert(0 < n / base < n && n % base < base) by (nonlinear_arith)
            requires
                base >= 2,
                n >= base,
        ;
        lemma_digits_shape(n / base, base);
        let shorter = digits(n / base, base);
        assert(digits(n, base)[0] == shorter[0]);
        assert forall|i: int| 0 <= i < digits(n, base).len() implies {
            let c = #[trigger] digits(n, base)[i];
            &&& digit_value(c) < base
            &&& c == digit_char(digit_value(c))
        } by {
            if i < shorter.len() {
                assert(digits(n, base)[i] == shorter[i]);
            }
        }
    }
}

} // verus!
