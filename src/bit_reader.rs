//! A cursor that reads little-endian bit fields out of a sequence of symbol
//! values, each of which carries `byte_size` bits.

use vstd::prelude::*;
use vstd::arithmetic::div_mod::lemma_multiply_divide_lt;

verus! {

/// `2` to the power `n`.
pub open spec fn pow2(n: nat) -> nat
    decreases n,
{
    if n == 0 {
        1
    } else {
        2 * pow2((n - 1) as nat)
    }
}

/// The number of bits that `len` symbols of `byte_size` bits carry.
pub open spec fn total_bits(len: nat, byte_size: nat) -> nat {
    len * byte_size
}

/// Bit `pos` of the stream: bit `pos % byte_size` of symbol `pos / byte_size`.
/// A symbol is a 64-bit value, so its bits from the 64th on are zero.
pub open spec fn bit_at(symbols: Seq<usize>, byte_size: nat, pos: nat) -> nat {
    let shift = pos % byte_size;
    if shift < 64 {
        (((symbols[(pos / byte_size) as int] as u64) >> (shift as u64)) & 1u64) as nat
    } else {
        0
    }
}

/// The number whose bit `k` is bit `pos + k` of the stream, for `k < count`:
/// the field is read least significant bit first.
pub open spec fn bits_value(symbols: Seq<usize>, byte_size: nat, pos: nat, count: nat) -> nat
    decreases count,
{
    if count == 0 {
        0
    } else {
        bit_at(symbols, byte_size, pos) + 2 * bits_value(symbols, byte_size, pos + 1, (count - 1) as nat)
    }
}

/// Reading `count` bits at `pos`: the field's value and the position after it,
/// or `None` where the stream ends first.
pub open spec fn read_field(symbols: Seq<usize>, byte_size: nat, pos: nat, count: nat) -> Option<(nat, nat)> {
    if pos + count <= total_bits(symbols.len(), byte_size) {
        Some((bits_value(symbols, byte_size, pos, count), pos + count))
    } else {
        None
    }
}

pub proof fn lemma_pow2_monotone(a: nat, b: nat)
    requires
        a <= b,
    ensures
        pow2(a) <= pow2(b),
    decreases b,
{
    if a < b {
        lemma_pow2_monotone(a, (b - 1) as nat);
    }
}

proof fn lemma_pow2_64()
    ensures
        pow2(64) == 0x1_0000_0000_0000_0000,
{
    reveal_with_fuel(pow2, 65);
}

pub proof fn lemma_bit_at_is_bit(symbols: Seq<usize>, byte_size: nat, pos: nat)
    ensures
        bit_at(symbols, byte_size, pos) <= 1,
{
    let shift = pos % byte_size;
    if shift < 64 {
        let x = (symbols[(pos / byte_size) as int] as u64) >> (shift as u64);
        assert(x & 1u64 <= 1u64) by (bit_vector);
    }
}

proof fn lemma_double_plus_bit(value: nat, bit: nat, j: nat)
    requires
        value < pow2(j),
        bit <= 1,
        j < 64,
    ensures
        value * 2 + bit < pow2(j + 1),
        pow2(j + 1) <= 0x1_0000_0000_0000_0000,
{
    lemma_pow2_monotone(j + 1, 64);
    lemma_pow2_64();
    assert(pow2(j + 1) == 2 * pow2(j));
}

/// Bit `shift` of a symbol; zero from the 64th bit on.
fn symbol_bit(symbol: usize, shift: u128) -> (r: u64)
    ensures
        r == if shift < 64 {
            ((symbol as u64) >> (shift as u64)) & 1u64
        } else {
            0u64
        },
{
    if shift < 64 {
        ((symbol as u64) >> (shift as u64)) & 1u64
    } else {
        0
    }
}

/// A cursor over the symbol values of a string; each symbol carries
/// `byte_size` bits, and `bit_offset` bits have been consumed.
pub struct BitStreamReader {
    symbols: Vec<usize>,
    byte_size: usize,
    bit_offset: u128,
}

impl BitStreamReader {
    /// The symbol values read from.
    pub closed spec fn symbols(&self) -> Seq<usize> {
        self.symbols@
    }

    /// The number of bits that each symbol carries.
    pub closed spec fn byte_size(&self) -> nat {
        self.byte_size as nat
    }

    /// The number of bits consumed so far.
    pub closed spec fn position(&self) -> nat {
        self.bit_offset as nat
    }

    /// The number of bits of the whole stream.
    pub open spec fn total(&self) -> nat {
        total_bits(self.symbols().len(), self.byte_size())
    }

    /// Symbols carry at least one bit, and the cursor is within the stream.
    pub open spec fn well_formed(&self) -> bool {
        &&& self.byte_size() > 0
        &&& self.position() <= self.total()
    }

    /// A cursor at the first bit of `symbols`.
    pub fn new(symbols: Vec<usize>, byte_size: usize) -> (r: BitStreamReader)
        requires
            byte_size > 0,
        ensures
            r.well_formed(),
            r.symbols() == symbols@,
            r.byte_size() == byte_size,
            r.position() == 0,
    {
        BitStreamReader { symbols, byte_size, bit_offset: 0 }
    }

    /// The bits of the stream that are not consumed yet.
    fn remaining(&self) -> (r: u128)
        requires
            self.well_formed(),
        ensures
            r == self.total() - self.position(),
            self.total() <= u128::MAX,
    {
        assert((self.symbols.len() as u128) * (self.byte_size as u128) <= u128::MAX) by (nonlinear_arith)
            requires
                self.symbols.len() <= u64::MAX,
                self.byte_size <= u64::MAX,
        ;
        (self.symbols.len() as u128) * (self.byte_size as u128) - self.bit_offset
    }

    /// Reads the next `count` bits, least significant first. Where fewer than
    /// `count` bits are left, nothing is consumed and the result is `None`.
    pub fn read_bits(&mut self, count: usize) -> (r: Option<u64>)
        requires
            old(self).well_formed(),
            count <= 64,
        ensures
            final(self).well_formed(),
            final(self).symbols() == old(self).symbols(),
            final(self).byte_size() == old(self).byte_size(),
            r == match read_field(old(self).symbols(), old(self).byte_size(), old(self).position(), count as nat) {
                Some((v, _)) => Some(v as u64),
                None => None::<u64>,
            },
            final(self).position() == match read_field(
                old(self).symbols(),
                old(self).byte_size(),
                old(self).position(),
                count as nat,
            ) {
                Some((_, p)) => p,
                None => old(self).position(),
            },
            r matches Some(v) ==> v as nat == bits_value(
                old(self).symbols(),
                old(self).byte_size(),
                old(self).position(),
                count as nat,
            ),
    {
        if count as u128 > self.remaining() {
            return None;
        }
        let ghost syms = self.symbols@;
        let ghost b = self.byte_size as nat;
        let ghost start = self.bit_offset as nat;
        let mut value: u64 = 0;
        let mut k: usize = count;
        while k > 0
            invariant
                syms == self.symbols@,
                b == self.byte_size,
                b > 0,
                start == self.bit_offset,
                start + count <= total_bits(syms.len(), b),
                total_bits(syms.len(), b) <= u128::MAX,
                count <= 64,
                k <= count,
                value as nat == bits_value(syms, b, (start + k) as nat, (count - k) as nat),
                value < pow2((count - k) as nat),
            decreases k,
        {
            k -= 1;
            let pos: u128 = self.bit_offset + k as u128;
            proof {
                assert(b * syms.len() == syms.len() * b) by (nonlinear_arith);
                assert((pos as int) < (b as int) * (syms.len() as int));
                lemma_multiply_divide_lt(pos as int, b as int, syms.len() as int);
                assert((pos as int) / (b as int) < syms.len());
            }
            let quotient: u128 = pos / (self.byte_size as u128);
            assert(quotient < self.symbols.len());
            let index = quotient as usize;
            let shift = pos % (self.byte_size as u128);
            let bit = symbol_bit(self.symbols[index], shift);
            proof {
                assert(index == (pos as nat) / b);
                assert(shift == (pos as nat) % b);
                assert(bit as nat == bit_at(syms, b, pos as nat));
                lemma_bit_at_is_bit(syms, b, pos as nat);
                lemma_double_plus_bit(value as nat, bit as nat, (count - k - 1) as nat);
            }
            value = value * 2 + bit;
        }
        self.bit_offset = self.bit_offset + count as u128;
        Some(value)
    }

    /// Consumes the next `count` bits without reading them. Where fewer than
    /// `count` bits are left, nothing is consumed and the result is `false`.
    pub fn skip_bits(&mut self, count: usize) -> (r: bool)
        requires
            old(self).well_formed(),
        ensures
            final(self).well_formed(),
            final(self).symbols() == old(self).symbols(),
            final(self).byte_size() == old(self).byte_size(),
            r == (old(self).position() + count <= old(self).total()),
            final(self).position() == if r {
                (old(self).position() + count) as nat
            } else {
                old(self).position()
            },
    {
        if count as u128 > self.remaining() {
            return false;
        }
        self.bit_offset = self.bit_offset + count as u128;
        true
    }
}

} // verus!
