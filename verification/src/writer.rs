//! A bit-granular writer, the reverse of the bit cursor. It exists so the
//! primitive encodings can be exercised end to end: what it writes, the
//! reader reads back.

use vstd::prelude::*;

use crate::bitstream::{bit_of, bits8, s_bit};
use crate::codec::{ranged_enc, ranged_enc_rec, ranged_measure, varint_enc};

verus! {

/// Selecting a bit out of an assembled byte yields the bit it was built
/// from.
proof fn lemma_bits8_select(
    b0: bool,
    b1: bool,
    b2: bool,
    b3: bool,
    b4: bool,
    b5: bool,
    b6: bool,
    b7: bool,
    j: u8,
)
    by (bit_vector)
    requires
        j < 8,
    ensures
        bit_of(bits8(b0, b1, b2, b3, b4, b5, b6, b7), j) == (if j == 0 {
            b0
        } else if j == 1 {
            b1
        } else if j == 2 {
            b2
        } else if j == 3 {
            b3
        } else if j == 4 {
            b4
        } else if j == 5 {
            b5
        } else if j == 6 {
            b6
        } else {
            b7
        }),
{
}

/// Accumulates bits in order; `finish` packs them into bytes the bit cursor
/// reads back unchanged.
pub struct BitWriter {
    pub bits: Vec<bool>,
}

impl BitWriter {
    /// An empty stream.
    pub fn new() -> (r: BitWriter)
        ensures
            r.bits@ == Seq::<bool>::empty(),
    {
        BitWriter { bits: Vec::new() }
    }

    /// Appends one bit.
    pub fn write_bit(&mut self, b: bool)
        ensures
            final(self).bits@ == old(self).bits@.push(b),
    {
        self.bits.push(b);
    }

    /// Appends the ranged-int encoding of `x` under exclusive maximum `max`:
    /// the bits `read_serialized_int` consumes to yield `x` again.
    pub fn write_serialized_int(&mut self, x: u32, max: u32)
        requires
            x < max,
        ensures
            final(self).bits@ == old(self).bits@ + ranged_enc(x, max),
    {
        let mut value: u32 = 0;
        let mut mask: u64 = 1;
        loop
            invariant
                x < max,
                1 <= mask <= 0x2_0000_0000u64,
                value < max,
                old(self).bits@ + ranged_enc(x, max) == self.bits@ + ranged_enc_rec(
                    x,
                    max,
                    value,
                    mask,
                ),
            decreases ranged_measure(max, value, mask),
        {
            if (value as u64) + mask >= (max as u64) {
                proof {
                    assert(old(self).bits@ + ranged_enc(x, max) =~= self.bits@);
                }
                return ;
            }
            let bit = ((x as u64) / mask) % 2 == 1;
            self.bits.push(bit);
            if bit {
                value = value + (mask as u32);
            }
            mask = 2 * mask;
            proof {
                assert(old(self).bits@ + ranged_enc(x, max) =~= self.bits@ + ranged_enc_rec(
                    x,
                    max,
                    value,
                    mask,
                ));
            }
        }
    }

    /// Appends the varint encoding of `x` bit by bit, lowest byte first.
    pub fn write_int_packed_bits(&mut self, x: u32)
        ensures
            final(self).bits@.len() == old(self).bits@.len() + 8 * varint_enc(x).len(),
            forall|i: int|
                0 <= i < old(self).bits@.len() ==> final(self).bits@[i] == old(self).bits@[i],
            forall|k: int, j: u8|
                0 <= k < varint_enc(x).len() && j < 8 ==> final(self).bits@[old(
                    self,
                ).bits@.len() + 8 * k + j] == bit_of(varint_enc(x)[k], j),
    {
        let bytes = crate::codec::write_int_packed(x);
        let mut k: usize = 0;
        while k < bytes.len()
            invariant
                bytes@ == varint_enc(x),
                k <= bytes@.len(),
                self.bits@.len() == old(self).bits@.len() + 8 * k,
                forall|i: int|
                    0 <= i < old(self).bits@.len() ==> self.bits@[i] == old(self).bits@[i],
                forall|k2: int, j: u8|
                    0 <= k2 < k && j < 8 ==> self.bits@[old(self).bits@.len() + 8 * k2 + j]
                        == bit_of(bytes@[k2], j),
            decreases bytes@.len() - k,
        {
            let b = bytes[k];
            let mut j: u8 = 0;
            while j < 8
                invariant
                    j <= 8,
                    bytes@ == varint_enc(x),
                    k < bytes@.len(),
                    b == bytes@[k as int],
                    self.bits@.len() == old(self).bits@.len() + 8 * k + j,
                    forall|i: int|
                        0 <= i < old(self).bits@.len() ==> self.bits@[i] == old(self).bits@[i],
                    forall|k2: int, j2: u8|
                        0 <= k2 < k && j2 < 8 ==> self.bits@[old(self).bits@.len() + 8 * k2 + j2]
                            == bit_of(bytes@[k2], j2),
                    forall|j2: u8|
                        j2 < j ==> self.bits@[old(self).bits@.len() + 8 * k + j2] == bit_of(
                            b,
                            j2,
                        ),
                decreases 8 - j,
            {
                self.bits.push(((b >> j) & 1u8) == 1u8);
                j = j + 1;
            }
            k = k + 1;
        }
    }

    /// Packs the accumulated bits into bytes, LSB first within each byte,
    /// zero-padded at the top of the final byte; also returns the bit count.
    pub fn finish(self) -> (r: (Vec<u8>, usize))
        ensures
            r.1 == self.bits@.len(),
            r.0@.len() * 8 >= r.1,
            forall|i: int| 0 <= i < self.bits@.len() ==> s_bit(r.0@, i) == self.bits@[i],
    {
        let n = self.bits.len();
        let mut out: Vec<u8> = Vec::new();
        let mut i: usize = 0;
        while i < n
            invariant
                n == self.bits@.len(),
                i <= n,
                i % 8 == 0,
                out@.len() * 8 == i,
                forall|t: int| 0 <= t < i ==> s_bit(out@, t) == self.bits@[t],
            decreases n - i,
        {
            let b0 = self.pick(i, n, 0);
            let b1 = self.pick(i, n, 1);
            let b2 = self.pick(i, n, 2);
            let b3 = self.pick(i, n, 3);
            let b4 = self.pick(i, n, 4);
            let b5 = self.pick(i, n, 5);
            let b6 = self.pick(i, n, 6);
            let b7 = self.pick(i, n, 7);
            let byte: u8 = (if b0 { 1u8 } else { 0u8 }) | (if b1 { 2u8 } else { 0u8 }) | (if b2 {
                4u8
            } else {
                0u8
            }) | (if b3 { 8u8 } else { 0u8 }) | (if b4 { 16u8 } else { 0u8 }) | (if b5 {
                32u8
            } else {
                0u8
            }) | (if b6 { 64u8 } else { 0u8 }) | (if b7 { 128u8 } else { 0u8 });
            proof {
                let q = i as int / 8;
                assert(8 * q == i) by (nonlinear_arith)
                    requires
                        i % 8 == 0,
                        q == i as int / 8,
                        i >= 0,
                ;
                assert forall|j: u8| j < 8 implies bit_of(byte, j) == (if i + j < n {
                    self.bits@[i + j]
                } else {
                    false
                }) by {
                    lemma_bits8_select(b0, b1, b2, b3, b4, b5, b6, b7, j);
                }
            }
            let ghost out0 = out@;
            out.push(byte);
            proof {
                let q = i as int / 8;
                assert forall|t: int| 0 <= t < i + 8 && t < n implies s_bit(out@, t)
                    == self.bits@[t] by {
                    if t >= i {
                        assert(t / 8 == q && t % 8 == t - i) by (nonlinear_arith)
                            requires
                                i % 8 == 0,
                                i <= t < i + 8,
                                0 <= i,
                                q == i as int / 8,
                        ;
                        let j8: u8 = (t - i) as u8;
                        assert(bit_of(byte, j8) == (if i + j8 < n {
                            self.bits@[i + j8]
                        } else {
                            false
                        }));
                        assert(out@[t / 8] == byte);
                    } else {
                        assert(t / 8 < q) by (nonlinear_arith)
                            requires
                                i % 8 == 0,
                                0 <= t < i,
                                q == i as int / 8,
                                8 * q == i,
                        ;
                        assert(out@[t / 8] == out0[t / 8]);
                        assert(s_bit(out0, t) == self.bits@[t]);
                    }
                }
            }
            if n - i >= 8 {
                i = i + 8;
            } else {
                i = n;
                proof {
                    assert(forall|t: int| 0 <= t < n ==> s_bit(out@, t) == self.bits@[t]);
                }
                return (out, n);
            }
        }
        (out, n)
    }

    /// The bit at `base + j`, or `false` past the end.
    fn pick(&self, base: usize, n: usize, j: usize) -> (r: bool)
        requires
            n == self.bits@.len(),
            base <= n,
            j < 8,
        ensures
            r == (if base + j < n {
                self.bits@[base + j]
            } else {
                false
            }),
    {
        if j < n - base {
            self.bits[base + j]
        } else {
            false
        }
    }
}

} // verus!
