//! Little-endian, bit-granular cursor over a borrowed byte region, with the
//! engine's primitive reads built on top of it. Every successful read leaves
//! the cursor inside the stream: `bit_pos <= bit_size` always holds.

use vstd::prelude::*;

use crate::bitstream::{s_bit, s_byte, s_chunk};
use crate::UeError;

verus! {

/// A bit cursor over the first `bit_size` bits of `bytes`. Bit 0 is the
/// least-significant bit of byte 0.
pub struct BitReader<'a> {
    pub bytes: &'a [u8],
    pub bit_pos: usize,
    pub bit_size: usize,
}

impl<'a> BitReader<'a> {
    /// The cursor sits inside its stream and the stream inside the region.
    pub open spec fn wf(self) -> bool {
        self.bit_pos <= self.bit_size <= self.bytes@.len() * 8
    }

    /// The stream contents this cursor reads.
    pub open spec fn stream(self) -> Seq<u8> {
        self.bytes@
    }

    /// Views the first `bit_size` bits of `bytes`.
    pub fn new(bytes: &'a [u8], bit_size: usize) -> (r: BitReader<'a>)
        requires
            bit_size <= bytes@.len() * 8,
        ensures
            r.wf(),
            r.stream() == bytes@,
            r.bit_pos == 0,
            r.bit_size == bit_size,
    {
        BitReader { bytes, bit_pos: 0, bit_size }
    }

    /// The current bit position.
    pub fn pos(&self) -> (r: usize)
        ensures
            r == self.bit_pos,
    {
        self.bit_pos
    }

    /// How many bits are left before the end of the stream.
    pub fn remaining_len(&self) -> (r: usize)
        requires
            self.wf(),
        ensures
            r == self.bit_size - self.bit_pos,
    {
        self.bit_size - self.bit_pos
    }

    /// Whether the cursor has reached the end of the stream.
    pub fn at_end(&self) -> (r: bool)
        requires
            self.wf(),
        ensures
            r == (self.bit_pos >= self.bit_size),
    {
        self.bit_size - self.bit_pos == 0
    }

    /// Reads one bit known to be inside the stream.
    fn take_bit(&mut self) -> (r: bool)
        requires
            old(self).wf(),
            old(self).bit_pos < old(self).bit_size,
        ensures
            final(self).wf(),
            final(self).bytes@ == old(self).bytes@,
            final(self).bit_size == old(self).bit_size,
            final(self).bit_pos == old(self).bit_pos + 1,
            r == s_bit(old(self).stream(), old(self).bit_pos as int),
    {
        proof {
            vstd::arithmetic::div_mod::lemma_fundamental_div_mod(
                self.bit_pos as int,
                8,
            );
        }
        let b = *vstd::slice::slice_index_get(self.bytes, self.bit_pos / 8);
        let j: u8 = (self.bit_pos % 8) as u8;
        self.bit_pos = self.bit_pos + 1;
        ((b >> j) & 1u8) == 1u8
    }

    /// Returns the bit at the cursor and advances by one.
    pub fn read_bit(&mut self) -> (r: Result<bool, UeError>)
        requires
            old(self).wf(),
        ensures
            final(self).wf(),
            final(self).bytes@ == old(self).bytes@,
            final(self).bit_size == old(self).bit_size,
            old(self).bit_pos < old(self).bit_size ==> {
                &&& r matches Ok(b) && b == s_bit(old(self).stream(), old(self).bit_pos as int)
                &&& final(self).bit_pos == old(self).bit_pos + 1
            },
            old(self).bit_pos >= old(self).bit_size ==> {
                &&& r matches Err(e) && e == UeError::ReadPastEnd
                &&& final(self).bit_pos == old(self).bit_pos
            },
    {
        if self.bit_size - self.bit_pos == 0 {
            Err(UeError::ReadPastEnd)
        } else {
            Ok(self.take_bit())
        }
    }

    /// Reads `m <= 8` bits known to be inside the stream, LSB first,
    /// zero-padded above.
    fn take_chunk(&mut self, m: u8) -> (r: u8)
        requires
            old(self).wf(),
            m <= 8,
            old(self).bit_pos + m <= old(self).bit_size,
        ensures
            final(self).wf(),
            final(self).bytes@ == old(self).bytes@,
            final(self).bit_size == old(self).bit_size,
            final(self).bit_pos == old(self).bit_pos + m,
            r == s_chunk(old(self).stream(), old(self).bit_pos as int, m as int),
    {
        let b0 = if m > 0 { self.take_bit() } else { false };
        let b1 = if m > 1 { self.take_bit() } else { false };
        let b2 = if m > 2 { self.take_bit() } else { false };
        let b3 = if m > 3 { self.take_bit() } else { false };
        let b4 = if m > 4 { self.take_bit() } else { false };
        let b5 = if m > 5 { self.take_bit() } else { false };
        let b6 = if m > 6 { self.take_bit() } else { false };
        let b7 = if m > 7 { self.take_bit() } else { false };
        (if b0 { 1u8 } else { 0u8 }) | (if b1 { 2u8 } else { 0u8 }) | (if b2 { 4u8 } else { 0u8 })
            | (if b3 { 8u8 } else { 0u8 }) | (if b4 { 16u8 } else { 0u8 }) | (if b5 {
            32u8
        } else {
            0u8
        }) | (if b6 { 64u8 } else { 0u8 }) | (if b7 { 128u8 } else { 0u8 })
    }

    /// Reads the next 8 bits, which may span two underlying bytes.
    pub fn read_byte(&mut self) -> (r: Result<u8, UeError>)
        requires
            old(self).wf(),
        ensures
            final(self).wf(),
            final(self).bytes@ == old(self).bytes@,
            final(self).bit_size == old(self).bit_size,
            old(self).bit_size - old(self).bit_pos >= 8 ==> {
                &&& r matches Ok(b) && b == s_byte(old(self).stream(), old(self).bit_pos as int)
                &&& final(self).bit_pos == old(self).bit_pos + 8
            },
            old(self).bit_size - old(self).bit_pos < 8 ==> {
                &&& r matches Err(e) && e == UeError::ReadPastEnd
                &&& final(self).bit_pos == old(self).bit_pos
            },
    {
        if self.bit_size - self.bit_pos < 8 {
            Err(UeError::ReadPastEnd)
        } else {
            Ok(self.take_chunk(8))
        }
    }

    /// Reads a little-endian 16-bit value via two byte reads.
    pub fn read_u16(&mut self) -> (r: Result<u16, UeError>)
        requires
            old(self).wf(),
        ensures
            final(self).wf(),
            final(self).bytes@ == old(self).bytes@,
            final(self).bit_size == old(self).bit_size,
            old(self).bit_size - old(self).bit_pos >= 16 ==> {
                &&& r matches Ok(v) && v == le_u16(old(self).stream(), old(self).bit_pos as int)
                &&& final(self).bit_pos == old(self).bit_pos + 16
            },
            old(self).bit_size - old(self).bit_pos < 16 ==> {
                &&& r matches Err(e) && e == UeError::ReadPastEnd
                &&& final(self).bit_pos == old(self).bit_pos
            },
    {
        if self.bit_size - self.bit_pos < 16 {
            return Err(UeError::ReadPastEnd);
        }
        let lo = self.take_chunk(8);
        let hi = self.take_chunk(8);
        Ok((lo as u16) + 256 * (hi as u16))
    }

    /// Reads a little-endian 32-bit value via four byte reads.
    pub fn read_u32(&mut self) -> (r: Result<u32, UeError>)
        requires
            old(self).wf(),
        ensures
            final(self).wf(),
            final(self).bytes@ == old(self).bytes@,
            final(self).bit_size == old(self).bit_size,
            old(self).bit_size - old(self).bit_pos >= 32 ==> {
                &&& r matches Ok(v) && v == le_u32(old(self).stream(), old(self).bit_pos as int)
                &&& final(self).bit_pos == old(self).bit_pos + 32
            },
            old(self).bit_size - old(self).bit_pos < 32 ==> {
                &&& r matches Err(e) && e == UeError::ReadPastEnd
                &&& final(self).bit_pos == old(self).bit_pos
            },
    {
        if self.bit_size - self.bit_pos < 32 {
            return Err(UeError::ReadPastEnd);
        }
        let b0 = self.take_chunk(8);
        let b1 = self.take_chunk(8);
        let b2 = self.take_chunk(8);
        let b3 = self.take_chunk(8);
        Ok((b0 as u32) + 256 * ((b1 as u32) + 256 * ((b2 as u32) + 256 * (b3 as u32))))
    }

    /// Reads `bits` bits, little-endian, packed into `ceil(bits / 8)` output
    /// bytes; the last byte is zero-padded above. The caller keeps the exact
    /// bit count separately.
    pub fn read_bits(&mut self, bits: u32) -> (r: Result<Vec<u8>, UeError>)
        requires
            old(self).wf(),
        ensures
            final(self).wf(),
            final(self).bytes@ == old(self).bytes@,
            final(self).bit_size == old(self).bit_size,
            old(self).bit_size - old(self).bit_pos >= bits ==> {
                &&& r matches Ok(v) && read_bits_spec(
                    old(self).stream(),
                    old(self).bit_pos as int,
                    bits as int,
                ) == v@
                &&& final(self).bit_pos == old(self).bit_pos + bits
            },
            old(self).bit_size - old(self).bit_pos < bits ==> {
                &&& r matches Err(e) && e == UeError::ReadPastEnd
                &&& final(self).bit_pos == old(self).bit_pos
            },
    {
        if (self.bit_size - self.bit_pos) < bits as usize {
            return Err(UeError::ReadPastEnd);
        }
        let ghost start = self.bit_pos as int;
        let mut out: Vec<u8> = Vec::new();
        let mut left: u32 = bits;
        while left > 0
            invariant
                self.wf(),
                self.bytes@ == old(self).bytes@,
                self.bit_size == old(self).bit_size,
                left <= bits,
                left > 0 ==> out@.len() * 8 == bits - left,
                left == 0 ==> out@.len() == spec_byte_len(bits as int),
                self.bit_pos == start + (bits - left),
                start + bits <= self.bit_size,
                forall|k: int|
                    0 <= k < out@.len() ==> out@[k] == s_chunk(
                        self.stream(),
                        start + 8 * k,
                        spec_min8(bits - 8 * k),
                    ),
            decreases left,
        {
            let m: u8 = if left >= 8 {
                8u8
            } else {
                left as u8
            };
            let c = self.take_chunk(m);
            out.push(c);
            left = left - m as u32;
        }
        proof {
            assert(read_bits_spec(old(self).stream(), start, bits as int) =~= out@);
        }
        Ok(out)
    }
}

/// `min(8, m)`, the width of an output chunk with `m` stream bits left.
pub open spec fn spec_min8(m: int) -> int {
    if m >= 8 {
        8
    } else {
        m
    }
}

/// `ceil(bits / 8)`: how many bytes hold `bits` bits.
pub open spec fn spec_byte_len(bits: int) -> int {
    (bits + 7) / 8
}

/// The bytes produced by reading `bits` bits at `pos`: full chunks of 8,
/// then one zero-padded remainder chunk.
pub open spec fn read_bits_spec(data: Seq<u8>, pos: int, bits: int) -> Seq<u8> {
    Seq::new(
        if bits >= 0 {
            spec_byte_len(bits) as nat
        } else {
            0
        },
        |k: int| s_chunk(data, pos + 8 * k, spec_min8(bits - 8 * k)),
    )
}

/// The little-endian 16-bit value of the 16 stream bits at `pos`.
pub open spec fn le_u16(data: Seq<u8>, pos: int) -> u16 {
    (s_byte(data, pos) + 256 * s_byte(data, pos + 8)) as u16
}

/// The little-endian 32-bit value of the 32 stream bits at `pos`.
pub open spec fn le_u32(data: Seq<u8>, pos: int) -> u32 {
    (s_byte(data, pos) + 256 * (s_byte(data, pos + 8) + 256 * (s_byte(data, pos + 16) + 256
        * s_byte(data, pos + 24)))) as u32
}

} // verus!
