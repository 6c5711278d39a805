//! The two integer encodings of the wire format: the continuation varint
//! (7 value bits per byte, continuation flag in the LSB) and the ranged int
//! (an LSB-first bit-length-adaptive encoding for values in `[0, max)`).

use vstd::prelude::*;

use crate::bitstream::{s_bit, s_byte, s_bytes};
use crate::bitreader::BitReader;
use crate::UeError;

verus! {

/// `128^c`: the weight of the `c`-th varint chunk. Five chunks cover a
/// 32-bit value.
pub open spec fn p7(c: u32) -> u32 {
    match c {
        0 => 0x1,
        1 => 0x80,
        2 => 0x4000,
        3 => 0x200000,
        _ => 0x10000000,
    }
}

/// Decodes a continuation varint from `chunks[k..]`, `count` chunks already
/// consumed into `acc`. The fifth chunk may only carry the top four bits of
/// a 32-bit value; more is an overflow.
pub open spec fn varint_rec(chunks: Seq<u8>, k: int, count: u32, acc: u32) -> Result<
    (u32, int),
    UeError,
>
    decreases 4 - count,
{
    if k >= chunks.len() {
        Err(UeError::ReadPastEnd)
    } else {
        let byte = chunks[k];
        let chunk = byte / 2;
        if count >= 4 && chunk >= 16 {
            Err(UeError::VarintOverflow)
        } else {
            let acc2 = (acc + chunk * p7(count)) as u32;
            if byte % 2 == 1 {
                if count >= 4 {
                    Err(UeError::VarintOverflow)
                } else {
                    varint_rec(chunks, k + 1, (count + 1) as u32, acc2)
                }
            } else {
                Ok((acc2, k + 1))
            }
        }
    }
}

/// Decodes a continuation varint from the start of `chunks`; returns the
/// value and the number of bytes consumed.
pub open spec fn varint_spec(chunks: Seq<u8>) -> Result<(u32, int), UeError> {
    varint_rec(chunks, 0, 0, 0)
}

/// The canonical varint encoding of `x`: seven value bits per byte above a
/// continuation flag in the LSB.
pub open spec fn varint_enc(x: u32) -> Seq<u8>
    decreases x,
    via varint_enc_dec
{
    if x < 128 {
        seq![(2 * x) as u8]
    } else {
        seq![(2 * (x % 128) + 1) as u8] + varint_enc((x / 128) as u32)
    }
}

#[via_fn]
proof fn varint_enc_dec(x: u32) {
    if x >= 128 {
        assert(x / 128 < x) by (nonlinear_arith)
            requires
                x >= 128,
        ;
    }
}

/// The whole bytes that remain in the bit stream `data` of `size` bits from
/// bit position `pos` on.
pub open spec fn tail_bytes(data: Seq<u8>, pos: int, size: int) -> Seq<u8> {
    s_bytes(data, pos, (size - pos) / 8)
}

impl<'a> BitReader<'a> {
    /// Reads a continuation varint: each source byte's LSB says whether more
    /// bytes follow; the upper 7 bits contribute value bits, lowest chunk
    /// first.
    pub fn read_int_packed(&mut self) -> (r: Result<u32, UeError>)
        requires
            old(self).wf(),
        ensures
            final(self).wf(),
            final(self).bytes@ == old(self).bytes@,
            final(self).bit_size == old(self).bit_size,
            final(self).bit_pos >= old(self).bit_pos,
            ({
                let spec_r = varint_spec(
                    tail_bytes(
                        old(self).stream(),
                        old(self).bit_pos as int,
                        old(self).bit_size as int,
                    ),
                );
                match spec_r {
                    Ok((v, n)) => r matches Ok(rv) && rv == v && final(self).bit_pos == old(
                        self,
                    ).bit_pos + 8 * n,
                    Err(e) => r matches Err(re) && re == e,
                }
            }),
    {
        let ghost chunks = tail_bytes(
            old(self).stream(),
            old(self).bit_pos as int,
            old(self).bit_size as int,
        );
        let ghost pos0 = old(self).bit_pos as int;
        let mut value: u32 = 0;
        let mut count: u32 = 0;
        loop
            invariant
                self.wf(),
                self.bytes@ == old(self).bytes@,
                self.bit_size == old(self).bit_size,
                count <= 4,
                value < p7(count),
                self.bit_pos == pos0 + 8 * count,
                pos0 == old(self).bit_pos,
                pos0 <= self.bit_size,
                chunks == tail_bytes(old(self).stream(), pos0, self.bit_size as int),
                varint_spec(chunks) == varint_rec(chunks, count as int, count, value),
            decreases 5 - count,
        {
            proof {
                let d = self.bit_size - pos0;
                assert((count < d / 8) <==> (8 * count + 8 <= d)) by (nonlinear_arith)
                    requires
                        d >= 0,
                        count >= 0,
                ;
            }
            if self.bit_size - self.bit_pos < 8 {
                return Err(UeError::ReadPastEnd);
            }
            let byte = match self.read_byte() {
                Ok(b) => b,
                Err(e) => {
                    return Err(e);
                },
            };
            proof {
                assert(chunks[count as int] == s_byte(self.bytes@, pos0 + 8 * count));
            }
            let chunk: u8 = byte / 2;
            if count == 4 && chunk >= 16 {
                return Err(UeError::VarintOverflow);
            }
            let weight: u32 = if count == 0 {
                0x1
            } else if count == 1 {
                0x80
            } else if count == 2 {
                0x4000
            } else if count == 3 {
                0x200000
            } else {
                0x10000000
            };
            proof {
                assert(value + (chunk as u32) * weight < 0x1_0000_0000) by (nonlinear_arith)
                    requires
                        weight == p7(count),
                        value < p7(count),
                        chunk < 128,
                        count == 4 ==> chunk < 16,
                        count <= 4,
                ;
                if count < 4 {
                    assert(value + (chunk as u32) * p7(count) < p7((count + 1) as u32))
                        by (nonlinear_arith)
                        requires
                            value < p7(count),
                            chunk < 128,
                            count < 4,
                    ;
                }
            }
            value = value + (chunk as u32) * weight;
            if byte % 2 == 0 {
                return Ok(value);
            }
            if count == 4 {
                return Err(UeError::VarintOverflow);
            }
            count = count + 1;
        }
    }
}

/// Encodes `x` as a continuation varint, the reverse of `read_int_packed`.
pub fn write_int_packed(x: u32) -> (r: Vec<u8>)
    ensures
        r@ == varint_enc(x),
{
    let mut out: Vec<u8> = Vec::new();
    let mut rest: u32 = x;
    loop
        invariant
            varint_enc(x) == out@ + varint_enc(rest),
        decreases rest,
    {
        if rest < 128 {
            out.push((2 * rest) as u8);
            proof {
                assert(varint_enc(x) =~= out@);
            }
            return out;
        }
        out.push((2 * (rest % 128) + 1) as u8);
        proof {
            assert(varint_enc(x) =~= out@ + varint_enc((rest / 128) as u32));
            assert(rest / 128 < rest) by (nonlinear_arith)
                requires
                    rest >= 128,
            ;
        }
        rest = rest / 128;
    }
}

/// Any value below `128^c` fits the varint chunks left after `c` consumed
/// ones; its decode from a matching chunk sequence restores it exactly.
proof fn lemma_varint_dec(chunks: Seq<u8>, k: int, count: u32, acc: u32, x: u32)
    requires
        count <= 4,
        count < 4 ==> acc < p7(count),
        count == 4 ==> acc < 0x10000000,
        count == 1 ==> x < 0x2000000,
        count == 2 ==> x < 0x40000,
        count == 3 ==> x < 0x800,
        count == 4 ==> x < 0x10,
        0 <= k,
        k + varint_enc(x).len() <= chunks.len(),
        forall|i: int|
            0 <= i < varint_enc(x).len() ==> chunks[k + i] == varint_enc(x)[i],
    ensures
        varint_rec(chunks, k, count, acc) == Ok::<(u32, int), UeError>(
            ((acc + x * p7(count)) as u32, k + varint_enc(x).len()),
        ),
    decreases x,
{
    let byte = chunks[k];
    if x < 128 {
        assert(chunks[k + 0] == varint_enc(x)[0]);
        assert(byte == (2 * x) as u8);
        assert(byte / 2 == x && byte % 2 == 0) by (nonlinear_arith)
            requires
                byte == 2 * x,
                x < 128,
        ;
    } else {
        let lo = (x % 128) as u32;
        let hi = (x / 128) as u32;
        assert(chunks[k + 0] == varint_enc(x)[0]);
        assert(byte == (2 * lo + 1) as u8);
        assert(byte / 2 == lo && byte % 2 == 1) by (nonlinear_arith)
            requires
                byte == 2 * lo + 1,
                lo < 128,
        ;
        assert(count < 4) by {
            if count == 4 {
                assert(x < 0x10);
            }
        }
        assert(x == 128 * hi + lo) by (nonlinear_arith)
            requires
                hi == x / 128,
                lo == x % 128,
        ;
        let acc2 = (acc + lo * p7(count)) as u32;
        assert(acc + lo * p7(count) < p7((count + 1) as u32)) by (nonlinear_arith)
            requires
                count < 4,
                acc < p7(count),
                lo < 128,
                p7((count + 1) as u32) == 128 * p7(count),
        ;
        assert(hi < 0x2000000 && (count + 1 == 2 ==> hi < 0x40000) && (count + 1 == 3 ==> hi
            < 0x800) && (count + 1 == 4 ==> hi < 0x10)) by (nonlinear_arith)
            requires
                hi == x / 128,
                x < 0x1_0000_0000,
                count + 1 == 2 ==> x < 0x2000000,
                count + 1 == 3 ==> x < 0x40000,
                count + 1 == 4 ==> x < 0x800,
        ;
        assert(hi < x) by (nonlinear_arith)
            requires
                hi == x / 128,
                x >= 128,
        ;
        assert forall|i: int|
            0 <= i < varint_enc(hi).len() implies chunks[k + 1 + i] == varint_enc(hi)[i] by {
            assert(chunks[k + 1 + i] == varint_enc(x)[1 + i]);
        }
        lemma_varint_dec(chunks, k + 1, (count + 1) as u32, acc2, hi);
        assert(acc2 + hi * p7((count + 1) as u32) == acc + x * p7(count)) by (nonlinear_arith)
            requires
                acc2 == acc + lo * p7(count),
                x == 128 * hi + lo,
                p7((count + 1) as u32) == 128 * p7(count),
        ;
    }
}

/// Round trip of the continuation varint: decoding the canonical encoding of
/// any 32-bit value, at the head of any longer chunk sequence, restores the
/// value and consumes exactly the encoding.
pub proof fn lemma_varint_roundtrip(x: u32, chunks: Seq<u8>)
    requires
        varint_enc(x).len() <= chunks.len(),
        forall|i: int| 0 <= i < varint_enc(x).len() ==> chunks[i] == varint_enc(x)[i],
    ensures
        varint_spec(chunks) == Ok::<(u32, int), UeError>((x, varint_enc(x).len() as int)),
{
    lemma_varint_dec(chunks, 0, 0, 0, x);
}


/// How far the greedy mask loop still has to go: it stops as soon as
/// `value + mask` reaches `max`.
pub open spec fn ranged_measure(max: u32, value: u32, mask: u64) -> int {
    if value + mask < max {
        max - value - mask
    } else {
        0
    }
}

/// Decodes a ranged int bit by bit: while `value + mask < max`, a set bit
/// at the cursor adds `mask` to `value`, and `mask` doubles.
pub open spec fn ranged_rec(
    data: Seq<u8>,
    size: int,
    pos: int,
    max: u32,
    value: u32,
    mask: u64,
) -> Result<(u32, int), UeError>
    decreases ranged_measure(max, value, mask),
    when mask >= 1
{
    if value + mask >= max {
        Ok((value, pos))
    } else if pos >= size {
        Err(UeError::ReadPastEnd)
    } else {
        ranged_rec(
            data,
            size,
            pos + 1,
            max,
            if s_bit(data, pos) {
                (value + mask) as u32
            } else {
                value
            },
            (2 * mask) as u64,
        )
    }
}

/// Decodes a ranged int with exclusive maximum `max` at bit position `pos`.
pub open spec fn ranged_spec(data: Seq<u8>, size: int, pos: int, max: u32) -> Result<
    (u32, int),
    UeError,
> {
    ranged_rec(data, size, pos, max, 0, 1)
}

/// The bits the greedy loop would consume for `x`, continued from state
/// `(value, mask)`: the bit of weight `mask` in `x`, while the loop runs.
pub open spec fn ranged_enc_rec(x: u32, max: u32, value: u32, mask: u64) -> Seq<bool>
    decreases ranged_measure(max, value, mask),
    when mask >= 1
{
    if value + mask >= max {
        Seq::empty()
    } else {
        let bit = ((x as u64) / mask) % 2 == 1;
        seq![bit] + ranged_enc_rec(
            x,
            max,
            if bit {
                (value + mask) as u32
            } else {
                value
            },
            (2 * mask) as u64,
        )
    }
}

/// The ranged-int encoding of `x` under exclusive maximum `max`: the
/// tightest LSB-first prefix that can represent all values in `[0, max)`.
pub open spec fn ranged_enc(x: u32, max: u32) -> Seq<bool> {
    ranged_enc_rec(x, max, 0, 1)
}

/// A successful ranged decode stays below `max` and within the stream.
pub proof fn lemma_ranged_bounds(data: Seq<u8>, size: int, pos: int, max: u32, value: u32, mask: u64)
    requires
        mask >= 1,
        value + mask >= max || value < max,
    ensures
        ranged_rec(data, size, pos, max, value, mask) matches Ok(vp) ==> {
            &&& vp.0 < max || (vp.0 == value && value + mask >= max)
            &&& pos <= vp.1
            &&& (pos <= size ==> vp.1 <= size)
        },
    decreases ranged_measure(max, value, mask),
{
    if value + mask >= max {
    } else if pos >= size {
    } else {
        let v2: u32 = if s_bit(data, pos) {
            (value + mask) as u32
        } else {
            value
        };
        lemma_ranged_bounds(data, size, pos + 1, max, v2, (2 * mask) as u64);
    }
}

/// Decoding the greedy encoding of `x`, continued from a matching loop
/// state, restores `x` and consumes exactly the encoded bits.
proof fn lemma_ranged_dec(
    data: Seq<u8>,
    size: int,
    pos: int,
    max: u32,
    value: u32,
    mask: u64,
    x: u32,
)
    requires
        1 <= mask <= 0x2_0000_0000u64,
        x < max,
        value as u64 == (x as u64) % mask,
        0 <= pos,
        pos + ranged_enc_rec(x, max, value, mask).len() <= size,
        forall|i: int|
            0 <= i < ranged_enc_rec(x, max, value, mask).len() ==> s_bit(data, pos + i)
                == ranged_enc_rec(x, max, value, mask)[i],
    ensures
        ranged_rec(data, size, pos, max, value, mask) == Ok::<(u32, int), UeError>(
            (x, pos + ranged_enc_rec(x, max, value, mask).len()),
        ),
    decreases ranged_measure(max, value, mask),
{
    let enc = ranged_enc_rec(x, max, value, mask);
    if value + mask >= max {
        assert(value == x) by (nonlinear_arith)
            requires
                value as u64 == (x as u64) % mask,
                mask >= 1,
                x < max,
                value + mask >= max,
        ;
    } else {
        let bit = ((x as u64) / mask) % 2 == 1;
        let v2: u32 = if bit {
            (value + mask) as u32
        } else {
            value
        };
        assert(enc =~= seq![bit] + ranged_enc_rec(x, max, v2, (2 * mask) as u64));
        assert(enc[0] == bit);
        assert(s_bit(data, pos + 0) == bit);
        {
            let xi = x as int;
            let mi = mask as int;
            vstd::arithmetic::div_mod::lemma_fundamental_div_mod(xi, mi);
            vstd::arithmetic::div_mod::lemma_mod_bound(xi, mi);
            vstd::arithmetic::div_mod::lemma_div_pos_is_pos(xi, mi);
            let q = xi / mi;
            let r = xi % mi;
            vstd::arithmetic::div_mod::lemma_fundamental_div_mod(q, 2);
            vstd::arithmetic::div_mod::lemma_mod_bound(q, 2);
            assert(xi == (2 * mi) * (q / 2) + ((q % 2) * mi + r) && 0 <= (q % 2) * mi + r < 2
                * mi) by (nonlinear_arith)
                requires
                    xi == mi * q + r,
                    q == 2 * (q / 2) + (q % 2),
                    0 <= q % 2 < 2,
                    0 <= r < mi,
                    1 <= mi,
                    0 <= q,
            ;
            vstd::arithmetic::div_mod::lemma_fundamental_div_mod_converse(
                xi,
                2 * mi,
                q / 2,
                (q % 2) * mi + r,
            );
            assert(r == value as int);
            assert(xi % (2 * mi) == (q % 2) * mi + r);
            if q % 2 == 1 {
                assert((q % 2) * mi + r == mi + r) by (nonlinear_arith)
                    requires
                        q % 2 == 1,
                ;
            } else {
                assert((q % 2) * mi + r == r) by (nonlinear_arith)
                    requires
                        q % 2 == 0,
                ;
            }
            assert(bit <==> q % 2 == 1);
            assert((2 * mask) as u64 == 2 * mi);
            assert(v2 as u64 == (x as u64) % ((2 * mask) as u64));
        }
        assert(v2 as u64 == (x as u64) % ((2 * mask) as u64));
        let enc2 = ranged_enc_rec(x, max, v2, (2 * mask) as u64);
        assert(enc =~= seq![bit] + enc2);
        assert forall|i: int| 0 <= i < enc2.len() implies s_bit(data, pos + 1 + i) == enc2[i] by {
            assert(s_bit(data, pos + (1 + i)) == enc[1 + i]);
        }
        lemma_ranged_dec(data, size, pos + 1, max, v2, (2 * mask) as u64, x);
    }
}

/// Round trip of the ranged int: for any `x < max`, decoding at a position
/// where the stream carries the greedy encoding of `x` restores `x` and
/// consumes exactly those bits.
pub proof fn lemma_ranged_roundtrip(data: Seq<u8>, size: int, pos: int, max: u32, x: u32)
    requires
        x < max,
        0 <= pos,
        pos + ranged_enc(x, max).len() <= size,
        forall|i: int|
            0 <= i < ranged_enc(x, max).len() ==> s_bit(data, pos + i) == ranged_enc(x, max)[i],
    ensures
        ranged_spec(data, size, pos, max) == Ok::<(u32, int), UeError>(
            (x, pos + ranged_enc(x, max).len()),
        ),
{
    lemma_ranged_dec(data, size, pos, max, 0, 1, x);
}

impl<'a> BitReader<'a> {
    /// Decodes a ranged int with exclusive maximum `max_value`, reading the
    /// tightest LSB-first prefix that can represent all values in
    /// `[0, max_value)`.
    pub fn read_serialized_int(&mut self, max_value: u32) -> (r: Result<u32, UeError>)
        requires
            old(self).wf(),
        ensures
            final(self).wf(),
            final(self).bytes@ == old(self).bytes@,
            final(self).bit_size == old(self).bit_size,
            final(self).bit_pos >= old(self).bit_pos,
            ({
                let spec_r = ranged_spec(
                    old(self).stream(),
                    old(self).bit_size as int,
                    old(self).bit_pos as int,
                    max_value,
                );
                match spec_r {
                    Ok((v, p)) => r matches Ok(rv) && rv == v && final(self).bit_pos == p,
                    Err(e) => r matches Err(re) && re == e,
                }
            }),
            r matches Ok(rv) ==> rv < max_value || rv == 0,
    {
        let ghost pos0 = old(self).bit_pos as int;
        let mut value: u32 = 0;
        let mut mask: u64 = 1;
        proof {
            lemma_ranged_bounds(
                self.bytes@,
                self.bit_size as int,
                pos0,
                max_value,
                0,
                1,
            );
        }
        loop
            invariant
                self.wf(),
                self.bytes@ == old(self).bytes@,
                self.bit_size == old(self).bit_size,
                self.bit_pos >= pos0,
                pos0 == old(self).bit_pos,
                1 <= mask <= 0x2_0000_0000u64,
                value < max_value || value == 0,
                ranged_spec(
                    old(self).stream(),
                    old(self).bit_size as int,
                    pos0,
                    max_value,
                ) == ranged_rec(
                    self.bytes@,
                    self.bit_size as int,
                    self.bit_pos as int,
                    max_value,
                    value,
                    mask,
                ),
            decreases ranged_measure(max_value, value, mask),
        {
            if (value as u64) + mask >= (max_value as u64) {
                return Ok(value);
            }
            let bit = match self.read_bit() {
                Ok(b) => b,
                Err(e) => {
                    return Err(e);
                },
            };
            if bit {
                value = value + (mask as u32);
            }
            mask = 2 * mask;
        }
    }
}


/// Every successful ranged decode in a stream stays below its maximum (or
/// is zero, when the maximum itself is zero).
pub proof fn lemma_ranged_bounds_all(data: Seq<u8>, size: int, max: u32)
    ensures
        forall|pos: int|
            (#[trigger] ranged_spec(data, size, pos, max)) is Ok ==> {
                let v = ranged_spec(data, size, pos, max)->Ok_0.0;
                v < max || v == 0
            },
{
    assert forall|pos: int| (#[trigger] ranged_spec(data, size, pos, max)) is Ok implies {
        let v = ranged_spec(data, size, pos, max)->Ok_0.0;
        v < max || v == 0
    } by {
        lemma_ranged_bounds(data, size, pos, max, 0, 1);
    }
}


/// A successful varint decode consumes at least one byte.
pub proof fn lemma_varint_consumes(chunks: Seq<u8>)
    ensures
        varint_spec(chunks) matches Ok(vn) ==> vn.1 >= 1,
{
    lemma_varint_rec_consumes(chunks, 0, 0, 0);
}

/// The recursive varint decoder always moves past its starting chunk.
proof fn lemma_varint_rec_consumes(chunks: Seq<u8>, k: int, count: u32, acc: u32)
    ensures
        varint_rec(chunks, k, count, acc) matches Ok(vn) ==> vn.1 >= k + 1,
    decreases 4 - count,
{
    if k >= chunks.len() {
    } else {
        let byte = chunks[k];
        let chunk = byte / 2;
        if count >= 4 && chunk >= 16 {
        } else {
            let acc2 = (acc + chunk * p7(count)) as u32;
            if byte % 2 == 1 && count < 4 {
                lemma_varint_rec_consumes(chunks, k + 1, (count + 1) as u32, acc2);
            }
        }
    }
}

} // verus!
