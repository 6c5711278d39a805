//! The bit-granular view of a byte region: bit `i` of a stream is bit
//! `i % 8` (LSB first) of byte `i / 8`. All stream-level specifications are
//! stated over these functions.

use vstd::prelude::*;

verus! {

/// Bit `j` (LSB first) of the byte `b`.
pub open spec fn bit_of(b: u8, j: u8) -> bool {
    (b >> j) & 1u8 == 1u8
}

/// Bit `i` of the stream over `data`, LSB first within each byte.
pub open spec fn s_bit(data: Seq<u8>, i: int) -> bool {
    bit_of(data[i / 8], (i % 8) as u8)
}

/// The byte with bits `b0` (LSB) through `b7` (MSB) set as given.
pub open spec fn bits8(
    b0: bool,
    b1: bool,
    b2: bool,
    b3: bool,
    b4: bool,
    b5: bool,
    b6: bool,
    b7: bool,
) -> u8 {
    (if b0 { 1u8 } else { 0u8 }) | (if b1 { 2u8 } else { 0u8 }) | (if b2 { 4u8 } else { 0u8 })
        | (if b3 { 8u8 } else { 0u8 }) | (if b4 { 16u8 } else { 0u8 }) | (if b5 {
        32u8
    } else {
        0u8
    }) | (if b6 { 64u8 } else { 0u8 }) | (if b7 { 128u8 } else { 0u8 })
}

/// The byte formed by the `m` stream bits at bit position `pos` (`m <= 8`),
/// LSB first, zero-padded above.
pub open spec fn s_chunk(data: Seq<u8>, pos: int, m: int) -> u8 {
    bits8(
        m > 0 && s_bit(data, pos),
        m > 1 && s_bit(data, pos + 1),
        m > 2 && s_bit(data, pos + 2),
        m > 3 && s_bit(data, pos + 3),
        m > 4 && s_bit(data, pos + 4),
        m > 5 && s_bit(data, pos + 5),
        m > 6 && s_bit(data, pos + 6),
        m > 7 && s_bit(data, pos + 7),
    )
}

/// The byte formed by the 8 stream bits at bit position `pos`.
pub open spec fn s_byte(data: Seq<u8>, pos: int) -> u8 {
    s_chunk(data, pos, 8)
}

/// The `n` whole bytes read from bit position `pos` on.
pub open spec fn s_bytes(data: Seq<u8>, pos: int, n: int) -> Seq<u8> {
    Seq::new(if n >= 0 { n as nat } else { 0 }, |k: int| s_byte(data, pos + 8 * k))
}

/// A byte rebuilt from its own bits is itself.
proof fn lemma_bits8_of_byte(b: u8)
    by (bit_vector)
    ensures
        b == bits8(
            (b >> 0u8) & 1u8 == 1u8,
            (b >> 1u8) & 1u8 == 1u8,
            (b >> 2u8) & 1u8 == 1u8,
            (b >> 3u8) & 1u8 == 1u8,
            (b >> 4u8) & 1u8 == 1u8,
            (b >> 5u8) & 1u8 == 1u8,
            (b >> 6u8) & 1u8 == 1u8,
            (b >> 7u8) & 1u8 == 1u8,
        ),
{
}

/// At a byte-aligned bit position the stream byte is the underlying byte.
pub proof fn lemma_aligned_byte(data: Seq<u8>, pos: int)
    requires
        0 <= pos,
        pos % 8 == 0,
        pos / 8 < data.len(),
    ensures
        s_byte(data, pos) == data[pos / 8],
{
    let q = pos / 8;
    assert forall|k: int| #![trigger s_bit(data, pos + k)] 0 <= k < 8 implies (pos + k) / 8 == q
        && (pos + k) % 8 == k by {
        assert((8 * q + k) / 8 == q && (8 * q + k) % 8 == k) by (nonlinear_arith)
            requires
                0 <= k < 8,
        ;
    }
    lemma_bits8_of_byte(data[q]);
}

/// At a byte-aligned bit position the stream bytes are the underlying bytes.
pub proof fn lemma_aligned_bytes(data: Seq<u8>, pos: int, n: int)
    requires
        0 <= pos,
        pos % 8 == 0,
        0 <= n,
        pos / 8 + n <= data.len(),
    ensures
        s_bytes(data, pos, n) =~= data.subrange(pos / 8, pos / 8 + n),
{
    assert forall|k: int| #![trigger s_byte(data, pos + 8 * k)] 0 <= k < n implies s_byte(
        data,
        pos + 8 * k,
    ) == data[pos / 8 + k] by {
        assert((pos + 8 * k) % 8 == 0 && (pos + 8 * k) / 8 == pos / 8 + k) by (nonlinear_arith)
            requires
                pos % 8 == 0,
                0 <= pos,
                0 <= k,
        ;
        lemma_aligned_byte(data, pos + 8 * k);
    }
}

} // verus!
