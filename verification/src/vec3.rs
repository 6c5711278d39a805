//! Spatial values as they stand on the wire: a plain vector is three
//! little-endian 32-bit floating-point bit patterns; a packed vector is a
//! bit-count prefix and three ranged ints, kept here as exact signed deltas
//! against their bias together with the caller's scale; a quantized rotation
//! is three gated 16-bit values dequantized in integer arithmetic.

use vstd::prelude::*;

use crate::bitreader::{le_u16, le_u32, BitReader};
use crate::bitstream::s_bit;
use crate::codec::{lemma_ranged_bounds, ranged_spec};
use crate::UeError;

verus! {

/// A three-component vector, exactly as decoded: either three raw IEEE-754
/// bit patterns, or three dequantized integer components, each
/// `(d - bias) / scale` with the division truncating toward zero.
#[derive(Debug, Clone, Copy, PartialEq, Eq, Structural)]
pub enum FVector {
    Exact { x_bits: u32, y_bits: u32, z_bits: u32 },
    Quantized { x: i32, y: i32, z: i32 },
}

/// Signed division truncating toward zero, for a positive divisor.
pub open spec fn trunc_div(a: int, b: int) -> int {
    if a >= 0 {
        a / b
    } else {
        -((-a) / b)
    }
}

impl FVector {
    /// The zero vector.
    pub fn zero() -> (r: FVector)
        ensures
            r == (FVector::Exact { x_bits: 0u32, y_bits: 0u32, z_bits: 0u32 }),
    {
        FVector::Exact { x_bits: 0, y_bits: 0, z_bits: 0 }
    }

    /// The unit-scale vector `(1, 1, 1)`; `0x3F800000` is the bit pattern
    /// of one.
    pub fn one() -> (r: FVector)
        ensures
            r == (FVector::Exact {
                x_bits: 0x3F800000u32,
                y_bits: 0x3F800000u32,
                z_bits: 0x3F800000u32,
            }),
    {
        FVector::Exact { x_bits: 0x3F800000, y_bits: 0x3F800000, z_bits: 0x3F800000 }
    }
}

/// A rotation in whole degrees: each axis is `(u16 * 360) / 65536` in
/// integer arithmetic, or zero where its gate bit was clear.
#[derive(Debug, Clone, Copy, PartialEq, Eq, Structural)]
pub struct FRotator {
    pub pitch: u32,
    pub yaw: u32,
    pub roll: u32,
}

/// Where a plain three-float vector read at bit `pos` ends, and its bit
/// patterns.
pub open spec fn vector_spec(data: Seq<u8>, size: int, pos: int) -> Result<(FVector, int), UeError> {
    if pos + 96 > size {
        Err(UeError::ReadPastEnd)
    } else {
        Ok(
            (
                FVector::Exact {
                    x_bits: le_u32(data, pos),
                    y_bits: le_u32(data, pos + 32),
                    z_bits: le_u32(data, pos + 64),
                },
                pos + 96,
            ),
        )
    }
}

/// Where a packed vector read at bit `pos` ends, and its magnitudes: a
/// ranged bit count, then three ranged ints in `[0, 2^(bits+2))`, each
/// biased by `2^(bits+1)`. A bit count above 29 cannot be decoded in 32
/// bits.
pub open spec fn packed_vector_spec(
    data: Seq<u8>,
    size: int,
    pos: int,
    scale_factor: u32,
    max_bits: u32,
) -> Result<(FVector, int), UeError> {
    match ranged_spec(data, size, pos, max_bits) {
        Err(e) => Err(e),
        Ok((bits, p0)) => if bits > 29 {
            Err(UeError::BadVectorBits)
        } else {
            let bias = 1u32 << ((bits + 1) as u32);
            let max = 1u32 << ((bits + 2) as u32);
            match ranged_spec(data, size, p0, max) {
                Err(e) => Err(e),
                Ok((dx, p1)) => match ranged_spec(data, size, p1, max) {
                    Err(e) => Err(e),
                    Ok((dy, p2)) => match ranged_spec(data, size, p2, max) {
                        Err(e) => Err(e),
                        Ok((dz, p3)) => Ok(
                            (
                                FVector::Quantized {
                                    x: trunc_div(dx - bias, scale_factor as int) as i32,
                                    y: trunc_div(dy - bias, scale_factor as int) as i32,
                                    z: trunc_div(dz - bias, scale_factor as int) as i32,
                                },
                                p3,
                            ),
                        ),
                    },
                },
            }
        },
    }
}

/// Where a quantized rotation read at bit `pos` ends, and its degrees:
/// three axes, each one gate bit and, when set, a little-endian 16-bit
/// value dequantized as `(v * 360) / 65536`.
pub open spec fn rotation_spec(data: Seq<u8>, size: int, pos: int) -> Result<(FRotator, int), UeError> {
    match axis_spec(data, size, pos) {
        Err(e) => Err(e),
        Ok((pitch, p1)) => match axis_spec(data, size, p1) {
            Err(e) => Err(e),
            Ok((yaw, p2)) => match axis_spec(data, size, p2) {
                Err(e) => Err(e),
                Ok((roll, p3)) => Ok((FRotator { pitch, yaw, roll }, p3)),
            },
        },
    }
}

/// One gated rotation axis.
pub open spec fn axis_spec(data: Seq<u8>, size: int, pos: int) -> Result<(u32, int), UeError> {
    if pos >= size {
        Err(UeError::ReadPastEnd)
    } else if s_bit(data, pos) {
        if pos + 1 + 16 > size {
            Err(UeError::ReadPastEnd)
        } else {
            Ok((((le_u16(data, pos + 1) as int) * 360 / 65536) as u32, pos + 17))
        }
    } else {
        Ok((0, pos + 1))
    }
}

/// Where a conditionally serialized, possibly quantized vector read at bit
/// `pos` ends: one gate bit, then either the given default, or a second bit
/// choosing the packed form with scale 10 and 24 max bits over the plain
/// three-float form.
pub open spec fn cond_vector_spec(data: Seq<u8>, size: int, pos: int, default: FVector) -> Result<
    (FVector, int),
    UeError,
> {
    if pos >= size {
        Err(UeError::ReadPastEnd)
    } else if !s_bit(data, pos) {
        Ok((default, pos + 1))
    } else if pos + 1 >= size {
        Err(UeError::ReadPastEnd)
    } else if s_bit(data, pos + 1) {
        packed_vector_spec(data, size, pos + 2, 10, 24)
    } else {
        vector_spec(data, size, pos + 2)
    }
}

impl<'a> BitReader<'a> {
    /// Reads three little-endian 32-bit floating-point bit patterns.
    pub fn read_vector(&mut self) -> (r: Result<FVector, UeError>)
        requires
            old(self).wf(),
        ensures
            final(self).wf(),
            final(self).bytes@ == old(self).bytes@,
            final(self).bit_size == old(self).bit_size,
            final(self).bit_pos >= old(self).bit_pos,
            ({
                let spec_r = vector_spec(
                    old(self).stream(),
                    old(self).bit_size as int,
                    old(self).bit_pos as int,
                );
                match spec_r {
                    Ok((v, p)) => r matches Ok(rv) && rv == v && final(self).bit_pos == p,
                    Err(e) => r matches Err(re) && re == e,
                }
            }),
    {
        if self.bit_size - self.bit_pos < 96 {
            return Err(UeError::ReadPastEnd);
        }
        let x_bits = match self.read_u32() {
            Ok(v) => v,
            Err(e) => {
                return Err(e);
            },
        };
        let y_bits = match self.read_u32() {
            Ok(v) => v,
            Err(e) => {
                return Err(e);
            },
        };
        let z_bits = match self.read_u32() {
            Ok(v) => v,
            Err(e) => {
                return Err(e);
            },
        };
        Ok(FVector::Exact { x_bits, y_bits, z_bits })
    }

    /// Reads a packed vector: a ranged bit count, then three ranged deltas
    /// biased around zero, scaled by the caller's factor.
    pub fn read_packed_vector(&mut self, scale_factor: u32, max_bits: u32) -> (r: Result<
        FVector,
        UeError,
    >)
        requires
            old(self).wf(),
            scale_factor >= 1,
        ensures
            final(self).wf(),
            final(self).bytes@ == old(self).bytes@,
            final(self).bit_size == old(self).bit_size,
            final(self).bit_pos >= old(self).bit_pos,
            ({
                let spec_r = packed_vector_spec(
                    old(self).stream(),
                    old(self).bit_size as int,
                    old(self).bit_pos as int,
                    scale_factor,
                    max_bits,
                );
                match spec_r {
                    Ok((v, p)) => r matches Ok(rv) && rv == v && final(self).bit_pos == p,
                    Err(e) => r matches Err(re) && re == e,
                }
            }),
    {
        proof {
            lemma_ranged_bounds(
                self.bytes@,
                self.bit_size as int,
                self.bit_pos as int,
                max_bits,
                0,
                1,
            );
        }
        let bits = match self.read_serialized_int(max_bits) {
            Ok(v) => v,
            Err(e) => {
                return Err(e);
            },
        };
        if bits > 29 {
            return Err(UeError::BadVectorBits);
        }
        let bias: u32 = 1u32 << (bits + 1);
        let max: u32 = 1u32 << (bits + 2);
        proof {
            assert((1u32 << (bits + 2)) == 2 * (1u32 << (bits + 1)) && 1 <= (1u32 << (bits + 1))
                <= 0x40000000) by (bit_vector)
                requires
                    bits <= 29,
            ;
        }
        let dx = match self.read_serialized_int_bounded(max) {
            Ok(v) => v,
            Err(e) => {
                return Err(e);
            },
        };
        let dy = match self.read_serialized_int_bounded(max) {
            Ok(v) => v,
            Err(e) => {
                return Err(e);
            },
        };
        let dz = match self.read_serialized_int_bounded(max) {
            Ok(v) => v,
            Err(e) => {
                return Err(e);
            },
        };
        Ok(
            FVector::Quantized {
                x: dequantize(dx, bias, scale_factor),
                y: dequantize(dy, bias, scale_factor),
                z: dequantize(dz, bias, scale_factor),
            },
        )
    }

    /// Reads a ranged int and carries its bound.
    fn read_serialized_int_bounded(&mut self, max_value: u32) -> (r: Result<u32, UeError>)
        requires
            old(self).wf(),
            max_value >= 1,
        ensures
            final(self).wf(),
            final(self).bytes@ == old(self).bytes@,
            final(self).bit_size == old(self).bit_size,
            final(self).bit_pos >= old(self).bit_pos,
            ({
                let spec_r = ranged_spec(
                    old(self).stream(),
                    old(self).bit_size as int,
                    old(self).bit_pos as int,
                    max_value,
                );
                match spec_r {
                    Ok((v, p)) => r matches Ok(rv) && rv == v && final(self).bit_pos == p,
                    Err(e) => r matches Err(re) && re == e,
                }
            }),
            r matches Ok(rv) ==> rv < max_value,
    {
        proof {
            lemma_ranged_bounds(
                self.bytes@,
                self.bit_size as int,
                self.bit_pos as int,
                max_value,
                0,
                1,
            );
        }
        self.read_serialized_int(max_value)
    }

    /// Reads a quantized rotation: per axis one gate bit and, when set, a
    /// 16-bit value dequantized as `(v * 360) / 65536` before any cast.
    pub fn read_rotation_short(&mut self) -> (r: Result<FRotator, UeError>)
        requires
            old(self).wf(),
        ensures
            final(self).wf(),
            final(self).bytes@ == old(self).bytes@,
            final(self).bit_size == old(self).bit_size,
            final(self).bit_pos >= old(self).bit_pos,
            ({
                let spec_r = rotation_spec(
                    old(self).stream(),
                    old(self).bit_size as int,
                    old(self).bit_pos as int,
                );
                match spec_r {
                    Ok((v, p)) => r matches Ok(rv) && rv == v && final(self).bit_pos == p,
                    Err(e) => r matches Err(re) && re == e,
                }
            }),
    {
        let pitch = match self.read_axis() {
            Ok(v) => v,
            Err(e) => {
                return Err(e);
            },
        };
        let yaw = match self.read_axis() {
            Ok(v) => v,
            Err(e) => {
                return Err(e);
            },
        };
        let roll = match self.read_axis() {
            Ok(v) => v,
            Err(e) => {
                return Err(e);
            },
        };
        Ok(FRotator { pitch, yaw, roll })
    }

    /// Reads one gated rotation axis.
    fn read_axis(&mut self) -> (r: Result<u32, UeError>)
        requires
            old(self).wf(),
        ensures
            final(self).wf(),
            final(self).bytes@ == old(self).bytes@,
            final(self).bit_size == old(self).bit_size,
            final(self).bit_pos >= old(self).bit_pos,
            ({
                let spec_r = axis_spec(
                    old(self).stream(),
                    old(self).bit_size as int,
                    old(self).bit_pos as int,
                );
                match spec_r {
                    Ok((v, p)) => r matches Ok(rv) && rv == v && final(self).bit_pos == p,
                    Err(e) => r matches Err(re) && re == e,
                }
            }),
    {
        let gate = match self.read_bit() {
            Ok(b) => b,
            Err(e) => {
                return Err(e);
            },
        };
        if !gate {
            return Ok(0);
        }
        let v = match self.read_u16() {
            Ok(v) => v,
            Err(e) => {
                return Err(e);
            },
        };
        Ok((v as u32) * 360 / 65536)
    }

    /// Reads a conditionally serialized, possibly quantized vector: absent
    /// means the caller's default; present is either the packed form with
    /// scale 10 and 24 max bits, or the plain three-float form.
    pub fn read_conditionally_serialized_quantized_vector(&mut self, default_vector: FVector) -> (r:
        Result<FVector, UeError>)
        requires
            old(self).wf(),
        ensures
            final(self).wf(),
            final(self).bytes@ == old(self).bytes@,
            final(self).bit_size == old(self).bit_size,
            final(self).bit_pos >= old(self).bit_pos,
            ({
                let spec_r = cond_vector_spec(
                    old(self).stream(),
                    old(self).bit_size as int,
                    old(self).bit_pos as int,
                    default_vector,
                );
                match spec_r {
                    Ok((v, p)) => r matches Ok(rv) && rv == v && final(self).bit_pos == p,
                    Err(e) => r matches Err(re) && re == e,
                }
            }),
    {
        let was_serialized = match self.read_bit() {
            Ok(b) => b,
            Err(e) => {
                return Err(e);
            },
        };
        if !was_serialized {
            return Ok(default_vector);
        }
        let should_quantize = match self.read_bit() {
            Ok(b) => b,
            Err(e) => {
                return Err(e);
            },
        };
        if should_quantize {
            self.read_packed_vector(10, 24)
        } else {
            self.read_vector()
        }
    }
}


/// Dequantizes one component: `(d - bias) / scale`, truncating toward
/// zero.
fn dequantize(d: u32, bias: u32, scale: u32) -> (r: i32)
    requires
        1 <= bias <= 0x40000000,
        d < 2 * bias,
        scale >= 1,
    ensures
        r == trunc_div(d - bias, scale as int),
{
    if d >= bias {
        ((d - bias) / scale) as i32
    } else {
        let diff = (bias - d) / scale;
        -(diff as i32)
    }
}

} // verus!
