use uereplay::bitreader::BitReader;
use uereplay::codec::write_int_packed;
use uereplay::vec3::{FRotator, FVector};
use uereplay::writer::BitWriter;
use uereplay::UeError;

fn quantized_components(v: &FVector) -> (f32, f32, f32) {
    match v {
        FVector::Quantized { x, y, z } => (*x as f32, *y as f32, *z as f32),
        FVector::Exact { .. } => panic!("expected a quantized vector"),
    }
}

fn exact_components(v: &FVector) -> (f32, f32, f32) {
    match v {
        FVector::Exact { x_bits, y_bits, z_bits } => (
            f32::from_bits(*x_bits),
            f32::from_bits(*y_bits),
            f32::from_bits(*z_bits),
        ),
        FVector::Quantized { .. } => panic!("expected an exact vector"),
    }
}

#[test]
fn bit() {
    let bytes: &[u8] = &[0x23];
    let mut reader = BitReader::new(bytes, 8);
    assert_eq!(reader.read_bit().unwrap(), true);
    assert_eq!(reader.read_bit().unwrap(), true);
    assert_eq!(reader.read_bit().unwrap(), false);
    assert_eq!(reader.read_bit().unwrap(), false);
    assert_eq!(reader.read_bit().unwrap(), false);
    assert_eq!(reader.read_bit().unwrap(), true);
    assert_eq!(reader.read_bit().unwrap(), false);
    assert_eq!(reader.read_bit().unwrap(), false);
}

#[test]
fn bytes() {
    let bytes: &[u8] = &[0x01, 0x02, 0x03];
    let mut reader = BitReader::new(bytes, 24);
    assert_eq!(reader.read_byte().unwrap(), 0x01);
    assert_eq!(reader.read_byte().unwrap(), 0x02);
    assert_eq!(reader.read_byte().unwrap(), 0x03);
}

#[test]
fn int_packed() {
    let bits: &[u8] = &[0xCC];
    let mut reader = BitReader::new(bits, 8);
    assert_eq!(reader.read_int_packed().expect(""), 102u32);
    let bytes: &[u8] = &[0x24, 0x40];
    assert_eq!(BitReader::new(bytes, 16).read_int_packed().expect(""), 18u32);
}

#[test]
fn serialized_int() {
    let bits: &[u8] = &[0x64];
    let bits2: &[u8] = &[0x01];
    let mut reader = BitReader::new(bits, 8);
    let mut reader1 = BitReader::new(bits2, 8);
    assert_eq!(reader.read_serialized_int(3).unwrap(), 0u32);
    assert_eq!(reader1.read_serialized_int(2).unwrap(), 1u32);
}

#[test]
fn fname() {
    let bits: &[u8] = &[0x99, 0xF1];
    let mut reader = BitReader::new(bits, 16);
    assert_eq!(reader.read_bit_fname().expect(""), "Actor");
    assert_eq!(9, reader.pos())
}

#[test]
fn bits() {
    let cursor: &[u8] = &[0x23, 0x01];
    let mut reader = BitReader::new(cursor, 16);
    assert_eq!(reader.read_bits(7).expect(""), vec![0x23]);
    assert_eq!(reader.remaining_len(), 9);
    let _ = reader.read_bit();
    assert_eq!(reader.read_byte().unwrap(), 0x01);
}

#[test]
fn fvector() {
    let cursor: &[u8] = &[
        0x70, 0x99, 0x7F, 0x3F, 0x00, 0x00, 0x80, 0x3F, 0x00, 0x00, 0x80, 0x3F,
    ];
    let cursor2: &[u8] = &[
        0xD3, 0x89, 0x7F, 0x3F, 0xBB, 0x08, 0x80, 0x3F, 0x00, 0x00, 0x80, 0x3F,
    ];
    let mut b1 = BitReader::new(cursor, 12 * 8);
    let mut b2 = BitReader::new(cursor2, 12 * 8);
    let v1 = b1.read_vector().unwrap();
    let v2 = b2.read_vector().unwrap();
    assert_eq!(exact_components(&v1), (0.998435020446777, 1 as f32, 1 as f32));
    assert_eq!(
        exact_components(&v2),
        (0.99819678068161, 1.00026643276215, 1 as f32)
    );
}

#[test]
fn packed_vector() {
    let a_bytes: &[u8] = &[0xB4, 0xC5, 0x5C, 0xEF, 0x81, 0x33, 0x76, 0x33, 0x3F];
    let b_bytes: &[u8] = &[0x74, 0xF3, 0x74, 0xC7, 0xB4, 0x2D, 0x62, 0x51, 0x3F];
    let c_bytes: &[u8] = &[0x98, 0xE4, 0x52, 0x62, 0x07, 0x9A, 0x75, 0x70, 0x4F, 0xF9, 0x03];
    let d_bytes: &[u8] = &[0x98, 0x5A, 0xF6, 0x63, 0x8C, 0x4B, 0x7A, 0x46, 0x08, 0xF8, 0x03];
    let e_bytes: &[u8] = &[0x40, 0x05];
    let mut a = BitReader::new(a_bytes, a_bytes.len() * 8);
    let mut b = BitReader::new(b_bytes, b_bytes.len() * 8);
    let mut c = BitReader::new(c_bytes, c_bytes.len() * 8);
    let mut d = BitReader::new(d_bytes, d_bytes.len() * 8);
    let mut e = BitReader::new(e_bytes, e_bytes.len() * 8);
    let va = a.read_packed_vector(10, 24).unwrap();
    let vb = b.read_packed_vector(10, 24).unwrap();
    let vc = c.read_packed_vector(100, 30).unwrap();
    let vd = d.read_packed_vector(100, 30).unwrap();
    let ve = e.read_packed_vector(1, 24).unwrap();
    assert_eq!(quantized_components(&va), (176286 as f32, -167520 as f32, -2618 as f32));
    assert_eq!(quantized_components(&vb), (181237 as f32, -172272 as f32, -2235 as f32));
    assert_eq!(quantized_components(&vc), (179955 as f32, -181401 as f32, -2192 as f32));
    assert_eq!(quantized_components(&vd), (188546 as f32, -175249 as f32, -2610 as f32));
    assert_eq!(quantized_components(&ve), (0 as f32, 0 as f32, 0 as f32));
}

#[test]
fn int_packed_round_trip() {
    for &x in &[0u32, 1, 17, 102, 127, 128, 300, 16383, 16384, 0xFFFF, 0xFFFFFF, u32::MAX] {
        let bytes = write_int_packed(x);
        let mut reader = BitReader::new(bytes.as_slice(), bytes.len() * 8);
        assert_eq!(reader.read_int_packed().unwrap(), x);
    }
}

#[test]
fn serialized_int_round_trip() {
    for &(x, max) in &[
        (0u32, 3u32),
        (1, 2),
        (2, 3),
        (5, 16),
        (15, 16),
        (1000, 16384),
        (16383, 16384),
        (7, 8),
        (123456, 1 << 20),
    ] {
        let mut w = BitWriter::new();
        w.write_serialized_int(x, max);
        let (bytes, nbits) = w.finish();
        let mut reader = BitReader::new(bytes.as_slice(), nbits);
        assert_eq!(reader.read_serialized_int(max).unwrap(), x, "x={} max={}", x, max);
    }
}

#[test]
fn rotation_short_dequantizes_in_integers() {
    // one gated axis: pitch = (0x8000 * 360) / 65536 = 180 degrees
    let mut w = BitWriter::new();
    w.write_bit(true);
    for j in 0..16 {
        w.write_bit(j == 15);
    }
    w.write_bit(false);
    w.write_bit(false);
    let (bytes, nbits) = w.finish();
    let mut reader = BitReader::new(bytes.as_slice(), nbits);
    let r = reader.read_rotation_short().unwrap();
    assert_eq!(r, FRotator { pitch: 180, yaw: 0, roll: 0 });
}

#[test]
fn read_past_end_is_an_error() {
    let bytes: &[u8] = &[0xFF];
    let mut reader = BitReader::new(bytes, 3);
    assert!(reader.read_bit().is_ok());
    assert!(reader.read_byte().is_err());
    assert_eq!(reader.read_byte().unwrap_err(), UeError::ReadPastEnd);
}

#[test]
fn unknown_hardcoded_name_is_an_error() {
    let mut w = BitWriter::new();
    w.write_bit(true);
    w.write_int_packed_bits(17);
    let (bytes, nbits) = w.finish();
    let mut reader = BitReader::new(bytes.as_slice(), nbits);
    assert_eq!(reader.read_bit_fname().unwrap_err(), UeError::UnknownName);
}
