//! Length-prefixed wire strings. The prefix is a little-endian `i32`: a
//! negative value counts UTF-16LE code units, a positive one UTF-8 bytes.
//! Content is NUL- and U+0020-trimmed at both ends before decoding.

use vstd::prelude::*;
use vstd::utf8::{decode_utf8, valid_utf8};

use crate::bitreader::{le_u16, le_u32, BitReader};
use crate::bitstream::s_bytes;
use crate::names::{unreal_name_known, unreal_name_text};
use crate::codec::{tail_bytes, varint_spec};
use crate::paths::{trim16, trim8};
use crate::UeError;

verus! {

/// What `String::from_utf16` yields on these code units, if anything.
/// The result depends on the units alone.
pub uninterp spec fn utf16_of(units: Seq<u16>) -> Option<Seq<char>>;

/// Relies on `String::from_utf16`: it succeeds exactly when the units are
/// valid UTF-16, its result is a function of the units alone, and it decodes
/// nothing to nothing and something to something.
#[verifier::external_body]
fn utf16_to_string(units: &Vec<u16>) -> (r: Option<String>)
    ensures
        r is Some <==> utf16_of(units@) is Some,
        r matches Some(s) ==> utf16_of(units@) == Some(s@),
        r matches Some(s) ==> ((s@.len() == 0) <==> (units@.len() == 0)),
{
    match String::from_utf16(units.as_slice()) {
        Ok(s) => Some(s),
        Err(_) => None,
    }
}

/// Relies on `core::str::from_utf8`: it succeeds exactly on valid UTF-8 and
/// yields its decoding, as `vstd`'s model of UTF-8 states both.
#[verifier::external_body]
fn utf8_to_string(bytes: &Vec<u8>) -> (r: Option<String>)
    ensures
        r is Some <==> valid_utf8(bytes@),
        r matches Some(s) ==> s@ == decode_utf8(bytes@),
    {
    match core::str::from_utf8(bytes.as_slice()) {
        Ok(s) => Some(s.to_owned()),
        Err(_) => None,
    }
}

/// Decodes a byte vector as UTF-8 text; usable wherever a wire value is
/// counted in bytes rather than prefixed.
pub fn utf8_vec_to_string(bytes: &Vec<u8>) -> (r: Option<String>)
    ensures
        r is Some <==> valid_utf8(bytes@),
        r matches Some(s) ==> s@ == decode_utf8(bytes@),
{
    utf8_to_string(bytes)
}

/// A wire string after trimming, still as code units of its width.
pub enum UeStr {
    Narrow(Vec<u8>),
    Wide(Vec<u16>),
}

/// The spec-level form of a wire string: its trimmed code units.
pub enum UeStrSeq {
    Narrow(Seq<u8>),
    Wide(Seq<u16>),
}

impl View for UeStr {
    type V = UeStrSeq;

    open spec fn view(&self) -> UeStrSeq {
        match self {
            UeStr::Narrow(b) => UeStrSeq::Narrow(b@),
            UeStr::Wide(u) => UeStrSeq::Wide(u@),
        }
    }
}

/// The text a wire string denotes, if its units decode.
pub open spec fn ue_str_chars(m: UeStrSeq) -> Option<Seq<char>> {
    match m {
        UeStrSeq::Narrow(b) => if valid_utf8(b) {
            Some(decode_utf8(b))
        } else {
            None
        },
        UeStrSeq::Wide(u) => utf16_of(u),
    }
}

/// Whether a wire string holds no code units at all.
pub open spec fn ue_str_empty(m: UeStrSeq) -> bool {
    match m {
        UeStrSeq::Narrow(b) => b.len() == 0,
        UeStrSeq::Wide(u) => u.len() == 0,
    }
}

/// Valid UTF-8 decodes to text exactly as empty as its bytes.
pub proof fn lemma_decode_utf8_empty(b: Seq<u8>)
    requires
        valid_utf8(b),
    ensures
        decode_utf8(b).len() == 0 <==> b.len() == 0,
{
}

/// The error an undecodable wire string raises, by width.
pub open spec fn ue_str_error(m: UeStrSeq) -> UeError {
    match m {
        UeStrSeq::Narrow(_) => UeError::InvalidUtf8,
        UeStrSeq::Wide(_) => UeError::InvalidUtf16,
    }
}

/// Decodes a trimmed wire string to text. The text is empty exactly when
/// the units were.
pub fn ue_str_to_string(s: &UeStr) -> (r: Result<String, UeError>)
    ensures
        ({
            match ue_str_chars(s@) {
                Some(cs) => r matches Ok(t) && t@ == cs,
                None => r matches Err(e) && e == ue_str_error(s@),
            }
        }),
        r matches Ok(t) ==> ((t@.len() == 0) <==> ue_str_empty(s@)),
{
    match s {
        UeStr::Narrow(b) => match utf8_to_string(b) {
            Some(t) => {
                proof {
                    lemma_decode_utf8_empty(b@);
                }
                Ok(t)
            },
            None => Err(UeError::InvalidUtf8),
        },
        UeStr::Wide(u) => match utf16_to_string(u) {
            Some(t) => Ok(t),
            None => Err(UeError::InvalidUtf16),
        },
    }
}

/// Where a length-prefixed string that starts at bit `pos` ends, and its
/// trimmed units; or why it cannot be read. The prefix counts UTF-16LE code
/// units when negative, UTF-8 bytes when positive.
#[verifier::opaque]
pub open spec fn fstring_spec(data: Seq<u8>, size: int, pos: int) -> Result<
    (UeStrSeq, int),
    UeError,
> {
    if pos + 32 > size {
        Err(UeError::ReadPastEnd)
    } else {
        let len32 = le_u32(data, pos) as i32;
        if len32 == i32::MIN {
            Err(UeError::BadStringLength)
        } else if len32 < 0 {
            let cnt = -(len32 as int);
            if pos + 32 + 16 * cnt > size {
                Err(UeError::ReadPastEnd)
            } else {
                let units = Seq::new(cnt as nat, |k: int| le_u16(data, pos + 32 + 16 * k));
                Ok((UeStrSeq::Wide(trim16(units)), pos + 32 + 16 * cnt))
            }
        } else {
            let cnt = len32 as int;
            if pos + 32 + 8 * cnt > size {
                Err(UeError::ReadPastEnd)
            } else {
                let bytes = s_bytes(data, pos + 32, cnt);
                Ok((UeStrSeq::Narrow(trim8(bytes)), pos + 32 + 8 * cnt))
            }
        }
    }
}

/// Where a one-bit-gated name read that starts at bit `pos` ends, and its
/// text: a set gate bit means a varint id into the engine table; a clear one
/// means an inline string followed by a 32-bit number that is discarded.
#[verifier::opaque]
pub open spec fn fname_spec(data: Seq<u8>, size: int, pos: int) -> Result<(Seq<char>, int), UeError> {
    if pos >= size {
        Err(UeError::ReadPastEnd)
    } else if crate::bitstream::s_bit(data, pos) {
        match varint_spec(tail_bytes(data, pos + 1, size)) {
            Ok((id, n)) => if unreal_name_known(id) {
                Ok((unreal_name_text(id), pos + 1 + 8 * n))
            } else {
                Err(UeError::UnknownName)
            },
            Err(e) => Err(e),
        }
    } else {
        match fstring_spec(data, size, pos + 1) {
            Ok((m, p)) => match ue_str_chars(m) {
                Some(cs) => if p + 32 <= size {
                    Ok((cs, p + 32))
                } else {
                    Err(UeError::ReadPastEnd)
                },
                None => Err(ue_str_error(m)),
            },
            Err(e) => Err(e),
        }
    }
}

impl<'a> BitReader<'a> {
    /// Reads a length-prefixed string and trims it, keeping its code units.
    pub fn read_fstring_raw(&mut self) -> (r: Result<UeStr, UeError>)
        requires
            old(self).wf(),
        ensures
            final(self).wf(),
            final(self).bytes@ == old(self).bytes@,
            final(self).bit_size == old(self).bit_size,
            final(self).bit_pos >= old(self).bit_pos,
            ({
                let spec_r = fstring_spec(
                    old(self).stream(),
                    old(self).bit_size as int,
                    old(self).bit_pos as int,
                );
                match spec_r {
                    Ok((m, p)) => r matches Ok(s) && s@ == m && final(self).bit_pos == p,
                    Err(e) => r matches Err(re) && re == e,
                }
            }),
    {
        proof {
            reveal(fstring_spec);
        }
        let len_u = match self.read_u32() {
            Ok(v) => v,
            Err(e) => {
                return Err(e);
            },
        };
        let len = len_u as i32;
        if len == i32::MIN {
            return Err(UeError::BadStringLength);
        }
        if len < 0 {
            let cnt: u32 = (-len) as u32;
            let ghost pos1 = self.bit_pos as int;
            if ((self.bit_size - self.bit_pos) as u64) < 16 * (cnt as u64) {
                return Err(UeError::ReadPastEnd);
            }
            let mut units: Vec<u16> = Vec::new();
            let mut k: u32 = 0;
            while k < cnt
                invariant
                    self.wf(),
                    self.bytes@ == old(self).bytes@,
                    self.bit_size == old(self).bit_size,
                    k <= cnt,
                    self.bit_pos == pos1 + 16 * k,
                    pos1 + 16 * cnt <= self.bit_size,
                    units@.len() == k as int,
                    forall|t: int|
                        0 <= t < k ==> units@[t] == le_u16(self.bytes@, pos1 + 16 * t),
                decreases cnt - k,
            {
                let u = match self.read_u16() {
                    Ok(v) => v,
                    Err(e) => {
                        return Err(e);
                    },
                };
                units.push(u);
                k = k + 1;
            }
            proof {
                assert(units@ =~= Seq::new(cnt as nat, |t: int| le_u16(self.bytes@, pos1 + 16 * t)));
            }
            Ok(UeStr::Wide(crate::paths::trim_units(&units)))
        } else {
            let cnt: u32 = len as u32;
            let ghost pos1 = self.bit_pos as int;
            if ((self.bit_size - self.bit_pos) as u64) < 8 * (cnt as u64) {
                return Err(UeError::ReadPastEnd);
            }
            let mut bytes: Vec<u8> = Vec::new();
            let mut k: u32 = 0;
            while k < cnt
                invariant
                    self.wf(),
                    self.bytes@ == old(self).bytes@,
                    self.bit_size == old(self).bit_size,
                    k <= cnt,
                    self.bit_pos == pos1 + 8 * k,
                    pos1 + 8 * cnt <= self.bit_size,
                    bytes@.len() == k as int,
                    forall|t: int|
                        0 <= t < k ==> bytes@[t] == crate::bitstream::s_byte(
                            self.bytes@,
                            pos1 + 8 * t,
                        ),
                decreases cnt - k,
            {
                let b = match self.read_byte() {
                    Ok(v) => v,
                    Err(e) => {
                        return Err(e);
                    },
                };
                bytes.push(b);
                k = k + 1;
            }
            proof {
                assert(bytes@ =~= s_bytes(self.bytes@, pos1, cnt as int));
            }
            Ok(UeStr::Narrow(crate::paths::trim_bytes(&bytes)))
        }
    }

    /// Reads a length-prefixed string and decodes it to text.
    pub fn read_fstring(&mut self) -> (r: Result<String, UeError>)
        requires
            old(self).wf(),
        ensures
            final(self).wf(),
            final(self).bytes@ == old(self).bytes@,
            final(self).bit_size == old(self).bit_size,
            final(self).bit_pos >= old(self).bit_pos,
            ({
                let spec_r = fstring_spec(
                    old(self).stream(),
                    old(self).bit_size as int,
                    old(self).bit_pos as int,
                );
                match spec_r {
                    Ok((m, p)) => match ue_str_chars(m) {
                        Some(cs) => r matches Ok(s) && s@ == cs && final(self).bit_pos == p,
                        None => r matches Err(re) && re == ue_str_error(m),
                    },
                    Err(e) => r matches Err(re) && re == e,
                }
            }),
    {
        let raw = match self.read_fstring_raw() {
            Ok(s) => s,
            Err(e) => {
                return Err(e);
            },
        };
        ue_str_to_string(&raw)
    }

    /// Reads a one-bit-gated name: a set bit selects a hardcoded id into the
    /// engine table, a clear one an inline string whose trailing 32-bit
    /// number is discarded.
    pub fn read_bit_fname(&mut self) -> (r: Result<String, UeError>)
        requires
            old(self).wf(),
        ensures
            final(self).wf(),
            final(self).bytes@ == old(self).bytes@,
            final(self).bit_size == old(self).bit_size,
            final(self).bit_pos >= old(self).bit_pos,
            ({
                let spec_r = fname_spec(
                    old(self).stream(),
                    old(self).bit_size as int,
                    old(self).bit_pos as int,
                );
                match spec_r {
                    Ok((cs, p)) => r matches Ok(s) && s@ == cs && final(self).bit_pos == p,
                    Err(e) => r matches Err(re) && re == e,
                }
            }),
    {
        proof {
            reveal(fname_spec);
        }
        let hardcoded = match self.read_bit() {
            Ok(b) => b,
            Err(e) => {
                return Err(e);
            },
        };
        if hardcoded {
            let id = match self.read_int_packed() {
                Ok(v) => v,
                Err(e) => {
                    return Err(e);
                },
            };
            match crate::names::hardcoded_name(id) {
                Some(s) => Ok(s.to_owned()),
                None => Err(UeError::UnknownName),
            }
        } else {
            let s = match self.read_fstring() {
                Ok(s) => s,
                Err(e) => {
                    return Err(e);
                },
            };
            match self.read_u32() {
                Ok(_) => Ok(s),
                Err(e) => Err(e),
            }
        }
    }
}

} // verus!
