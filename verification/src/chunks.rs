//! The container-level records of a replay file — header, event and data
//! chunks and the aggregated statistics — together with the elimination
//! event decoder. Decryption, decompression and deserialization of the
//! container happen outside; these types carry the clear payloads.

use vstd::prelude::*;
use vstd::utf8::{decode_utf8, valid_utf8};

use crate::bitreader::{le_u32, BitReader};
use crate::bitstream::{s_byte, s_bytes};
use crate::UeError;

verus! {

/// A 16-byte identifier, kept as its hexadecimal text.
#[derive(Debug, Clone, PartialEq, Eq)]
pub struct GUID(pub String);

impl Default for GUID {
    /// The empty identifier.
    fn default() -> (r: GUID)
        ensures
            r.0@ == Seq::<char>::empty(),
    {
        GUID(String::new())
    }
}

/// One raw chunk of the replay container: a type tag and its payload.
#[derive(Debug, Clone)]
pub struct Chunk {
    pub variant: u32,
    pub data: Vec<u8>,
}

/// A data chunk: its replication time span and its payload, decrypted and
/// decompressed outside.
#[derive(Debug, Clone)]
pub struct DataChunk {
    pub start: u32,
    pub end: u32,
    pub length: u32,
    pub memory_size_in_bytes: u32,
    pub data: Vec<u8>,
}

/// An event chunk: its group, metadata and decrypted payload.
#[derive(Debug, Clone)]
pub struct EventChunk {
    pub id: String,
    pub group: String,
    pub metadata: String,
    pub start_time: u32,
    pub end_time: u32,
    pub data: Vec<u8>,
}

/// The replay header: engine and build identity.
#[derive(Debug, Clone)]
pub struct HeaderChunk {
    pub network_magic: u32,
    pub network_version: u32,
    pub network_checksum: u32,
    pub engine_network_version: u32,
    pub game_network_protocol_version: u32,
    pub id: GUID,
    pub major: u16,
    pub minor: u16,
    pub patch: u16,
    pub changelist: u32,
    pub branch_data: String,
    pub level_names_and_times: Vec<(String, u32)>,
    pub flags: u32,
    pub game_specific_data: Vec<String>,
}

/// Aggregated team placement statistics.
#[derive(Debug, Clone, Copy, PartialEq, Eq, Structural)]
pub struct TeamStats {
    pub unknown: u32,
    pub position: u32,
    pub total_players: u32,
}

/// A length-prefixed replay-meta string.
#[derive(Debug, Clone, PartialEq, Eq)]
pub struct FStr(pub String);

/// The replay file's meta record.
#[derive(Debug, Clone)]
pub struct ReplayMeta {
    pub file_version: u32,
    pub length_in_ms: u32,
    pub network_version: u32,
    pub changelist: u32,
    pub friendly_name: FStr,
}

/// The head of a replay file: its magic and meta record.
#[derive(Debug, Clone)]
pub struct FNReplay {
    pub file_magic: u32,
    pub meta: ReplayMeta,
}

/// The lowercase hexadecimal digit of a value below 16.
pub open spec fn hex_digit(n: u8) -> char {
    if n == 0 {
        '0'
    } else if n == 1 {
        '1'
    } else if n == 2 {
        '2'
    } else if n == 3 {
        '3'
    } else if n == 4 {
        '4'
    } else if n == 5 {
        '5'
    } else if n == 6 {
        '6'
    } else if n == 7 {
        '7'
    } else if n == 8 {
        '8'
    } else if n == 9 {
        '9'
    } else if n == 10 {
        'a'
    } else if n == 11 {
        'b'
    } else if n == 12 {
        'c'
    } else if n == 13 {
        'd'
    } else if n == 14 {
        'e'
    } else {
        'f'
    }
}

/// The lowercase hexadecimal text of a byte sequence: two digits per byte,
/// high nibble first.
pub open spec fn hex_of(bytes: Seq<u8>) -> Seq<char>
    decreases bytes.len(),
{
    if bytes.len() == 0 {
        Seq::empty()
    } else {
        seq![hex_digit(bytes[0] / 16), hex_digit(bytes[0] % 16)] + hex_of(bytes.drop_first())
    }
}

/// Relies on `hex::encode`: two lowercase hexadecimal digits per input
/// byte, high nibble first, from the digit table `0123456789abcdef`.
#[verifier::external_body]
fn hex_encode(bytes: &Vec<u8>) -> (r: String)
    ensures
        r@ == hex_of(bytes@),
{
    hex::encode(bytes.as_slice())
}

/// One elimination event: who fell, to whom, with what, and whether it
/// was a knock.
#[derive(Debug, Clone, PartialEq, Eq)]
pub struct Elimination {
    pub victim_id: String,
    pub killer_id: String,
    pub gun_type: u8,
    pub knocked: bool,
}

/// Where one player identity at bit `pos` ends, and its text: the marker
/// `0x03` is a bot, `0x10` introduces a length-prefixed account id, and
/// any other marker a byte-counted binary id rendered as hexadecimal.
#[verifier::opaque]
pub open spec fn player_spec(data: Seq<u8>, size: int, pos: int) -> Result<(Seq<char>, int), UeError> {
    if pos + 8 > size {
        Err(UeError::ReadPastEnd)
    } else {
        let ind = s_byte(data, pos);
        let p1 = pos + 8;
        if ind == 0x03 {
            Ok(("Bot"@, p1))
        } else if ind == 0x10 {
            if p1 + 64 > size {
                Err(UeError::ReadPastEnd)
            } else {
                let len = le_u32(data, p1) + 0x1_0000_0000 * le_u32(data, p1 + 32);
                let p2 = p1 + 64;
                if p2 + 8 * len > size {
                    Err(UeError::ReadPastEnd)
                } else {
                    let bytes = s_bytes(data, p2, len as int);
                    if valid_utf8(bytes) {
                        Ok((decode_utf8(bytes), p2 + 8 * len))
                    } else {
                        Err(UeError::InvalidUtf8)
                    }
                }
            }
        } else {
            if p1 + 8 > size {
                Err(UeError::ReadPastEnd)
            } else {
                let cnt = s_byte(data, p1);
                let p2 = p1 + 8;
                if p2 + 8 * cnt > size {
                    Err(UeError::ReadPastEnd)
                } else {
                    Ok((hex_of(s_bytes(data, p2, cnt as int)), p2 + 8 * cnt))
                }
            }
        }
    }
}

impl Elimination {
    /// Reads one player identity. An account id is a 64-bit little-endian
    /// byte count followed by that many UTF-8 bytes; a binary id is a
    /// one-byte count followed by that many bytes, rendered as hex.
    #[verifier::rlimit(100)]
    #[verifier::spinoff_prover]
    fn parse_player(cursor: &mut BitReader) -> (r: Result<String, UeError>)
        requires
            old(cursor).wf(),
        ensures
            final(cursor).wf(),
            final(cursor).bytes@ == old(cursor).bytes@,
            final(cursor).bit_size == old(cursor).bit_size,
            final(cursor).bit_pos >= old(cursor).bit_pos,
            ({
                let spec_r = player_spec(
                    old(cursor).stream(),
                    old(cursor).bit_size as int,
                    old(cursor).bit_pos as int,
                );
                match spec_r {
                    Err(e) => r matches Err(re) && re == e,
                    Ok((cs, p)) => r matches Ok(s) && s@ == cs && final(cursor).bit_pos == p,
                }
            }),
    {
        proof {
            reveal(player_spec);
        }
        let indicator = match cursor.read_byte() {
            Ok(b) => b,
            Err(e) => {
                return Err(e);
            },
        };
        if indicator == 0x03 {
            return Ok("Bot".to_owned());
        }
        if indicator == 0x10 {
            let lo = match cursor.read_u32() {
                Ok(v) => v,
                Err(e) => {
                    return Err(e);
                },
            };
            let hi = match cursor.read_u32() {
                Ok(v) => v,
                Err(e) => {
                    return Err(e);
                },
            };
            let ghost glen = lo + 0x1_0000_0000int * hi;
            let bytes = match read_exact_u64(cursor, lo, hi) {
                Ok(v) => v,
                Err(e) => {
                    return Err(e);
                },
            };
            match crate::ustr::utf8_vec_to_string(&bytes) {
                Some(s) => Ok(s),
                None => Err(UeError::InvalidUtf8),
            }
        } else {
            let cnt = match cursor.read_byte() {
                Ok(v) => v,
                Err(e) => {
                    return Err(e);
                },
            };
            let bytes = match read_exact_u64(cursor, cnt as u32, 0) {
                Ok(v) => v,
                Err(e) => {
                    return Err(e);
                },
            };
            Ok(hex_encode(&bytes))
        }
    }

    /// Decodes a `playerElim` event payload: 85 bytes of preamble, the
    /// victim and killer identities, the weapon id and the knock flag.
    #[verifier::rlimit(100)]
    #[verifier::spinoff_prover]
    pub fn parse(e: &EventChunk) -> (r: Result<Elimination, UeError>)
        requires
            e.data@.len() * 8 <= usize::MAX,
        ensures
            e.group@ != "playerElim"@ ==> (r matches Err(re) && re == UeError::WrongChunk),
            ({
                let data = e.data@;
                let size: int = (e.data@.len() as int) * 8;
                e.group@ == "playerElim"@ ==> match player_spec(data, size, 680int) {
                    Err(er) => r matches Err(re) && re == er,
                    Ok((victim, p1)) => match player_spec(data, size, p1) {
                        Err(er) => r matches Err(re) && re == er,
                        Ok((killer, p2)) => if p2 + 8 + 32 > size {
                            r matches Err(re) && re == UeError::ReadPastEnd
                        } else {
                            r matches Ok(el) && el.victim_id@ == victim && el.killer_id@ == killer
                                && el.gun_type == s_byte(data, p2) && el.knocked == (le_u32(
                                data,
                                p2 + 8,
                            ) != 0)
                        },
                    },
                }
            }),
    {
        proof {
            reveal(player_spec);
        }
        let needle: String = "playerElim".to_owned();
        if !(e.group == needle) {
            return Err(UeError::WrongChunk);
        }
        let total_bits = e.data.len() * 8;
        let mut cursor = BitReader::new(e.data.as_slice(), total_bits);
        let _ = match read_exact_u64(&mut cursor, 85, 0) {
            Ok(v) => v,
            Err(er) => {
                return Err(er);
            },
        };
        proof {
            assert(cursor.bit_pos == 85 * 8);
        }
        let victim_id = match Self::parse_player(&mut cursor) {
            Ok(v) => v,
            Err(er) => {
                return Err(er);
            },
        };
        let killer_id = match Self::parse_player(&mut cursor) {
            Ok(v) => v,
            Err(er) => {
                return Err(er);
            },
        };
        let gun_type = match cursor.read_byte() {
            Ok(v) => v,
            Err(er) => {
                return Err(er);
            },
        };
        let knocked_raw = match cursor.read_u32() {
            Ok(v) => v,
            Err(er) => {
                return Err(er);
            },
        };
        Ok(Elimination { victim_id, killer_id, gun_type, knocked: knocked_raw != 0 })
    }
}

/// Reads exactly `lo + 2^32 * hi` bytes from the cursor.
fn read_exact_u64(cursor: &mut BitReader, lo: u32, hi: u32) -> (r: Result<Vec<u8>, UeError>)
    requires
        old(cursor).wf(),
    ensures
        final(cursor).wf(),
        final(cursor).bytes@ == old(cursor).bytes@,
        final(cursor).bit_size == old(cursor).bit_size,
        final(cursor).bit_pos >= old(cursor).bit_pos,
        ({
            let cnt = lo + 0x1_0000_0000int * hi;
            let pos = old(cursor).bit_pos as int;
            let size = old(cursor).bit_size as int;
            if pos + 8 * cnt > size {
                r matches Err(re) && re == UeError::ReadPastEnd && final(cursor).bit_pos
                    == old(cursor).bit_pos
            } else {
                r matches Ok(v) && v@ == s_bytes(old(cursor).stream(), pos, cnt)
                    && final(cursor).bit_pos == pos + 8 * cnt
            }
        }),
{
    let cnt: u64 = (lo as u64) + 0x1_0000_0000u64 * (hi as u64);
    if ((cursor.bit_size - cursor.bit_pos) as u64) / 8 < cnt {
        proof {
            let pos = old(cursor).bit_pos as int;
            let size = old(cursor).bit_size as int;
            let d = size - pos;
            assert((d / 8 < cnt) <==> (pos + 8 * cnt > size)) by (nonlinear_arith)
                requires
                    d >= 0,
                    d == size - pos,
                    cnt >= 0,
            ;
        }
        return Err(UeError::ReadPastEnd);
    }
    proof {
        let pos = old(cursor).bit_pos as int;
        let size = old(cursor).bit_size as int;
        let d = size - pos;
        assert((d / 8 >= cnt) ==> (pos + 8 * cnt <= size)) by (nonlinear_arith)
            requires
                d >= 0,
                d == size - pos,
                cnt >= 0,
        ;
    }
    let mut out: Vec<u8> = Vec::new();
    let mut k: u64 = 0;
    while k < cnt
        invariant
            cursor.wf(),
            cursor.bytes@ == old(cursor).bytes@,
            cursor.bit_size == old(cursor).bit_size,
            k <= cnt,
            cursor.bit_pos == old(cursor).bit_pos + 8 * k,
            old(cursor).bit_pos + 8 * cnt <= cursor.bit_size,
            out@.len() == k as int,
            forall|t: int|
                0 <= t < k ==> out@[t] == s_byte(
                    cursor.bytes@,
                    old(cursor).bit_pos + 8 * t,
                ),
        decreases cnt - k,
    {
        let b = match cursor.read_byte() {
            Ok(v) => v,
            Err(e) => {
                return Err(e);
            },
        };
        out.push(b);
        k = k + 1;
    }
    proof {
        assert(out@ =~= s_bytes(
            old(cursor).stream(),
            old(cursor).bit_pos as int,
            lo + 0x1_0000_0000int * hi,
        ));
    }
    Ok(out)
}

} // verus!
