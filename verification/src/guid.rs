//! Network GUIDs and the recursive decoder of internal object references,
//! which yields the entries of the session's GUID-to-path cache.

use vstd::prelude::*;

use crate::bitreader::BitReader;
use crate::bitstream::{s_bit, s_byte};
use crate::codec::{tail_bytes, varint_spec};
use crate::paths::{clean_path16, clean_path8};
use crate::ustr::{fstring_spec, UeStr, UeStrSeq};
use crate::UeError;

verus! {

/// A 32-bit identifier the sender assigns to an object reference.
#[derive(Debug, Clone, Copy, PartialEq, Eq, Hash, Structural)]
pub struct NetworkGUID(pub u32);

impl Default for NetworkGUID {
    /// The null reference.
    fn default() -> (r: NetworkGUID)
        ensures
            r.0 == 0,
    {
        NetworkGUID(0)
    }
}

impl NetworkGUID {
    /// A reference to an actual object.
    pub fn is_valid(&self) -> (r: bool)
        ensures
            r == (self.0 > 0),
    {
        self.0 > 0
    }

    /// The distinguished default object reference.
    pub fn is_default(&self) -> (r: bool)
        ensures
            r == (self.0 == 1),
    {
        self.0 == 1
    }

    /// A per-session (not stably named) object reference: valid and even.
    pub fn is_dynamic(&self) -> (r: bool)
        ensures
            r == spec_is_dynamic(self.0),
    {
        self.0 > 0 && self.0 % 2 == 0
    }
}

/// Valid and even: assigned per session rather than stably named.
pub open spec fn spec_is_dynamic(g: u32) -> bool {
    g > 0 && g % 2 == 0
}

/// A cleaned path, still as code units of its width.
pub open spec fn clean_ue(m: UeStrSeq) -> UeStrSeq {
    match m {
        UeStrSeq::Narrow(b) => UeStrSeq::Narrow(clean_path8(b)),
        UeStrSeq::Wide(u) => UeStrSeq::Wide(clean_path16(u)),
    }
}

/// What one internal-object read at bit `pos` yields: the reference's guid,
/// the cache entry an exporting read contributes, and the end position.
/// Past depth 16 the read is abandoned with the null reference.
pub open spec fn lio_spec(data: Seq<u8>, size: int, pos: int, exporting: bool, depth: int) -> Result<
    (u32, Option<(u32, UeStrSeq)>, int),
    UeError,
>
    decreases 17 - depth,
{
    if depth > 16 {
        Ok((0, None::<(u32, UeStrSeq)>, pos))
    } else {
        match varint_spec(tail_bytes(data, pos, size)) {
            Err(e) => Err(e),
            Ok((g, n)) => {
                let p1 = pos + 8 * n;
                if g == 0 {
                    Ok((g, None::<(u32, UeStrSeq)>, p1))
                } else if g == 1 || exporting {
                    if p1 + 8 > size {
                        Err(UeError::ReadPastEnd)
                    } else {
                        let flags = s_byte(data, p1);
                        let p2 = p1 + 8;
                        if flags % 2 == 1 {
                            match lio_spec(data, size, p2, true, depth + 1) {
                                Err(e) => Err(e),
                                Ok((_, _, p3)) => match fstring_spec(data, size, p3) {
                                    Err(e) => Err(e),
                                    Ok((m, p4)) => {
                                        let has_checksum = (flags / 4) % 2 == 1;
                                        if has_checksum && p4 + 32 > size {
                                            Err(UeError::ReadPastEnd)
                                        } else {
                                            let p5 = if has_checksum {
                                                p4 + 32
                                            } else {
                                                p4
                                            };
                                            if exporting {
                                                Ok((g, Some((g, clean_ue(m))), p5))
                                            } else {
                                                Ok((g, None::<(u32, UeStrSeq)>, p5))
                                            }
                                        }
                                    },
                                },
                            }
                        } else {
                            Ok((g, None::<(u32, UeStrSeq)>, p2))
                        }
                    }
                } else {
                    Ok((g, None::<(u32, UeStrSeq)>, p1))
                }
            },
        }
    }
}

/// Every cache entry an internal-object read yields carries a valid guid:
/// the read hands an export out only after it saw a non-null reference.
pub proof fn lemma_lio_export_valid(data: Seq<u8>, size: int, pos: int, exporting: bool, depth: int)
    ensures
        lio_spec(data, size, pos, exporting, depth) matches Ok((g, e, p)) ==> (e matches Some(
            (eg, _),
        ) ==> eg > 0 && eg == g),
    decreases 17 - depth,
{
    if depth > 16 {
    } else {
        match varint_spec(tail_bytes(data, pos, size)) {
            Err(_) => {},
            Ok((g, n)) => {
                lemma_lio_export_valid(data, size, pos + 8 * n + 8, true, depth + 1);
            },
        }
    }
}

/// Decodes one internal object reference. An exporting read returns the
/// `(guid, cleaned path)` pair that belongs in the GUID cache.
pub fn load_internal_object(
    reader: &mut BitReader,
    is_exporting_net_guid_bunch: bool,
    load_object_recursion_counter: u32,
) -> (r: Result<(NetworkGUID, Option<(NetworkGUID, UeStr)>), UeError>)
    requires
        old(reader).wf(),
    ensures
        final(reader).wf(),
        final(reader).bytes@ == old(reader).bytes@,
        final(reader).bit_size == old(reader).bit_size,
        final(reader).bit_pos >= old(reader).bit_pos,
        ({
            let spec_r = lio_spec(
                old(reader).stream(),
                old(reader).bit_size as int,
                old(reader).bit_pos as int,
                is_exporting_net_guid_bunch,
                load_object_recursion_counter as int,
            );
            match spec_r {
                Ok((g, e, p)) => {
                    &&& r matches Ok(rr)
                    &&& rr.0.0 == g && final(reader).bit_pos == p
                    &&& (match e {
                        Some((eg, em)) => rr.1 matches Some(rx) && rx.0.0 == eg && rx.1@ == em,
                        None => rr.1 is None,
                    })
                },
                Err(e) => r matches Err(re) && re == e,
            }
        }),
    decreases 17 - load_object_recursion_counter,
{
    if load_object_recursion_counter > 16 {
        return Ok((NetworkGUID(0), None));
    }
    let g = match reader.read_int_packed() {
        Ok(v) => v,
        Err(e) => {
            return Err(e);
        },
    };
    let guid = NetworkGUID(g);
    if g == 0 {
        return Ok((guid, None));
    }
    if g == 1 || is_exporting_net_guid_bunch {
        let flags = match reader.read_byte() {
            Ok(v) => v,
            Err(e) => {
                return Err(e);
            },
        };
        if flags % 2 == 1 {
            let outer = match load_internal_object(
                reader,
                true,
                load_object_recursion_counter + 1,
            ) {
                Ok(v) => v,
                Err(e) => {
                    return Err(e);
                },
            };
            let path = match reader.read_fstring_raw() {
                Ok(v) => v,
                Err(e) => {
                    return Err(e);
                },
            };
            if (flags / 4) % 2 == 1 {
                match reader.read_u32() {
                    Ok(_) => {},
                    Err(e) => {
                        return Err(e);
                    },
                };
            }
            let cleaned = match path {
                UeStr::Narrow(b) => UeStr::Narrow(crate::paths::remove_all_path_prefixes(b)),
                UeStr::Wide(u) => UeStr::Wide(crate::paths::remove_all_path_prefixes_wide(u)),
            };
            if is_exporting_net_guid_bunch {
                return Ok((guid, Some((guid, cleaned))));
            }
            return Ok((guid, None));
        }
        return Ok((guid, None));
    }
    Ok((guid, None))
}

} // verus!
