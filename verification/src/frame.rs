//! The demo-frame reader: splits a decompressed data-chunk payload into
//! frames — header fields, net-field exports, guid exports, streaming
//! levels, external data and playback packets — and drives the packet
//! parser over each packet in order.

use vstd::prelude::*;

use crate::bitreader::{le_u32, BitReader};
use crate::bitstream::s_byte;
use crate::codec::{tail_bytes, varint_spec};
use crate::bunch::{PacketState, PlaybackPacket};
use crate::parser::PacketParser;
use crate::ustr::{fname_spec, fstring_spec, ue_str_chars, ue_str_error};
use crate::UeError;

verus! {

/// Where a byte-gated name read at bit `pos` ends, and its text: a nonzero
/// gate byte selects a hardcoded id into the engine table; a zero one an
/// inline string whose trailing 32-bit number is discarded.
#[verifier::opaque]
pub open spec fn fname_byte_spec(data: Seq<u8>, size: int, pos: int) -> Result<
    (Seq<char>, int),
    UeError,
> {
    if pos + 8 > size {
        Err(UeError::ReadPastEnd)
    } else if s_byte(data, pos) != 0 {
        match varint_spec(tail_bytes(data, pos + 8, size)) {
            Ok((id, n)) => if crate::names::unreal_name_known(id) {
                Ok((crate::names::unreal_name_text(id), pos + 8 + 8 * n))
            } else {
                Err(UeError::UnknownName)
            },
            Err(e) => Err(e),
        }
    } else {
        match fstring_spec(data, size, pos + 8) {
            Ok((m, p)) => match ue_str_chars(m) {
                Some(cs) => if p + 32 <= size {
                    Ok((cs, p + 32))
                } else {
                    Err(UeError::ReadPastEnd)
                },
                None => Err(ue_str_error(m)),
            },
            Err(e) => Err(e),
        }
    }
}

impl<'a> BitReader<'a> {
    /// Reads a byte-gated name: a nonzero flag byte selects a hardcoded id
    /// into the engine table, a zero one an inline string whose trailing
    /// 32-bit number is discarded.
    pub fn read_fname(&mut self) -> (r: Result<String, UeError>)
        requires
            old(self).wf(),
        ensures
            final(self).wf(),
            final(self).bytes@ == old(self).bytes@,
            final(self).bit_size == old(self).bit_size,
            final(self).bit_pos >= old(self).bit_pos,
            ({
                let spec_r = fname_byte_spec(
                    old(self).stream(),
                    old(self).bit_size as int,
                    old(self).bit_pos as int,
                );
                match spec_r {
                    Ok((cs, p)) => r matches Ok(s) && s@ == cs && final(self).bit_pos == p,
                    Err(e) => r matches Err(re) && re == e,
                }
            }),
    {
        proof {
            reveal(fname_byte_spec);
        }
        let gate = match self.read_byte() {
            Ok(b) => b,
            Err(e) => {
                return Err(e);
            },
        };
        if gate != 0 {
            let id = match self.read_int_packed() {
                Ok(v) => v,
                Err(e) => {
                    return Err(e);
                },
            };
            match crate::names::hardcoded_name(id) {
                Some(s) => Ok(s.to_owned()),
                None => Err(UeError::UnknownName),
            }
        } else {
            let s = match self.read_fstring() {
                Ok(s) => s,
                Err(e) => {
                    return Err(e);
                },
            };
            match self.read_u32() {
                Ok(_) => Ok(s),
                Err(e) => Err(e),
            }
        }
    }
}

/// One exported net field: its replication handle, layout checksum and
/// name.
#[derive(Debug, Clone, PartialEq, Eq)]
pub struct NetFieldExport {
    pub handle: u32,
    pub compatible_checksum: u32,
    pub name: String,
}

/// The mathematical form of an exported net field.
#[verifier::ext_equal]
pub struct NetFieldExportV {
    pub handle: u32,
    pub compatible_checksum: u32,
    pub name: Seq<char>,
}

impl View for NetFieldExport {
    type V = NetFieldExportV;

    open spec fn view(&self) -> NetFieldExportV {
        NetFieldExportV {
            handle: self.handle,
            compatible_checksum: self.compatible_checksum,
            name: self.name@,
        }
    }
}

/// Where one guarded net-field export at bit `pos` ends, and its record:
/// a zero guard byte means the export is absent.
#[verifier::opaque]
pub open spec fn net_field_export_spec(data: Seq<u8>, size: int, pos: int) -> Result<
    (Option<NetFieldExportV>, int),
    UeError,
> {
    if pos + 8 > size {
        Err(UeError::ReadPastEnd)
    } else if s_byte(data, pos) != 0 {
        match varint_spec(tail_bytes(data, pos + 8, size)) {
            Err(e) => Err(e),
            Ok((handle, n)) => {
                let p1 = pos + 8 + 8 * n;
                if p1 + 32 > size {
                    Err(UeError::ReadPastEnd)
                } else {
                    match fname_byte_spec(data, size, p1 + 32) {
                        Err(e) => Err(e),
                        Ok((nm, p2)) => Ok(
                            (
                                Some(
                                    NetFieldExportV {
                                        handle,
                                        compatible_checksum: le_u32(data, p1),
                                        name: nm,
                                    },
                                ),
                                p2,
                            ),
                        ),
                    }
                }
            },
        }
    } else {
        Ok((None::<NetFieldExportV>, pos + 8))
    }
}

impl NetFieldExport {
    /// Reads one guarded export record: a zero guard byte means absent.
    pub fn parse(cursor: &mut BitReader) -> (r: Result<Option<NetFieldExport>, UeError>)
        requires
            old(cursor).wf(),
        ensures
            final(cursor).wf(),
            final(cursor).bytes@ == old(cursor).bytes@,
            final(cursor).bit_size == old(cursor).bit_size,
            final(cursor).bit_pos >= old(cursor).bit_pos,
            ({
                let spec_r = net_field_export_spec(
                    old(cursor).stream(),
                    old(cursor).bit_size as int,
                    old(cursor).bit_pos as int,
                );
                match spec_r {
                    Err(e) => r matches Err(re) && re == e,
                    Ok((oe, p)) => {
                        &&& final(cursor).bit_pos == p
                        &&& (match oe {
                            Some(ev) => r matches Ok(ro) && ro matches Some(re) && re@ == ev,
                            None => r matches Ok(ro) && ro is None,
                        })
                    },
                }
            }),
    {
        proof {
            reveal(net_field_export_spec);
        }
        let is_exported = match cursor.read_byte() {
            Ok(b) => b,
            Err(e) => {
                return Err(e);
            },
        };
        if is_exported != 0 {
            let handle = match cursor.read_int_packed() {
                Ok(v) => v,
                Err(e) => {
                    return Err(e);
                },
            };
            let compatible_checksum = match cursor.read_u32() {
                Ok(v) => v,
                Err(e) => {
                    return Err(e);
                },
            };
            let name = match cursor.read_fname() {
                Ok(v) => v,
                Err(e) => {
                    return Err(e);
                },
            };
            Ok(Some(NetFieldExport { handle, compatible_checksum, name }))
        } else {
            Ok(None)
        }
    }
}

/// One record of the net-field exports block: a path-name index, an
/// optional path name with its export count, and an optional inner export.
#[derive(Debug, Clone, PartialEq, Eq)]
pub struct NetFieldExports {
    pub path_name_index: u32,
    pub is_exported: bool,
    pub path_name: Option<String>,
    pub num_exports: Option<u32>,
    pub export: Option<NetFieldExport>,
}

/// The mathematical form of one exports record.
#[verifier::ext_equal]
pub struct NetFieldExportsV {
    pub path_name_index: u32,
    pub is_exported: bool,
    pub path_name: Option<Seq<char>>,
    pub num_exports: Option<u32>,
    pub export: Option<NetFieldExportV>,
}

impl View for NetFieldExports {
    type V = NetFieldExportsV;

    open spec fn view(&self) -> NetFieldExportsV {
        NetFieldExportsV {
            path_name_index: self.path_name_index,
            is_exported: self.is_exported,
            path_name: match self.path_name {
                Some(ref s) => Some(s@),
                None => None,
            },
            num_exports: self.num_exports,
            export: match self.export {
                Some(ref e) => Some(e@),
                None => None,
            },
        }
    }
}

/// Where one exports record at bit `pos` ends, and its fields.
#[verifier::opaque]
pub open spec fn net_field_exports_one_spec(data: Seq<u8>, size: int, pos: int) -> Result<
    (NetFieldExportsV, int),
    UeError,
> {
    match varint_spec(tail_bytes(data, pos, size)) {
        Err(e) => Err(e),
        Ok((pni, n1)) => {
            let p1 = pos + 8 * n1;
            match varint_spec(tail_bytes(data, p1, size)) {
                Err(e) => Err(e),
                Ok((exp_flag, n2)) => {
                    let p2 = p1 + 8 * n2;
                    let is_exported = exp_flag != 0;
                    if is_exported {
                        match fstring_spec(data, size, p2) {
                            Err(e) => Err(e),
                            Ok((m, p3)) => match ue_str_chars(m) {
                                None => Err(ue_str_error(m)),
                                Some(cs) => match varint_spec(tail_bytes(data, p3, size)) {
                                    Err(e) => Err(e),
                                    Ok((ne, n3)) => {
                                        let p4 = p3 + 8 * n3;
                                        match net_field_export_spec(data, size, p4) {
                                            Err(e) => Err(e),
                                            Ok((oe, p5)) => Ok(
                                                (
                                                    NetFieldExportsV {
                                                        path_name_index: pni,
                                                        is_exported: true,
                                                        path_name: Some(cs),
                                                        num_exports: Some(ne),
                                                        export: oe,
                                                    },
                                                    p5,
                                                ),
                                            ),
                                        }
                                    },
                                },
                            },
                        }
                    } else {
                        match net_field_export_spec(data, size, p2) {
                            Err(e) => Err(e),
                            Ok((oe, p5)) => Ok(
                                (
                                    NetFieldExportsV {
                                        path_name_index: pni,
                                        is_exported: false,
                                        path_name: None::<Seq<char>>,
                                        num_exports: None::<u32>,
                                        export: oe,
                                    },
                                    p5,
                                ),
                            ),
                        }
                    }
                },
            }
        },
    }
}

/// The records of a whole exports block: `n` of them in order, from bit
/// `pos`.
pub open spec fn net_field_exports_rec(data: Seq<u8>, size: int, pos: int, n: int) -> Result<
    (Seq<NetFieldExportsV>, int),
    UeError,
>
    decreases n,
{
    if n <= 0 {
        Ok((Seq::empty(), pos))
    } else {
        match net_field_exports_one_spec(data, size, pos) {
            Err(e) => Err(e),
            Ok((ev, p1)) => match net_field_exports_rec(data, size, p1, n - 1) {
                Err(e) => Err(e),
                Ok((rest, p2)) => Ok((seq![ev] + rest, p2)),
            },
        }
    }
}

/// Where a whole exports block at bit `pos` ends, and its records: a
/// varint count, then that many records.
pub open spec fn net_field_exports_spec(data: Seq<u8>, size: int, pos: int) -> Result<
    (Seq<NetFieldExportsV>, int),
    UeError,
> {
    match varint_spec(tail_bytes(data, pos, size)) {
        Err(e) => Err(e),
        Ok((cnt, n)) => net_field_exports_rec(data, size, pos + 8 * n, cnt as int),
    }
}

/// The mathematical form of a record vector.
pub open spec fn exports_view(v: Seq<NetFieldExports>) -> Seq<NetFieldExportsV> {
    Seq::new(v.len(), |i: int| v[i]@)
}

impl NetFieldExports {
    /// Reads the net-field exports block: a varint count, then that many
    /// records.
    pub fn parse(cursor: &mut BitReader) -> (r: Result<Vec<NetFieldExports>, UeError>)
        requires
            old(cursor).wf(),
        ensures
            final(cursor).wf(),
            final(cursor).bytes@ == old(cursor).bytes@,
            final(cursor).bit_size == old(cursor).bit_size,
            final(cursor).bit_pos >= old(cursor).bit_pos,
            ({
                let spec_r = net_field_exports_spec(
                    old(cursor).stream(),
                    old(cursor).bit_size as int,
                    old(cursor).bit_pos as int,
                );
                match spec_r {
                    Err(e) => r matches Err(re) && re == e,
                    Ok((evs, p)) => {
                        &&& r matches Ok(rv)
                        &&& final(cursor).bit_pos == p
                        &&& rv@.len() == evs.len()
                        &&& (forall|i: int| 0 <= i < evs.len() ==> rv@[i]@ == evs[i])
                    },
                }
            }),
    {
        let ghost data = old(cursor).bytes@;
        let ghost size = old(cursor).bit_size as int;
        let num = match cursor.read_int_packed() {
            Ok(v) => v,
            Err(e) => {
                return Err(e);
            },
        };
        let mut out: Vec<NetFieldExports> = Vec::new();
        let mut k: u32 = 0;
        proof {
            assert(exports_view(out@) + net_field_exports_rec(
                data,
                size,
                cursor.bit_pos as int,
                num as int,
            )->Ok_0.0 =~= net_field_exports_rec(data, size, cursor.bit_pos as int, num as int)->Ok_0.0);
        }
        while k < num
            invariant
                cursor.wf(),
                cursor.bytes@ == data,
                cursor.bit_size == size,
                data == old(cursor).bytes@,
                size == old(cursor).bit_size as int,
                k <= num,
                out@.len() == k as int,
                cursor.bit_pos >= old(cursor).bit_pos,
                ({
                    let whole = net_field_exports_spec(data, size, old(cursor).bit_pos as int);
                    match net_field_exports_rec(data, size, cursor.bit_pos as int, num - k) {
                        Err(e) => whole == Err::<(Seq<NetFieldExportsV>, int), UeError>(e),
                        Ok((rest, p)) => whole matches Ok(w) && w.0 == exports_view(out@) + rest
                            && w.1 == p,
                    }
                }),
            decreases num - k,
        {
            let ghost rest_pre = net_field_exports_rec(
                data,
                size,
                cursor.bit_pos as int,
                num - k,
            );
            let one = match Self::parse_one(cursor) {
                Ok(v) => v,
                Err(e) => {
                    return Err(e);
                },
            };
            let ghost out0 = out@;
            out.push(one);
            k = k + 1;
            proof {
                if rest_pre is Ok {
                    let rest2 = net_field_exports_rec(
                        data,
                        size,
                        cursor.bit_pos as int,
                        num - k,
                    );
                    if rest2 is Ok {
                        assert(exports_view(out@) + rest2->Ok_0.0 =~= exports_view(out0) + (seq![
                            one@,
                        ] + rest2->Ok_0.0));
                    }
                }
            }
        }
        proof {
            let whole = net_field_exports_spec(data, size, old(cursor).bit_pos as int);
            if whole is Ok {
                assert(exports_view(out@) + Seq::<NetFieldExportsV>::empty() =~= exports_view(
                    out@,
                ));
                assert forall|i: int| 0 <= i < whole->Ok_0.0.len() implies whole->Ok_0.0[i]
                    == out@[i]@ by {
                    assert(whole->Ok_0.0[i] == exports_view(out@)[i]);
                }
            }
        }
        Ok(out)
    }

    /// Reads one exports record.
    fn parse_one(cursor: &mut BitReader) -> (r: Result<NetFieldExports, UeError>)
        requires
            old(cursor).wf(),
        ensures
            final(cursor).wf(),
            final(cursor).bytes@ == old(cursor).bytes@,
            final(cursor).bit_size == old(cursor).bit_size,
            final(cursor).bit_pos >= old(cursor).bit_pos,
            ({
                let spec_r = net_field_exports_one_spec(
                    old(cursor).stream(),
                    old(cursor).bit_size as int,
                    old(cursor).bit_pos as int,
                );
                match spec_r {
                    Err(e) => r matches Err(re) && re == e,
                    Ok((ev, p)) => r matches Ok(rv) && rv@ == ev && final(cursor).bit_pos == p,
                }
            }),
    {
        proof {
            reveal(net_field_exports_one_spec);
        }
        let path_name_index = match cursor.read_int_packed() {
            Ok(v) => v,
            Err(e) => {
                return Err(e);
            },
        };
        let exp_flag = match cursor.read_int_packed() {
            Ok(v) => v,
            Err(e) => {
                return Err(e);
            },
        };
        let is_exported = exp_flag != 0;
        let mut path_name: Option<String> = None;
        let mut num_exports: Option<u32> = None;
        if is_exported {
            let pn = match cursor.read_fstring() {
                Ok(v) => v,
                Err(e) => {
                    return Err(e);
                },
            };
            path_name = Some(pn);
            let ne = match cursor.read_int_packed() {
                Ok(v) => v,
                Err(e) => {
                    return Err(e);
                },
            };
            num_exports = Some(ne);
        }
        let export = match NetFieldExport::parse(cursor) {
            Ok(v) => v,
            Err(e) => {
                return Err(e);
            },
        };
        Ok(NetFieldExports { path_name_index, is_exported, path_name, num_exports, export })
    }
}


/// The mathematical form of a playback packet.
#[verifier::ext_equal]
pub struct PlaybackPacketV {
    pub state: PacketState,
    pub data: Seq<u8>,
}

impl View for PlaybackPacket {
    type V = PlaybackPacketV;

    open spec fn view(&self) -> PlaybackPacketV {
        PlaybackPacketV { state: self.state, data: self.data@ }
    }
}

/// The mathematical form of a demo frame.
#[verifier::ext_equal]
pub struct FrameV {
    pub current_level_index: u32,
    pub time_seconds_bits: u32,
    pub export_data: Seq<NetFieldExportsV>,
    pub packets: Seq<PlaybackPacketV>,
}

/// What one guid-export record at bit `pos` does to the session cache and
/// where it ends: a 32-bit byte count, that many bytes, and one exporting
/// internal-object read over them whose `(guid, path)` pair, decoded,
/// joins the cache.
#[verifier::opaque]
pub open spec fn guid_export_one_spec(
    data: Seq<u8>,
    size: int,
    pos: int,
    cache: Map<u32, Seq<char>>,
) -> (Map<u32, Seq<char>>, Result<int, UeError>) {
    if pos + 32 > size {
        (cache, Err(UeError::ReadPastEnd))
    } else {
        let size_raw = le_u32(data, pos);
        if size_raw >= 0x8000_0000 {
            (cache, Err(UeError::MalformedPacket))
        } else if pos + 32 + 8 * size_raw > size {
            (cache, Err(UeError::ReadPastEnd))
        } else {
            let blob = crate::bitstream::s_bytes(data, pos + 32, size_raw as int);
            let after = pos + 32 + 8 * size_raw;
            match crate::guid::lio_spec(blob, 8 * size_raw, 0, true, 0) {
                Err(e) => (cache, Err(e)),
                Ok((_, ex, _)) => match ex {
                    None => (cache, Ok(after)),
                    Some((eg, em)) => match crate::ustr::ue_str_chars(em) {
                        None => (cache, Err(crate::ustr::ue_str_error(em))),
                        Some(cs) => (crate::bunch::spec_cache_insert(cache, eg, cs), Ok(after)),
                    },
                },
            }
        }
    }
}

/// The cache after `n` guid-export records from bit `pos`, and where they
/// end. A failed record keeps the entries of the records before it.
pub open spec fn guid_exports_rec(
    data: Seq<u8>,
    size: int,
    pos: int,
    cache: Map<u32, Seq<char>>,
    n: int,
) -> (Map<u32, Seq<char>>, Result<int, UeError>)
    decreases n,
{
    if n <= 0 {
        (cache, Ok(pos))
    } else {
        let one = guid_export_one_spec(data, size, pos, cache);
        match one.1 {
            Err(e) => (one.0, Err(e)),
            Ok(p1) => guid_exports_rec(data, size, p1, one.0, n - 1),
        }
    }
}

/// The whole guid-export block: a varint count, then that many records.
pub open spec fn guid_exports_spec(
    data: Seq<u8>,
    size: int,
    pos: int,
    cache: Map<u32, Seq<char>>,
) -> (Map<u32, Seq<char>>, Result<int, UeError>) {
    match varint_spec(tail_bytes(data, pos, size)) {
        Err(e) => (cache, Err(e)),
        Ok((cnt, n)) => guid_exports_rec(data, size, pos + 8 * n, cache, cnt as int),
    }
}

/// Where `n` discarded streaming-level names from bit `pos` end.
pub open spec fn levels_rec(data: Seq<u8>, size: int, pos: int, n: int) -> Result<int, UeError>
    decreases n,
{
    if n <= 0 {
        Ok(pos)
    } else {
        match fstring_spec(data, size, pos) {
            Err(e) => Err(e),
            Ok((m, p)) => match ue_str_chars(m) {
                None => Err(ue_str_error(m)),
                Some(_) => levels_rec(data, size, p, n - 1),
            },
        }
    }
}

/// One discarded external-data record at bit `pos`: its varint bit
/// count (zero ends the run), a varint guid, and the bits rounded up to
/// bytes; and whether it ended the run.
#[verifier::opaque]
pub open spec fn external_one_spec(data: Seq<u8>, size: int, pos: int) -> Result<
    (bool, int),
    UeError,
> {
    match varint_spec(tail_bytes(data, pos, size)) {
        Err(e) => Err(e),
        Ok((bits, n)) => {
            let p1 = pos + 8 * n;
            if bits == 0 {
                Ok((true, p1))
            } else {
                match varint_spec(tail_bytes(data, p1, size)) {
                    Err(e) => Err(e),
                    Ok((_, n2)) => {
                        let p2 = p1 + 8 * n2;
                        let nbytes = bits / 8 + if bits % 8 != 0 {
                            1int
                        } else {
                            0int
                        };
                        if p2 + 8 * nbytes > size {
                            Err(UeError::ReadPastEnd)
                        } else {
                            Ok((false, p2 + 8 * nbytes))
                        }
                    },
                }
            }
        },
    }
}

/// Where the discarded external-data records from bit `pos` end.
pub open spec fn external_rec(data: Seq<u8>, size: int, pos: int) -> Result<int, UeError>
    decreases size - pos,
{
    match external_one_spec(data, size, pos) {
        Err(e) => Err(e),
        Ok((done, p)) => if done {
            Ok(p)
        } else if pos < p <= size {
            external_rec(data, size, p)
        } else {
            Ok(p)
        },
    }
}

/// The whole streaming-level block: a varint count, then that many
/// discarded names.
#[verifier::opaque]
pub open spec fn levels_spec(data: Seq<u8>, size: int, pos: int) -> Result<int, UeError> {
    match varint_spec(tail_bytes(data, pos, size)) {
        Err(e) => Err(e),
        Ok((cnt, n)) => levels_rec(data, size, pos + 8 * n, cnt as int),
    }
}

/// Where the middle of a frame ends: the streaming-level names, the
/// 64-bit external-data offset, the external-data records, and the
/// game-specific data, all discarded.
#[verifier::opaque]
pub open spec fn middle_spec(data: Seq<u8>, size: int, pos: int) -> Result<int, UeError> {
    match levels_spec(data, size, pos) {
        Err(e) => Err(e),
        Ok(p1) => if p1 + 64 > size {
            Err(UeError::ReadPastEnd)
        } else {
            match external_rec(data, size, p1 + 64) {
                Err(e) => Err(e),
                Ok(p2) => if p2 + 64 > size {
                    Err(UeError::ReadPastEnd)
                } else {
                    let cnt64 = le_u32(data, p2) + 0x1_0000_0000 * le_u32(data, p2 + 32);
                    if p2 + 64 + 8 * cnt64 > size {
                        Err(UeError::ReadPastEnd)
                    } else {
                        Ok(p2 + 64 + 8 * cnt64)
                    }
                },
            }
        },
    }
}

/// One playback-packet step at bit `pos`: a discarded varint level
/// index, a 32-bit size whose zero or high-bit value ends the run with
/// the terminal `End` packet, else that many bytes handed to the packet
/// parser. The session state reflects the packet walk.
#[verifier::opaque]
pub open spec fn packets_one_spec(data: Seq<u8>, size: int, pos: int, st: crate::parser::ParserV) -> (
    crate::parser::ParserV,
    Result<((PlaybackPacketV, bool), int), UeError>,
) {
    match varint_spec(tail_bytes(data, pos, size)) {
        Err(e) => (st, Err(e)),
        Ok((_, n)) => {
            let p1 = pos + 8 * n;
            if p1 + 32 > size {
                (st, Err(UeError::ReadPastEnd))
            } else {
                let size_raw = le_u32(data, p1);
                let p2 = p1 + 32;
                if size_raw == 0 || size_raw >= 0x8000_0000 {
                    (
                        st,
                        Ok(
                            (
                                (
                                    PlaybackPacketV {
                                        state: PacketState::End,
                                        data: Seq::<u8>::empty(),
                                    },
                                    true,
                                ),
                                p2,
                            ),
                        ),
                    )
                } else if p2 + 8 * size_raw > size {
                    (st, Err(UeError::ReadPastEnd))
                } else {
                    let blob = crate::bitstream::s_bytes(data, p2, size_raw as int);
                    let p3 = p2 + 8 * size_raw;
                    if st.packet_index == i32::MAX {
                        (st, Err(UeError::MalformedPacket))
                    } else if size_raw > usize::MAX / 8 {
                        (st, Err(UeError::MalformedPacket))
                    } else {
                        match crate::parser::stop_bit_size(blob) {
                            None => (st, Err(UeError::MalformedPacket)),
                            Some(bs) => {
                                let st1 = crate::parser::ParserV {
                                    packet_index: st.packet_index + 1,
                                    ..st
                                };
                                let walk = crate::parser::packet_rec(st1, blob, bs, 0);
                                match walk.1 {
                                    Some(e) => (walk.0, Err(e)),
                                    None => (
                                        walk.0,
                                        Ok(
                                            (
                                                (
                                                    PlaybackPacketV {
                                                        state: PacketState::Success,
                                                        data: blob,
                                                    },
                                                    false,
                                                ),
                                                p3,
                                            ),
                                        ),
                                    ),
                                }
                            },
                        }
                    }
                }
            }
        },
    }
}

/// The playback packets from bit `pos` to the frame's end marker, the
/// session state after the parser saw each one in order, and where they
/// end. A failed read or packet walk ends the run with the effects of
/// the packets before it standing.
pub open spec fn packets_rec(data: Seq<u8>, size: int, pos: int, st: crate::parser::ParserV) -> (
    crate::parser::ParserV,
    Result<(Seq<PlaybackPacketV>, int), UeError>,
)
    decreases size - pos,
{
    let one = packets_one_spec(data, size, pos, st);
    match one.1 {
        Err(e) => (one.0, Err(e)),
        Ok(((pv, done), p)) => if done {
            (one.0, Ok((seq![pv], p)))
        } else if pos < p <= size {
            let rest = packets_rec(data, size, p, one.0);
            (
                rest.0,
                match rest.1 {
                    Err(e) => Err(e),
                    Ok((ps, pe)) => Ok((seq![pv] + ps, pe)),
                },
            )
        } else {
            (one.0, Ok((seq![pv], p)))
        },
    }
}

/// One whole demo frame from bit `pos`: its two header fields, its
/// net-field exports, the cache growth of its guid exports, its skipped
/// middle, and its playback packets with the session state they produced.
/// A failed read ends the frame with the effects before it standing.
#[verifier::opaque]
pub open spec fn frame_spec(data: Seq<u8>, size: int, pos: int, st: crate::parser::ParserV) -> (
    crate::parser::ParserV,
    Result<(FrameV, int), UeError>,
) {
    if pos + 64 > size {
        (st, Err(UeError::ReadPastEnd))
    } else {
        let cli = le_u32(data, pos);
        let tsb = le_u32(data, pos + 32);
        match net_field_exports_spec(data, size, pos + 64) {
            Err(e) => (st, Err(e)),
            Ok((evs, p1)) => {
                let ge = guid_exports_spec(data, size, p1, st.cache);
                let st_g = crate::parser::ParserV { cache: ge.0, ..st };
                match ge.1 {
                    Err(e) => (st_g, Err(e)),
                    Ok(p2) => match middle_spec(data, size, p2) {
                        Err(e) => (st_g, Err(e)),
                        Ok(p3) => {
                            let pk = packets_rec(data, size, p3, st_g);
                            match pk.1 {
                                Err(e) => (pk.0, Err(e)),
                                Ok((ps, p4)) => (
                                    pk.0,
                                    Ok(
                                        (
                                            FrameV {
                                                current_level_index: cli,
                                                time_seconds_bits: tsb,
                                                export_data: evs,
                                                packets: ps,
                                            },
                                            p4,
                                        ),
                                    ),
                                ),
                            }
                        },
                    },
                }
            },
        }
    }
}

/// The demo frames of a whole payload from bit `pos` until it is
/// exhausted, and the session state they produced. A failed frame ends
/// the walk; the state of the frames before it stands.
pub open spec fn frames_rec(data: Seq<u8>, size: int, pos: int, st: crate::parser::ParserV) -> (
    crate::parser::ParserV,
    Result<Seq<FrameV>, UeError>,
)
    decreases size - pos,
{
    if pos >= size {
        (st, Ok(Seq::<FrameV>::empty()))
    } else {
        let one = frame_spec(data, size, pos, st);
        match one.1 {
            Err(e) => (one.0, Err(e)),
            Ok((fv, p1)) => if pos < p1 <= size {
                let rest = frames_rec(data, size, p1, one.0);
                (
                    rest.0,
                    match rest.1 {
                        Err(e) => Err(e),
                        Ok(fs) => Ok(seq![fv] + fs),
                    },
                )
            } else {
                (one.0, Ok(seq![fv]))
            },
        }
    }
}

/// The mathematical form of a packet vector.
pub open spec fn packets_view(v: Seq<PlaybackPacket>) -> Seq<PlaybackPacketV> {
    Seq::new(v.len(), |i: int| v[i]@)
}

/// A packet walk with `prefix` already collected in front of it.
pub open spec fn prepend_packets(
    prefix: Seq<PlaybackPacketV>,
    pair: (crate::parser::ParserV, Result<(Seq<PlaybackPacketV>, int), UeError>),
) -> (crate::parser::ParserV, Result<(Seq<PlaybackPacketV>, int), UeError>) {
    (
        pair.0,
        match pair.1 {
            Err(e) => Err(e),
            Ok((ps, pe)) => Ok((prefix + ps, pe)),
        },
    )
}

/// One demo frame: its level index, its timestamp (as the bit pattern of
/// the engine's 32-bit float), its net-field exports and its playback
/// packets.
#[derive(Debug, Clone)]
pub struct DemoFrame {
    pub current_level_index: u32,
    pub time_seconds_bits: u32,
    pub export_data: Vec<NetFieldExports>,
    pub packets: Vec<PlaybackPacket>,
}

impl View for DemoFrame {
    type V = FrameV;

    open spec fn view(&self) -> FrameV {
        FrameV {
            current_level_index: self.current_level_index,
            time_seconds_bits: self.time_seconds_bits,
            export_data: exports_view(self.export_data@),
            packets: packets_view(self.packets@),
        }
    }
}

/// The mathematical form of a frame vector.
pub open spec fn frames_view(v: Seq<DemoFrame>) -> Seq<FrameV> {
    Seq::new(v.len(), |i: int| v[i]@)
}

impl DemoFrame {
    /// Splits one demo frame off the cursor and drives the packet parser
    /// over each of its playback packets in order. The result, the cursor's
    /// end position and the parser's final state — cache growth from the
    /// guid exports and all packet effects, a failed read included — are
    /// exactly the frame walk's.
    #[verifier::rlimit(100)]
    #[verifier::spinoff_prover]
    pub fn parse(cursor: &mut BitReader, packet_parser: &mut PacketParser) -> (r: Result<
        DemoFrame,
        UeError,
    >)
        requires
            old(cursor).wf(),
            crate::parser::parser_inv(old(packet_parser)@),
        ensures
            final(cursor).wf(),
            final(cursor).bytes@ == old(cursor).bytes@,
            final(cursor).bit_size == old(cursor).bit_size,
            final(cursor).bit_pos >= old(cursor).bit_pos,
            crate::parser::parser_inv(final(packet_parser)@),
            ({
                let fr = frame_spec(
                    old(cursor).bytes@,
                    old(cursor).bit_size as int,
                    old(cursor).bit_pos as int,
                    old(packet_parser)@,
                );
                &&& final(packet_parser)@ == fr.0
                &&& (match fr.1 {
                    Err(e) => r matches Err(re) && re == e,
                    Ok((fv, pp)) => r matches Ok(f) && f@ == fv && final(cursor).bit_pos == pp,
                })
            }),
            r is Ok ==> final(cursor).bit_pos > old(cursor).bit_pos,
    {
        proof {
            reveal(frame_spec);
        }
        let ghost st0 = packet_parser@;
        let current_level_index = match cursor.read_u32() {
            Ok(v) => v,
            Err(e) => {
                return Err(e);
            },
        };
        let time_seconds_bits = match cursor.read_u32() {
            Ok(v) => v,
            Err(e) => {
                return Err(e);
            },
        };
        let export_data = match NetFieldExports::parse(cursor) {
            Ok(v) => v,
            Err(e) => {
                return Err(e);
            },
        };
        match Self::read_guid_exports(cursor, packet_parser) {
            Ok(_) => {},
            Err(e) => {
                proof {
                    assert(packet_parser@ =~= (crate::parser::ParserV {
                        cache: packet_parser@.cache,
                        ..st0
                    }));
                }
                return Err(e);
            },
        };
        proof {
            assert(packet_parser@ =~= (crate::parser::ParserV {
                cache: packet_parser@.cache,
                ..st0
            }));
        }
        match Self::skip_frame_middle(cursor) {
            Ok(_) => {},
            Err(e) => {
                return Err(e);
            },
        };
        let packets = match Self::read_frame_packets(cursor, packet_parser) {
            Ok(v) => v,
            Err(e) => {
                return Err(e);
            },
        };
        let frame = DemoFrame { current_level_index, time_seconds_bits, export_data, packets };
        proof {
            let fr = frame_spec(
                old(cursor).bytes@,
                old(cursor).bit_size as int,
                old(cursor).bit_pos as int,
                st0,
            );
            assert(fr.1 matches Ok(fp) && frame@ =~= fp.0);
        }
        Ok(frame)
    }

    /// Reads the frame's guid-export block: each record is a byte-counted
    /// blob holding one exporting internal-object read, whose result feeds
    /// the session cache.
    #[verifier::rlimit(100)]
    #[verifier::spinoff_prover]
    fn read_guid_exports(cursor: &mut BitReader, packet_parser: &mut PacketParser) -> (r: Result<
        (),
        UeError,
    >)
        requires
            old(cursor).wf(),
            crate::parser::parser_inv(old(packet_parser)@),
        ensures
            final(cursor).wf(),
            final(cursor).bytes@ == old(cursor).bytes@,
            final(cursor).bit_size == old(cursor).bit_size,
            final(cursor).bit_pos >= old(cursor).bit_pos,
            crate::parser::parser_inv(final(packet_parser)@),
            crate::parser::same_but_cache(final(packet_parser)@, old(packet_parser)@),
            ({
                let ge = guid_exports_spec(
                    old(cursor).bytes@,
                    old(cursor).bit_size as int,
                    old(cursor).bit_pos as int,
                    old(packet_parser)@.cache,
                );
                &&& final(packet_parser)@.cache == ge.0
                &&& (match ge.1 {
                    Err(e) => r matches Err(re) && re == e,
                    Ok(pp) => r is Ok && final(cursor).bit_pos == pp,
                })
            }),
    {
        let ghost data = old(cursor).bytes@;
        let ghost size = old(cursor).bit_size as int;
        let num_guids = match cursor.read_int_packed() {
            Ok(v) => v,
            Err(e) => {
                return Err(e);
            },
        };
        let ghost p_g = cursor.bit_pos as int;
        let mut g: u32 = 0;
        while g < num_guids
            invariant
                cursor.wf(),
                cursor.bytes@ == data,
                cursor.bit_size == size,
                data == old(cursor).bytes@,
                size == old(cursor).bit_size as int,
                g <= num_guids,
                cursor.bit_pos >= old(cursor).bit_pos,
                crate::parser::parser_inv(packet_parser@),
                crate::parser::same_but_cache(packet_parser@, old(packet_parser)@),
                guid_exports_spec(data, size, old(cursor).bit_pos as int, old(packet_parser)@.cache)
                    == guid_exports_rec(
                    data,
                    size,
                    cursor.bit_pos as int,
                    packet_parser@.cache,
                    num_guids - g,
                ),
            decreases num_guids - g,
        {
            match Self::read_one_guid_export(cursor, packet_parser) {
                Ok(_) => {},
                Err(e) => {
                    return Err(e);
                },
            };
            g = g + 1;
        }
        Ok(())
    }

    /// Reads one guid-export record and feeds the session cache.
    #[verifier::rlimit(100)]
    #[verifier::spinoff_prover]
    fn read_one_guid_export(cursor: &mut BitReader, packet_parser: &mut PacketParser) -> (r:
        Result<(), UeError>)
        requires
            old(cursor).wf(),
            crate::parser::parser_inv(old(packet_parser)@),
        ensures
            final(cursor).wf(),
            final(cursor).bytes@ == old(cursor).bytes@,
            final(cursor).bit_size == old(cursor).bit_size,
            final(cursor).bit_pos >= old(cursor).bit_pos,
            crate::parser::parser_inv(final(packet_parser)@),
            crate::parser::same_but_cache(final(packet_parser)@, old(packet_parser)@),
            ({
                let one = guid_export_one_spec(
                    old(cursor).bytes@,
                    old(cursor).bit_size as int,
                    old(cursor).bit_pos as int,
                    old(packet_parser)@.cache,
                );
                &&& final(packet_parser)@.cache == one.0
                &&& (match one.1 {
                    Err(e) => r matches Err(re) && re == e,
                    Ok(pp) => r is Ok && final(cursor).bit_pos == pp,
                })
            }),
    {
        proof {
            reveal(guid_export_one_spec);
        }
        let size_raw = match cursor.read_u32() {
            Ok(v) => v,
            Err(e) => {
                return Err(e);
            },
        };
        if size_raw >= 0x8000_0000 {
            return Err(UeError::MalformedPacket);
        }
        let blob = match read_bytes_vec(cursor, size_raw) {
            Ok(v) => v,
            Err(e) => {
                return Err(e);
            },
        };
        let total: usize = blob.len() * 8;
        let mut inner = BitReader::new(blob.as_slice(), total);
        let ghost st_c = packet_parser@;
        match packet_parser.load_internal_object(&mut inner, true, 0) {
            Ok(_) => {},
            Err(e) => {
                return Err(e);
            },
        };
        proof {
            crate::guid::lemma_lio_export_valid(blob@, total as int, 0, true, 0);
        }
        Ok(())
    }

    /// Skips the frame's streaming-level names, external data and
    /// game-specific data.
    #[verifier::rlimit(100)]
    #[verifier::spinoff_prover]
    fn skip_frame_middle(cursor: &mut BitReader) -> (r: Result<(), UeError>)
        requires
            old(cursor).wf(),
        ensures
            final(cursor).wf(),
            final(cursor).bytes@ == old(cursor).bytes@,
            final(cursor).bit_size == old(cursor).bit_size,
            final(cursor).bit_pos >= old(cursor).bit_pos,
            ({
                let spec_r = middle_spec(
                    old(cursor).bytes@,
                    old(cursor).bit_size as int,
                    old(cursor).bit_pos as int,
                );
                match spec_r {
                    Err(e) => r matches Err(re) && re == e,
                    Ok(pp) => r is Ok && final(cursor).bit_pos == pp,
                }
            }),
    {
        proof {
            reveal(middle_spec);
        }
        match Self::skip_level_names(cursor) {
            Ok(_) => {},
            Err(e) => {
                return Err(e);
            },
        };
        match cursor.read_u32() {
            Ok(_) => {},
            Err(e) => {
                return Err(e);
            },
        };
        match cursor.read_u32() {
            Ok(_) => {},
            Err(e) => {
                return Err(e);
            },
        };
        match Self::skip_external_data(cursor) {
            Ok(_) => {},
            Err(e) => {
                return Err(e);
            },
        };
        let game_lo = match cursor.read_u32() {
            Ok(v) => v,
            Err(e) => {
                return Err(e);
            },
        };
        let game_hi = match cursor.read_u32() {
            Ok(v) => v,
            Err(e) => {
                return Err(e);
            },
        };
        skip_bytes_u64(cursor, game_lo, game_hi)
    }

    /// Skips the frame's streaming-level names: a varint count, then that
    /// many discarded strings.
    #[verifier::rlimit(100)]
    #[verifier::spinoff_prover]
    fn skip_level_names(cursor: &mut BitReader) -> (r: Result<(), UeError>)
        requires
            old(cursor).wf(),
        ensures
            final(cursor).wf(),
            final(cursor).bytes@ == old(cursor).bytes@,
            final(cursor).bit_size == old(cursor).bit_size,
            final(cursor).bit_pos >= old(cursor).bit_pos,
            ({
                let spec_r = levels_spec(
                    old(cursor).bytes@,
                    old(cursor).bit_size as int,
                    old(cursor).bit_pos as int,
                );
                match spec_r {
                    Err(e) => r matches Err(re) && re == e,
                    Ok(pp) => r is Ok && final(cursor).bit_pos == pp,
                }
            }),
    {
        proof {
            reveal(levels_spec);
        }
        let ghost data = old(cursor).bytes@;
        let ghost size = old(cursor).bit_size as int;
        let num_levels = match cursor.read_int_packed() {
            Ok(v) => v,
            Err(e) => {
                return Err(e);
            },
        };
        let ghost p_l = cursor.bit_pos as int;
        let mut s: u32 = 0;
        while s < num_levels
            invariant
                cursor.wf(),
                cursor.bytes@ == data,
                cursor.bit_size == size,
                data == old(cursor).bytes@,
                size == old(cursor).bit_size as int,
                s <= num_levels,
                cursor.bit_pos >= old(cursor).bit_pos,
                levels_spec(data, size, old(cursor).bit_pos as int) == levels_rec(
                    data,
                    size,
                    p_l,
                    num_levels as int,
                ),
                levels_rec(data, size, p_l, num_levels as int) == levels_rec(
                    data,
                    size,
                    cursor.bit_pos as int,
                    num_levels - s,
                ),
            decreases num_levels - s,
        {
            match cursor.read_fstring() {
                Ok(_) => {},
                Err(e) => {
                    return Err(e);
                },
            };
            s = s + 1;
        }
        Ok(())
    }

    /// Skips the frame's external-data records: a varint bit count per
    /// record, zero ending the run.
    fn skip_external_data(cursor: &mut BitReader) -> (r: Result<(), UeError>)
        requires
            old(cursor).wf(),
        ensures
            final(cursor).wf(),
            final(cursor).bytes@ == old(cursor).bytes@,
            final(cursor).bit_size == old(cursor).bit_size,
            final(cursor).bit_pos >= old(cursor).bit_pos,
            ({
                let spec_r = external_rec(
                    old(cursor).bytes@,
                    old(cursor).bit_size as int,
                    old(cursor).bit_pos as int,
                );
                match spec_r {
                    Err(e) => r matches Err(re) && re == e,
                    Ok(pp) => r is Ok && final(cursor).bit_pos == pp,
                }
            }),
    {
        let ghost data = old(cursor).bytes@;
        let ghost size = old(cursor).bit_size as int;
        loop
            invariant
                cursor.wf(),
                cursor.bytes@ == data,
                cursor.bit_size == size,
                data == old(cursor).bytes@,
                size == old(cursor).bit_size as int,
                cursor.bit_pos >= old(cursor).bit_pos,
                external_rec(data, size, old(cursor).bit_pos as int) == external_rec(
                    data,
                    size,
                    cursor.bit_pos as int,
                ),
            decreases cursor.bit_size - cursor.bit_pos,
        {
            let ghost pos_before = cursor.bit_pos;
            let done = match Self::skip_one_external(cursor) {
                Ok(v) => v,
                Err(e) => {
                    return Err(e);
                },
            };
            if done {
                return Ok(());
            }
        }
    }

    /// Skips one external-data record; reports whether it ended the run.
    #[verifier::rlimit(100)]
    #[verifier::spinoff_prover]
    fn skip_one_external(cursor: &mut BitReader) -> (r: Result<bool, UeError>)
        requires
            old(cursor).wf(),
        ensures
            final(cursor).wf(),
            final(cursor).bytes@ == old(cursor).bytes@,
            final(cursor).bit_size == old(cursor).bit_size,
            final(cursor).bit_pos >= old(cursor).bit_pos,
            ({
                let spec_r = external_one_spec(
                    old(cursor).bytes@,
                    old(cursor).bit_size as int,
                    old(cursor).bit_pos as int,
                );
                match spec_r {
                    Err(e) => r matches Err(re) && re == e,
                    Ok((done, pp)) => r matches Ok(rd) && rd == done && final(cursor).bit_pos
                        == pp,
                }
            }),
            r is Ok ==> final(cursor).bit_pos > old(cursor).bit_pos,
    {
        proof {
            reveal(external_one_spec);
        }
        let ghost pos_before = cursor.bit_pos;
        let external_data_num_bits = match cursor.read_int_packed() {
            Ok(v) => v,
            Err(e) => {
                return Err(e);
            },
        };
        proof {
            crate::codec::lemma_varint_consumes(
                tail_bytes(old(cursor).bytes@, pos_before as int, old(cursor).bit_size as int),
            );
        }
        if external_data_num_bits == 0 {
            return Ok(true);
        }
        match cursor.read_int_packed() {
            Ok(_) => {},
            Err(e) => {
                return Err(e);
            },
        };
        let nbytes = external_data_num_bits / 8 + if external_data_num_bits % 8 != 0 {
            1u32
        } else {
            0u32
        };
        match read_bytes_vec(cursor, nbytes) {
            Ok(_) => {},
            Err(e) => {
                return Err(e);
            },
        };
        Ok(false)
    }

    /// Reads the frame's playback packets, handing each one to the packet
    /// parser as it arrives; a zero or negative size ends the stream with
    /// the terminal `End` packet.
    #[verifier::rlimit(100)]
    #[verifier::spinoff_prover]
    fn read_frame_packets(cursor: &mut BitReader, packet_parser: &mut PacketParser) -> (r: Result<
        Vec<PlaybackPacket>,
        UeError,
    >)
        requires
            old(cursor).wf(),
            crate::parser::parser_inv(old(packet_parser)@),
        ensures
            final(cursor).wf(),
            final(cursor).bytes@ == old(cursor).bytes@,
            final(cursor).bit_size == old(cursor).bit_size,
            final(cursor).bit_pos >= old(cursor).bit_pos,
            crate::parser::parser_inv(final(packet_parser)@),
            ({
                let pk = packets_rec(
                    old(cursor).bytes@,
                    old(cursor).bit_size as int,
                    old(cursor).bit_pos as int,
                    old(packet_parser)@,
                );
                &&& final(packet_parser)@ == pk.0
                &&& (match pk.1 {
                    Err(e) => r matches Err(re) && re == e,
                    Ok((ps, pp)) => r matches Ok(v) && packets_view(v@) == ps
                        && final(cursor).bit_pos == pp,
                })
            }),
    {
        let ghost data = old(cursor).bytes@;
        let ghost size = old(cursor).bit_size as int;
        let ghost pos0 = old(cursor).bit_pos as int;
        let ghost st0 = old(packet_parser)@;
        let mut packets: Vec<PlaybackPacket> = Vec::new();
        loop
            invariant
                cursor.wf(),
                cursor.bytes@ == data,
                cursor.bit_size == size,
                data == old(cursor).bytes@,
                size == old(cursor).bit_size as int,
                pos0 == old(cursor).bit_pos as int,
                st0 == old(packet_parser)@,
                cursor.bit_pos >= old(cursor).bit_pos,
                crate::parser::parser_inv(packet_parser@),
                packets_rec(data, size, pos0, st0) == prepend_packets(
                    packets_view(packets@),
                    packets_rec(data, size, cursor.bit_pos as int, packet_parser@),
                ),
            decreases cursor.bit_size - cursor.bit_pos,
        {
            let ghost cur = cursor.bit_pos as int;
            let ghost st_c = packet_parser@;
            let ghost packets0 = packets@;
            let step = match Self::read_one_packet(cursor, packet_parser) {
                Ok(v) => v,
                Err(e) => {
                    return Err(e);
                },
            };
            let (packet, done) = step;
            let ghost pv = packet@;
            packets.push(packet);
            proof {
                assert(packets_view(packets@) =~= packets_view(packets0).push(pv));
            }
            if done {
                proof {
                    let rest = packets_rec(data, size, cur, st_c);
                    assert(rest.1 matches Ok(p) && p.0 =~= seq![pv]);
                    assert(packets_view(packets0) + seq![pv] =~= packets_view(packets@));
                }
                return Ok(packets);
            }
            proof {
                let rest2 = packets_rec(data, size, cursor.bit_pos as int, packet_parser@);
                if rest2.1 is Ok {
                    assert(packets_view(packets0) + (seq![pv] + rest2.1->Ok_0.0)
                        =~= packets_view(packets@) + rest2.1->Ok_0.0);
                }
            }
        }
    }

    /// Reads one playback packet and, unless it is the terminal `End`
    /// marker, hands it to the packet parser; reports whether the run
    /// ended.
    #[verifier::rlimit(100)]
    #[verifier::spinoff_prover]
    fn read_one_packet(cursor: &mut BitReader, packet_parser: &mut PacketParser) -> (r: Result<
        (PlaybackPacket, bool),
        UeError,
    >)
        requires
            old(cursor).wf(),
            crate::parser::parser_inv(old(packet_parser)@),
        ensures
            final(cursor).wf(),
            final(cursor).bytes@ == old(cursor).bytes@,
            final(cursor).bit_size == old(cursor).bit_size,
            final(cursor).bit_pos >= old(cursor).bit_pos,
            crate::parser::parser_inv(final(packet_parser)@),
            ({
                let one = packets_one_spec(
                    old(cursor).bytes@,
                    old(cursor).bit_size as int,
                    old(cursor).bit_pos as int,
                    old(packet_parser)@,
                );
                &&& final(packet_parser)@ == one.0
                &&& (match one.1 {
                    Err(e) => r matches Err(re) && re == e,
                    Ok(((pv, done), pp)) => r matches Ok(rp) && rp.0@ == pv && rp.1 == done
                        && final(cursor).bit_pos == pp,
                })
            }),
            r is Ok ==> final(cursor).bit_pos > old(cursor).bit_pos,
    {
        proof {
            reveal(packets_one_spec);
        }
        let ghost pos_before = cursor.bit_pos;
        match cursor.read_int_packed() {
            Ok(_) => {},
            Err(e) => {
                return Err(e);
            },
        };
        proof {
            crate::codec::lemma_varint_consumes(
                tail_bytes(old(cursor).bytes@, pos_before as int, old(cursor).bit_size as int),
            );
        }
        let size_raw = match cursor.read_u32() {
            Ok(v) => v,
            Err(e) => {
                return Err(e);
            },
        };
        if size_raw == 0 || size_raw >= 0x8000_0000 {
            return Ok((PlaybackPacket { state: PacketState::End, data: Vec::new() }, true));
        }
        let data = match read_bytes_vec(cursor, size_raw) {
            Ok(v) => v,
            Err(e) => {
                return Err(e);
            },
        };
        let packet = PlaybackPacket { state: PacketState::Success, data };
        if packet_parser.packet_index == i32::MAX {
            return Err(UeError::MalformedPacket);
        }
        if packet.data.len() > usize::MAX / 8 {
            return Err(UeError::MalformedPacket);
        }
        match packet_parser.received_raw_packet(&packet) {
            Ok(_) => {},
            Err(e) => {
                return Err(e);
            },
        };
        Ok((packet, false))
    }

    /// Splits a whole decompressed data-chunk payload into demo frames,
    /// in order, until it is exhausted. A failed frame aborts the chunk's
    /// remaining frames; the session state the completed frames built
    /// stands, exactly as the frame walk states.
    #[verifier::rlimit(100)]
    #[verifier::spinoff_prover]
    pub fn parse_data(data_chunk: &crate::chunks::DataChunk, packet_parser: &mut PacketParser) -> (r:
        Result<Vec<DemoFrame>, UeError>)
        requires
            crate::parser::parser_inv(old(packet_parser)@),
            data_chunk.data@.len() * 8 <= usize::MAX,
        ensures
            crate::parser::parser_inv(final(packet_parser)@),
            ({
                let w = frames_rec(
                    data_chunk.data@,
                    (data_chunk.data@.len() as int) * 8,
                    0,
                    old(packet_parser)@,
                );
                &&& final(packet_parser)@ == w.0
                &&& (match w.1 {
                    Err(e) => r matches Err(re) && re == e,
                    Ok(fs) => r matches Ok(v) && frames_view(v@) == fs,
                })
            }),
    {
        let ghost data = data_chunk.data@;
        let ghost st0 = old(packet_parser)@;
        let total: usize = data_chunk.data.len() * 8;
        let mut cursor = BitReader::new(data_chunk.data.as_slice(), total);
        let mut frames: Vec<DemoFrame> = Vec::new();
        proof {
            assert(prepend_frames(
                frames_view(frames@),
                frames_rec(data, total as int, 0, st0),
            ) == frames_rec(data, total as int, 0, st0));
        }
        while cursor.bit_pos < cursor.bit_size
            invariant
                cursor.wf(),
                cursor.bytes@ == data,
                cursor.bit_size == total,
                data == data_chunk.data@,
                total == data.len() * 8,
                st0 == old(packet_parser)@,
                crate::parser::parser_inv(packet_parser@),
                frames_rec(data, total as int, 0, st0) == prepend_frames(
                    frames_view(frames@),
                    frames_rec(data, total as int, cursor.bit_pos as int, packet_parser@),
                ),
            decreases cursor.bit_size - cursor.bit_pos,
        {
            let ghost cur = cursor.bit_pos as int;
            let ghost st_c = packet_parser@;
            let ghost frames0 = frames@;
            let f = match Self::parse(&mut cursor, packet_parser) {
                Ok(v) => v,
                Err(e) => {
                    return Err(e);
                },
            };
            let ghost fv = f@;
            frames.push(f);
            proof {
                assert(frames_view(frames@) =~= frames_view(frames0).push(fv));
                let rest2 = frames_rec(data, total as int, cursor.bit_pos as int, packet_parser@);
                if rest2.1 is Ok {
                    assert(frames_view(frames0) + (seq![fv] + rest2.1->Ok_0)
                        =~= frames_view(frames@) + rest2.1->Ok_0);
                }
            }
        }
        proof {
            assert(frames_view(frames@) + Seq::<FrameV>::empty() =~= frames_view(frames@));
        }
        Ok(frames)
    }
}

/// A frame walk with `prefix` already collected in front of it.
pub open spec fn prepend_frames(
    prefix: Seq<FrameV>,
    pair: (crate::parser::ParserV, Result<Seq<FrameV>, UeError>),
) -> (crate::parser::ParserV, Result<Seq<FrameV>, UeError>) {
    (
        pair.0,
        match pair.1 {
            Err(e) => Err(e),
            Ok(fs) => Ok(prefix + fs),
        },
    )
}

/// Reads exactly `n` whole bytes from the cursor into a fresh vector.
fn read_bytes_vec(cursor: &mut BitReader, n: u32) -> (r: Result<Vec<u8>, UeError>)
    requires
        old(cursor).wf(),
    ensures
        final(cursor).wf(),
        final(cursor).bytes@ == old(cursor).bytes@,
        final(cursor).bit_size == old(cursor).bit_size,
        final(cursor).bit_pos >= old(cursor).bit_pos,
        r matches Ok(v) ==> v@ == crate::bitstream::s_bytes(
            old(cursor).stream(),
            old(cursor).bit_pos as int,
            n as int,
        ) && final(cursor).bit_pos == old(cursor).bit_pos + 8 * n,
        r is Ok <==> old(cursor).bit_pos + 8 * n <= old(cursor).bit_size,
        r is Err ==> (r matches Err(re) && re == UeError::ReadPastEnd),
    {
    let mut out: Vec<u8> = Vec::new();
    let mut k: u32 = 0;
    while k < n
        invariant
            cursor.wf(),
            cursor.bytes@ == old(cursor).bytes@,
            cursor.bit_size == old(cursor).bit_size,
            k <= n,
            cursor.bit_pos == old(cursor).bit_pos + 8 * k,
            out@.len() == k as int,
            forall|t: int|
                0 <= t < k ==> out@[t] == crate::bitstream::s_byte(
                    cursor.bytes@,
                    old(cursor).bit_pos + 8 * t,
                ),
        decreases n - k,
    {
        let b = match cursor.read_byte() {
            Ok(v) => v,
            Err(_) => {
                return Err(UeError::ReadPastEnd);
            },
        };
        out.push(b);
        k = k + 1;
    }
    proof {
        assert(out@ =~= crate::bitstream::s_bytes(
            old(cursor).stream(),
            old(cursor).bit_pos as int,
            n as int,
        ));
    }
    Ok(out)
}

/// Skips `lo + 2^32 * hi` bytes of game-specific data.
fn skip_bytes_u64(cursor: &mut BitReader, lo: u32, hi: u32) -> (r: Result<(), UeError>)
    requires
        old(cursor).wf(),
    ensures
        final(cursor).wf(),
        final(cursor).bytes@ == old(cursor).bytes@,
        final(cursor).bit_size == old(cursor).bit_size,
        final(cursor).bit_pos >= old(cursor).bit_pos,
        ({
            let cnt = lo + 0x1_0000_0000int * hi;
            let pos = old(cursor).bit_pos as int;
            let size = old(cursor).bit_size as int;
            if pos + 8 * cnt > size {
                r matches Err(re) && re == UeError::ReadPastEnd
            } else {
                r is Ok && final(cursor).bit_pos == pos + 8 * cnt
            }
        }),
    {
    let cnt: u64 = (lo as u64) + 0x1_0000_0000u64 * (hi as u64);
    proof {
        let pos = old(cursor).bit_pos as int;
        let size = old(cursor).bit_size as int;
        let d = size - pos;
        assert((d / 8 < cnt) <==> (pos + 8 * cnt > size)) by (nonlinear_arith)
            requires
                d >= 0,
                d == size - pos,
                cnt >= 0,
        ;
    }
    if ((cursor.bit_size - cursor.bit_pos) as u64) / 8 < cnt {
        return Err(UeError::ReadPastEnd);
    }
    let mut k: u64 = 0;
    while k < cnt
        invariant
            cursor.wf(),
            cursor.bytes@ == old(cursor).bytes@,
            cursor.bit_size == old(cursor).bit_size,
            k <= cnt,
            cursor.bit_pos == old(cursor).bit_pos + 8 * k,
            old(cursor).bit_pos + 8 * cnt <= cursor.bit_size,
        decreases cnt - k,
    {
        match cursor.read_byte() {
            Ok(_) => {},
            Err(e) => {
                return Err(e);
            },
        };
        k = k + 1;
    }
    Ok(())
}

} // verus!
