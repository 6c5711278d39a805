//! The per-session packet parser: bunch sequencing, partial-bunch
//! reassembly, channel lifecycle and actor-bunch processing. The whole
//! transition a bunch causes is a mathematical function of the parser's
//! state; the executable methods are proved to implement it.

use vstd::prelude::*;

use std::collections::HashMap;

use crate::bitreader::{le_u16, BitReader};
use crate::bitstream::s_bit;
use crate::bunch::{
    bunch_wf, spec_default_actor, Actor, BlockV, BunchV, ContentBlock, DataBunch, NetGuidCache,
    PlaybackPacket, UChannel,
};
use crate::codec::{tail_bytes, varint_spec};
use crate::guid::{lio_spec, load_internal_object, spec_is_dynamic, NetworkGUID};
use crate::vec3::{cond_vector_spec, rotation_spec, FRotator, FVector};
use crate::UeError;

verus! {

/// The channel cap: indices run from 0 to 32766.
pub open spec fn max_channels() -> int {
    32767
}

/// The mathematical state of a packet parser session.
#[verifier::ext_equal]
pub struct ParserV {
    pub packet_index: int,
    pub in_reliable: int,
    pub channels: Map<u32, UChannel>,
    pub partial_bunch: Option<BunchV>,
    pub cache: Map<u32, Seq<char>>,
    pub sequenced: Seq<BunchV>,
    pub content_blocks: Seq<BlockV>,
}

/// Session state: a monotonic packet counter, the highest reliable
/// sequence seen, the sparse channel table, the in-flight partial-bunch
/// accumulator, the GUID cache, and the two materialized outputs: the
/// sequenced bunches and the content blocks they carried.
pub struct PacketParser {
    pub packet_index: i32,
    pub in_reliable: i32,
    pub channels: HashMap<u32, UChannel>,
    pub partial_bunch: Option<DataBunch>,
    pub net_guid_cache: NetGuidCache,
    pub sequenced: Vec<DataBunch>,
    pub content_blocks: Vec<ContentBlock>,
}

impl View for PacketParser {
    type V = ParserV;

    open spec fn view(&self) -> ParserV {
        ParserV {
            packet_index: self.packet_index as int,
            in_reliable: self.in_reliable as int,
            channels: self.channels@,
            partial_bunch: match self.partial_bunch {
                Some(b) => Some(b@),
                None => None,
            },
            cache: self.net_guid_cache@,
            sequenced: Seq::new(self.sequenced@.len(), |i: int| self.sequenced@[i]@),
            content_blocks: Seq::new(
                self.content_blocks@.len(),
                |i: int| self.content_blocks@[i]@,
            ),
        }
    }
}

/// The archetype path that marks a player-controller actor, whose open
/// bunch carries one byte of padding.
pub open spec fn athena_pc_path() -> Seq<char> {
    "BP_ReplayPC_Athena_C"@
}

/// Consumes `n` varints (must-be-mapped guid ids, which are discarded).
pub open spec fn skip_varints(data: Seq<u8>, size: int, pos: int, n: int) -> Result<int, UeError>
    decreases n,
{
    if n <= 0 {
        Ok(pos)
    } else {
        match varint_spec(tail_bytes(data, pos, size)) {
            Err(e) => Err(e),
            Ok((_, m)) => skip_varints(data, size, pos + 8 * m, n - 1),
        }
    }
}

/// Where bunch processing proper starts: past the must-be-mapped guid
/// block when the bunch carries one.
pub open spec fn prologue_spec(data: Seq<u8>, size: int, has_mbm: bool) -> Result<int, UeError> {
    if !has_mbm {
        Ok(0)
    } else if size < 16 {
        Err(UeError::ReadPastEnd)
    } else {
        skip_varints(data, size, 16, le_u16(data, 0) as int)
    }
}

/// The one-byte padding consumed when the actor's archetype resolves to
/// the player-controller path, then the decoded actor ready to install.
pub open spec fn finish_actor_spec(
    data: Seq<u8>,
    size: int,
    pos: int,
    cache: Map<u32, Seq<char>>,
    a: Actor,
) -> Result<(Option<Actor>, int), UeError> {
    if cache.contains_key(a.archetype.0) && cache[a.archetype.0] == athena_pc_path() {
        if pos + 8 > size {
            Err(UeError::ReadPastEnd)
        } else {
            Ok((Some(a), pos + 8))
        }
    } else {
        Ok((Some(a), pos))
    }
}

/// Decodes the actor identity and initial transform of an open actor
/// bunch at bit `pos`. Yields no actor where the reference is dynamic but
/// the stream already ended.
#[verifier::opaque]
pub open spec fn actor_header_spec(
    data: Seq<u8>,
    size: int,
    pos: int,
    cache: Map<u32, Seq<char>>,
) -> Result<(Option<Actor>, int), UeError> {
    match lio_spec(data, size, pos, false, 0) {
        Err(e) => Err(e),
        Ok((g, _, p1)) => {
            if p1 >= size && spec_is_dynamic(g) {
                Ok((None::<Actor>, p1))
            } else if spec_is_dynamic(g) {
                match lio_spec(data, size, p1, false, 0) {
                    Err(e) => Err(e),
                    Ok((arch, _, p2)) => match lio_spec(data, size, p2, false, 0) {
                        Err(e) => Err(e),
                        Ok((lvl, _, p3)) => match cond_vector_spec(
                            data,
                            size,
                            p3,
                            FVector::Exact { x_bits: 0, y_bits: 0, z_bits: 0 },
                        ) {
                            Err(e) => Err(e),
                            Ok((loc, p4)) => {
                                if p4 >= size {
                                    Err(UeError::ReadPastEnd)
                                } else {
                                    let rot_r = if s_bit(data, p4) {
                                        rotation_spec(data, size, p4 + 1)
                                    } else {
                                        Ok((FRotator { pitch: 0, yaw: 0, roll: 0 }, p4 + 1))
                                    };
                                    match rot_r {
                                        Err(e) => Err(e),
                                        Ok((rot, p5)) => match cond_vector_spec(
                                            data,
                                            size,
                                            p5,
                                            FVector::Exact {
                                                x_bits: 0x3F800000,
                                                y_bits: 0x3F800000,
                                                z_bits: 0x3F800000,
                                            },
                                        ) {
                                            Err(e) => Err(e),
                                            Ok((scale, p6)) => match cond_vector_spec(
                                                data,
                                                size,
                                                p6,
                                                FVector::Exact { x_bits: 0, y_bits: 0, z_bits: 0 },
                                            ) {
                                                Err(e) => Err(e),
                                                Ok((vel, p7)) => finish_actor_spec(
                                                    data,
                                                    size,
                                                    p7,
                                                    cache,
                                                    Actor {
                                                        actor_net_guid: NetworkGUID(g),
                                                        archetype: NetworkGUID(arch),
                                                        level: NetworkGUID(lvl),
                                                        location: loc,
                                                        rotation: rot,
                                                        scale: scale,
                                                        velocity: vel,
                                                    },
                                                ),
                                            },
                                        },
                                    }
                                }
                            },
                        },
                    },
                }
            } else {
                finish_actor_spec(
                    data,
                    size,
                    p1,
                    cache,
                    Actor { actor_net_guid: NetworkGUID(g), ..spec_default_actor() },
                )
            }
        },
    }
}

/// Decodes one content-block header at bit `pos`: the replicated
/// sub-object it addresses, whether the object was deleted, and where the
/// header ends.
#[verifier::opaque]
pub open spec fn header_spec(data: Seq<u8>, size: int, pos: int, actor: Actor) -> Result<
    (u32, bool, int),
    UeError,
> {
    if pos + 2 > size {
        Err(UeError::ReadPastEnd)
    } else {
        let is_actor = s_bit(data, pos + 1);
        if is_actor {
            let rep = if actor.archetype.0 != 0 {
                actor.archetype.0
            } else {
                actor.actor_net_guid.0
            };
            Ok((rep, false, pos + 2))
        } else {
            match lio_spec(data, size, pos + 2, false, 0) {
                Err(e) => Err(e),
                Ok((g, _, p1)) => {
                    if p1 >= size {
                        Err(UeError::ReadPastEnd)
                    } else if s_bit(data, p1) {
                        Ok((g, false, p1 + 1))
                    } else {
                        match lio_spec(data, size, p1 + 1, false, 0) {
                            Err(e) => Err(e),
                            Ok((cg, _, p2)) => Ok((cg, cg == 0, p2)),
                        }
                    }
                },
            }
        }
    }
}

/// Decodes one content block at bit `pos` as the executable reader does:
/// the header, then — for a live object — the payload bit count and
/// payload chunks.
#[verifier::opaque]
pub open spec fn payload_spec(data: Seq<u8>, size: int, pos: int, actor: Actor) -> Result<
    ((u32, Option<(Seq<u8>, u32)>), int),
    UeError,
> {
    match header_spec(data, size, pos, actor) {
        Err(e) => Err(e),
        Ok((rep, deleted, p1)) => {
            if deleted {
                Ok(((rep, None::<(Seq<u8>, u32)>), p1))
            } else {
                match varint_spec(tail_bytes(data, p1, size)) {
                    Err(e) => Err(e),
                    Ok((nbits, n)) => {
                        let p2 = p1 + 8 * n;
                        if p2 + nbits > size {
                            Err(UeError::ReadPastEnd)
                        } else {
                            Ok(
                                (
                                    (
                                        rep,
                                        Some(
                                            (
                                                crate::bitreader::read_bits_spec(
                                                    data,
                                                    p2,
                                                    nbits as int,
                                                ),
                                                nbits,
                                            ),
                                        ),
                                    ),
                                    p2 + nbits,
                                ),
                            )
                        }
                    },
                }
            }
        },
    }
}

/// One content block as the sequencer sees it: deleted objects, the null
/// object and empty payloads consume the stream but emit nothing.
pub open spec fn block_spec(data: Seq<u8>, size: int, pos: int, actor: Actor) -> Result<
    (Option<BlockV>, int),
    UeError,
> {
    match payload_spec(data, size, pos, actor) {
        Err(e) => Err(e),
        Ok(((rep, opt), p)) => Ok(
            (
                match opt {
                    None => None::<BlockV>,
                    Some((bits, nb)) => if rep == 0 || nb == 0 {
                        None::<BlockV>
                    } else {
                        Some(BlockV { rep_object: rep, payload: bits, payload_bit_size: nb })
                    },
                },
                p,
            ),
        ),
    }
}

/// The content blocks emitted from bit `pos` to the end of the payload.
/// A failed block ends the run; what was emitted before it stands.
pub open spec fn blocks_rec(data: Seq<u8>, size: int, pos: int, actor: Actor) -> Seq<BlockV>
    decreases size - pos,
{
    if pos >= size {
        Seq::empty()
    } else {
        match block_spec(data, size, pos, actor) {
            Err(_) => Seq::empty(),
            Ok((ob, p2)) => {
                let head = match ob {
                    Some(bl) => seq![bl],
                    None => Seq::<BlockV>::empty(),
                };
                if pos < p2 <= size {
                    head + blocks_rec(data, size, p2, actor)
                } else {
                    head
                }
            },
        }
    }
}

/// What the content phase of bunch processing does, from bit `p0` on:
/// the channel's actor, decoded and installed where the bunch opens the
/// channel, and the content blocks emitted.
pub open spec fn process_body_spec(
    b: BunchV,
    cache: Map<u32, Seq<char>>,
    actor0: Option<Actor>,
    p0: int,
) -> (Option<Actor>, Seq<BlockV>) {
    let data = b.data;
    let size = b.data_bit_size;
    match actor0 {
        Some(a) => (actor0, blocks_rec(data, size, p0, a)),
        None => if !b.b_open {
            (actor0, Seq::<BlockV>::empty())
        } else {
            match actor_header_spec(data, size, p0, cache) {
                Err(_) => (actor0, Seq::<BlockV>::empty()),
                Ok((None, _)) => (actor0, Seq::<BlockV>::empty()),
                Ok((Some(a), p1)) => (Some(a), blocks_rec(data, size, p1, a)),
            }
        },
    }
}

/// What processing a sequenced bunch does to its channel's actor and what
/// content blocks it emits. A failed read ends processing; effects up to
/// it stand, and the GUID cache is never touched.
#[verifier::opaque]
pub open spec fn process_spec(b: BunchV, cache: Map<u32, Seq<char>>, actor0: Option<Actor>) -> (
    Option<Actor>,
    Seq<BlockV>,
) {
    match prologue_spec(b.data, b.data_bit_size, b.b_has_must_be_mapped_guids) {
        Err(_) => (actor0, Seq::<BlockV>::empty()),
        Ok(p0) => process_body_spec(b, cache, actor0, p0),
    }
}

/// Emission of a sequenced bunch: its channel's actor is processed, the
/// bunch is recorded, and a close tears the channel down.
#[verifier::opaque]
pub open spec fn emit_step(st: ParserV, b: BunchV) -> ParserV {
    let st1 = if st.channels.contains_key(b.ch_index) {
        let chan = st.channels[b.ch_index];
        let pr = process_spec(b, st.cache, chan.actor);
        ParserV {
            channels: st.channels.insert(
                b.ch_index,
                UChannel { name: chan.name, index: chan.index, actor: pr.0 },
            ),
            content_blocks: st.content_blocks + pr.1,
            ..st
        }
    } else {
        st
    };
    let st2 = ParserV { sequenced: st1.sequenced.push(b), ..st1 };
    if b.b_close {
        ParserV { channels: st2.channels.remove(b.ch_index), ..st2 }
    } else {
        st2
    }
}

/// The partial-bunch reassembly step: reliable gate update, accumulator
/// lifecycle, and emission of completed bunches.
#[verifier::opaque]
pub open spec fn rnb_step(st: ParserV, b: BunchV) -> ParserV {
    let st1 = if b.b_is_reliable {
        ParserV { in_reliable: b.ch_seq, ..st }
    } else {
        st
    };
    if b.b_partial {
        if b.b_partial_initial {
            if st1.partial_bunch matches Some(pb) && !pb.b_partial_final && pb.b_is_reliable {
                st1
            } else {
                ParserV { partial_bunch: Some(b), ..st1 }
            }
        } else {
            match st1.partial_bunch {
                None => emit_step(st1, b),
                Some(pb) => {
                    let reliable_match = b.ch_seq == pb.ch_seq + 1;
                    let unreliable_match = reliable_match || b.ch_seq == pb.ch_seq;
                    let seq_ok = if pb.b_is_reliable {
                        reliable_match
                    } else {
                        unreliable_match
                    };
                    if !pb.b_partial_final && seq_ok && pb.b_is_reliable == b.b_is_reliable {
                        let grows = !b.b_has_package_map_exports && b.data.len() > 0;
                        if grows && pb.data_bit_size + b.data_bit_size > usize::MAX {
                            ParserV { partial_bunch: None::<BunchV>, ..st1 }
                        } else {
                            let pb1 = if grows {
                                BunchV {
                                    data: pb.data + b.data,
                                    data_bit_size: pb.data_bit_size + b.data_bit_size,
                                    ..pb
                                }
                            } else {
                                pb
                            };
                            if !b.b_has_package_map_exports && !b.b_partial_final
                                && b.data_bit_size % 8 != 0 {
                                ParserV { partial_bunch: None::<BunchV>, ..st1 }
                            } else {
                                let pb2 = BunchV { ch_seq: b.ch_seq, ..pb1 };
                                if b.b_partial_final {
                                    if b.b_has_package_map_exports {
                                        ParserV { partial_bunch: None::<BunchV>, ..st1 }
                                    } else {
                                        let done = BunchV {
                                            b_partial_final: true,
                                            b_close: b.b_close,
                                            b_dormant: b.b_dormant,
                                            close_reason: b.close_reason,
                                            b_is_replication_paused: b.b_is_replication_paused,
                                            b_has_must_be_mapped_guids:
                                                b.b_has_must_be_mapped_guids,
                                            ..pb2
                                        };
                                        emit_step(
                                            ParserV { partial_bunch: None::<BunchV>, ..st1 },
                                            done,
                                        )
                                    }
                                } else {
                                    ParserV { partial_bunch: Some(pb2), ..st1 }
                                }
                            }
                        }
                    } else {
                        st1
                    }
                },
            }
        }
    } else {
        emit_step(st1, b)
    }
}

/// The whole transition one framed bunch causes: replayed reliable
/// sequences and unexpected bunches for absent channels are dropped, the
/// channel is created where needed, and reassembly proceeds.
#[verifier::opaque]
pub open spec fn seq_step(st: ParserV, b: BunchV) -> ParserV {
    if b.b_is_reliable && b.ch_seq <= st.in_reliable {
        st
    } else if !st.channels.contains_key(b.ch_index) && !b.b_is_reliable && !(b.b_open && (b.b_close
        || b.b_partial)) {
        st
    } else {
        let st1 = if !st.channels.contains_key(b.ch_index) {
            ParserV {
                channels: st.channels.insert(
                    b.ch_index,
                    UChannel { name: b.ch_name, index: b.ch_index, actor: None::<Actor> },
                ),
                ..st
            }
        } else {
            st
        };
        rnb_step(st1, b)
    }
}

/// A bunch as the packet framer hands it over: payload consistent with
/// its bit size, channel index under the cap, bit size under the per-wire
/// bunch bound.
pub open spec fn framed_bunch_wf(b: BunchV) -> bool {
    &&& bunch_wf(b)
    &&& b.ch_index < max_channels()
    &&& b.data_bit_size < 16384
}

/// What every reachable parser state satisfies: channel indices under the
/// cap, only valid guids in the cache, every sequenced bunch well formed
/// with its index under the cap and — for bunches that were never part of
/// a partial chain — its bit size under the per-wire bound, and a well
/// formed accumulator.
pub open spec fn parser_inv(st: ParserV) -> bool {
    &&& forall|k: u32| st.channels.contains_key(k) ==> k < max_channels()
    &&& forall|g: u32| st.cache.contains_key(g) ==> g > 0
    &&& forall|i: int|
        0 <= i < st.sequenced.len() ==> {
            &&& bunch_wf(#[trigger] st.sequenced[i])
            &&& st.sequenced[i].ch_index < max_channels()
            &&& (!st.sequenced[i].b_partial ==> st.sequenced[i].data_bit_size < 16384)
        }
    &&& (st.partial_bunch matches Some(pb) ==> bunch_wf(pb) && pb.ch_index < max_channels()
        && pb.b_partial)
}


/// Two parser states that agree on everything but the GUID cache.
pub open spec fn same_but_cache(a: ParserV, b: ParserV) -> bool {
    &&& a.packet_index == b.packet_index
    &&& a.in_reliable == b.in_reliable
    &&& a.channels == b.channels
    &&& a.partial_bunch == b.partial_bunch
    &&& a.sequenced == b.sequenced
    &&& a.content_blocks == b.content_blocks
}

impl PacketParser {
    /// A fresh session: no packets seen, no channels, an empty cache.
    pub fn new() -> (r: PacketParser)
        ensures
            r@.packet_index == 0,
            r@.in_reliable == 0,
            r@.channels == Map::<u32, UChannel>::empty(),
            r@.partial_bunch is None,
            r@.cache == Map::<u32, Seq<char>>::empty(),
            r@.sequenced == Seq::<BunchV>::empty(),
            r@.content_blocks == Seq::<BlockV>::empty(),
            parser_inv(r@),
    {
        let r = PacketParser {
            packet_index: 0,
            in_reliable: 0,
            channels: HashMap::new(),
            partial_bunch: None,
            net_guid_cache: NetGuidCache::new(),
            sequenced: Vec::new(),
            content_blocks: Vec::new(),
        };
        proof {
            assert(r@.channels =~= Map::<u32, UChannel>::empty());
            assert(r@.sequenced =~= Seq::<BunchV>::empty());
            assert(r@.content_blocks =~= Seq::<BlockV>::empty());
        }
        r
    }

    /// Decodes an internal object reference and records any exported
    /// `(guid, path)` pair in the session's GUID cache. The cache only
    /// grows, one first-seen entry per guid, each guid valid, and the
    /// recorded path is empty only where the cleaned wire path itself held
    /// no code units.
    pub fn load_internal_object(
        &mut self,
        cursor: &mut BitReader,
        is_exporting_net_guid_bunch: bool,
        load_object_recursion_counter: u32,
    ) -> (r: Result<NetworkGUID, UeError>)
        requires
            old(cursor).wf(),
        ensures
            final(cursor).wf(),
            final(cursor).bytes@ == old(cursor).bytes@,
            final(cursor).bit_size == old(cursor).bit_size,
            final(cursor).bit_pos >= old(cursor).bit_pos,
            same_but_cache(final(self)@, old(self)@),
            ({
                let spec_r = lio_spec(
                    old(cursor).stream(),
                    old(cursor).bit_size as int,
                    old(cursor).bit_pos as int,
                    is_exporting_net_guid_bunch,
                    load_object_recursion_counter as int,
                );
                match spec_r {
                    Err(e) => r matches Err(re) && re == e && final(self)@.cache == old(
                        self,
                    )@.cache,
                    Ok((g, e, pp)) => match e {
                        None => r matches Ok(rg) && rg.0 == g && final(self)@.cache == old(
                            self,
                        )@.cache && final(cursor).bit_pos == pp,
                        Some((eg, em)) => match crate::ustr::ue_str_chars(em) {
                            Some(cs) => r matches Ok(rg) && rg.0 == g && final(self)@.cache
                                == crate::bunch::spec_cache_insert(old(self)@.cache, eg, cs)
                                && eg > 0 && (cs.len() == 0 ==> crate::ustr::ue_str_empty(em))
                                && final(cursor).bit_pos == pp,
                            None => r matches Err(re) && re == crate::ustr::ue_str_error(em)
                                && final(self)@.cache == old(self)@.cache,
                        },
                    },
                }
            }),
    {
        proof {
            crate::guid::lemma_lio_export_valid(
                old(cursor).stream(),
                old(cursor).bit_size as int,
                old(cursor).bit_pos as int,
                is_exporting_net_guid_bunch,
                load_object_recursion_counter as int,
            );
        }
        let (guid, entry) = match load_internal_object(
            cursor,
            is_exporting_net_guid_bunch,
            load_object_recursion_counter,
        ) {
            Ok(v) => v,
            Err(e) => {
                return Err(e);
            },
        };
        match entry {
            Some((eguid, path_units)) => {
                let path = match crate::ustr::ue_str_to_string(&path_units) {
                    Ok(s) => s,
                    Err(e) => {
                        return Err(e);
                    },
                };
                self.net_guid_cache.insert(eguid.0, path);
                Ok(guid)
            },
            None => Ok(guid),
        }
    }

    /// Decodes one content-block header: which replicated sub-object the
    /// block addresses, or that the object was deleted.
    fn read_content_block_header(
        actor: Actor,
        bit_reader: &mut BitReader,
        b_out_has_rep_layout: &mut bool,
        b_object_deleted: &mut bool,
    ) -> (r: Result<u32, UeError>)
        requires
            old(bit_reader).wf(),
        ensures
            final(bit_reader).wf(),
            final(bit_reader).bytes@ == old(bit_reader).bytes@,
            final(bit_reader).bit_size == old(bit_reader).bit_size,
            final(bit_reader).bit_pos >= old(bit_reader).bit_pos,
            ({
                let spec_r = header_spec(
                    old(bit_reader).stream(),
                    old(bit_reader).bit_size as int,
                    old(bit_reader).bit_pos as int,
                    actor,
                );
                match spec_r {
                    Err(e) => r matches Err(re) && re == e,
                    Ok((rep, del, pp)) => r matches Ok(rr) && rr == rep && *final(b_object_deleted)
                        == del && final(bit_reader).bit_pos == pp,
                }
            }),
            r is Ok ==> *final(b_out_has_rep_layout) == s_bit(
                old(bit_reader).stream(),
                old(bit_reader).bit_pos as int,
            ),
            r is Ok ==> final(bit_reader).bit_pos > old(bit_reader).bit_pos,
    {
        proof {
            reveal(header_spec);
        }
        *b_object_deleted = false;
        *b_out_has_rep_layout = match bit_reader.read_bit() {
            Ok(b) => b,
            Err(e) => {
                return Err(e);
            },
        };
        let b_is_actor = match bit_reader.read_bit() {
            Ok(b) => b,
            Err(e) => {
                return Err(e);
            },
        };
        if b_is_actor {
            if actor.archetype.0 != 0 {
                return Ok(actor.archetype.0);
            }
            return Ok(actor.actor_net_guid.0);
        }
        let net_guid = match load_internal_object(bit_reader, false, 0) {
            Ok(v) => v.0,
            Err(e) => {
                return Err(e);
            },
        };
        let b_stably_named = match bit_reader.read_bit() {
            Ok(b) => b,
            Err(e) => {
                return Err(e);
            },
        };
        if b_stably_named {
            return Ok(net_guid.0);
        }
        let class_net_guid = match load_internal_object(bit_reader, false, 0) {
            Ok(v) => v.0,
            Err(e) => {
                return Err(e);
            },
        };
        if !class_net_guid.is_valid() {
            *b_object_deleted = true;
        }
        Ok(class_net_guid.0)
    }

    /// Decodes one content block: its header and, for a live object, its
    /// payload bits and their count.
    fn read_content_block_payload(
        actor: Actor,
        b_object_deleted: &mut bool,
        b_out_has_rep_layout: &mut bool,
        bit_reader: &mut BitReader,
    ) -> (r: Result<(u32, Option<(Vec<u8>, u32)>), UeError>)
        requires
            old(bit_reader).wf(),
        ensures
            final(bit_reader).wf(),
            final(bit_reader).bytes@ == old(bit_reader).bytes@,
            final(bit_reader).bit_size == old(bit_reader).bit_size,
            final(bit_reader).bit_pos >= old(bit_reader).bit_pos,
            ({
                let spec_r = payload_spec(
                    old(bit_reader).stream(),
                    old(bit_reader).bit_size as int,
                    old(bit_reader).bit_pos as int,
                    actor,
                );
                match spec_r {
                    Err(e) => r matches Err(re) && re == e,
                    Ok(((rep, opt), pp)) => {
                        &&& r matches Ok(rr)
                        &&& rr.0 == rep
                        &&& final(bit_reader).bit_pos == pp
                        &&& *final(b_object_deleted) == (opt is None)
                        &&& (match opt {
                            None => rr.1 is None,
                            Some((bits, nb)) => rr.1 matches Some(rb) && rb.0@ == bits && rb.1
                                == nb,
                        })
                    },
                }
            }),
            r is Ok ==> final(bit_reader).bit_pos > old(bit_reader).bit_pos,
    {
        proof {
            reveal(payload_spec);
        }
        let rep_object = match Self::read_content_block_header(
            actor,
            bit_reader,
            b_out_has_rep_layout,
            b_object_deleted,
        ) {
            Ok(v) => v,
            Err(e) => {
                return Err(e);
            },
        };
        if *b_object_deleted {
            return Ok((rep_object, None));
        }
        let num_payload_bits = match bit_reader.read_int_packed() {
            Ok(v) => v,
            Err(e) => {
                return Err(e);
            },
        };
        let bits = match bit_reader.read_bits(num_payload_bits) {
            Ok(v) => v,
            Err(e) => {
                return Err(e);
            },
        };
        Ok((rep_object, Some((bits, num_payload_bits))))
    }
}


/// Re-inserting a channel's own record and appending nothing changes
/// nothing: the stuttering form the processing contract takes when a read
/// fails before any effect.
proof fn lemma_process_stutter(st: ParserV, ch: u32)
    requires
        st.channels.contains_key(ch),
    ensures
        st.channels.insert(
            ch,
            UChannel {
                name: st.channels[ch].name,
                index: st.channels[ch].index,
                actor: st.channels[ch].actor,
            },
        ) == st.channels,
        st.content_blocks + Seq::<BlockV>::empty() == st.content_blocks,
{
    assert(UChannel {
        name: st.channels[ch].name,
        index: st.channels[ch].index,
        actor: st.channels[ch].actor,
    } == st.channels[ch]);
    assert(st.channels.insert(ch, st.channels[ch]) =~= st.channels);
    assert(st.content_blocks + Seq::<BlockV>::empty() =~= st.content_blocks);
}

impl PacketParser {
    /// Decodes the actor identity and initial transform at the cursor,
    /// consulting the cache for the player-controller padding.
    #[verifier::rlimit(100)]
    #[verifier::spinoff_prover]
    fn decode_actor(cache: &NetGuidCache, reader: &mut BitReader) -> (r: Result<
        Option<Actor>,
        UeError,
    >)
        requires
            old(reader).wf(),
        ensures
            final(reader).wf(),
            final(reader).bytes@ == old(reader).bytes@,
            final(reader).bit_size == old(reader).bit_size,
            final(reader).bit_pos >= old(reader).bit_pos,
            ({
                let spec_r = actor_header_spec(
                    old(reader).stream(),
                    old(reader).bit_size as int,
                    old(reader).bit_pos as int,
                    cache@,
                );
                match spec_r {
                    Err(e) => r matches Err(re) && re == e,
                    Ok((oa, pp)) => r matches Ok(ra) && ra == oa && final(reader).bit_pos == pp,
                }
            }),
    {
        proof {
            reveal(actor_header_spec);
        }
        let mut in_actor = Actor::new_default();
        in_actor.actor_net_guid = match load_internal_object(reader, false, 0) {
            Ok(v) => v.0,
            Err(e) => {
                return Err(e);
            },
        };
        if reader.at_end() && in_actor.actor_net_guid.is_dynamic() {
            return Ok(None);
        }
        if in_actor.actor_net_guid.is_dynamic() {
            in_actor.archetype = match load_internal_object(reader, false, 0) {
                Ok(v) => v.0,
                Err(e) => {
                    return Err(e);
                },
            };
            in_actor.level = match load_internal_object(reader, false, 0) {
                Ok(v) => v.0,
                Err(e) => {
                    return Err(e);
                },
            };
            in_actor.location = match reader.read_conditionally_serialized_quantized_vector(
                FVector::zero(),
            ) {
                Ok(v) => v,
                Err(e) => {
                    return Err(e);
                },
            };
            let has_rotation = match reader.read_bit() {
                Ok(v) => v,
                Err(e) => {
                    return Err(e);
                },
            };
            if has_rotation {
                in_actor.rotation = match reader.read_rotation_short() {
                    Ok(v) => v,
                    Err(e) => {
                        return Err(e);
                    },
                };
            } else {
                in_actor.rotation = FRotator { pitch: 0, yaw: 0, roll: 0 };
            }
            in_actor.scale = match reader.read_conditionally_serialized_quantized_vector(
                FVector::one(),
            ) {
                Ok(v) => v,
                Err(e) => {
                    return Err(e);
                },
            };
            in_actor.velocity = match reader.read_conditionally_serialized_quantized_vector(
                FVector::zero(),
            ) {
                Ok(v) => v,
                Err(e) => {
                    return Err(e);
                },
            };
        }
        let needs_padding: bool = {
            let needle: String = "BP_ReplayPC_Athena_C".to_owned();
            match cache.get(in_actor.archetype.0) {
                Some(path) => *path == needle,
                None => false,
            }
        };
        if needs_padding {
            match reader.read_byte() {
                Ok(_) => {},
                Err(e) => {
                    return Err(e);
                },
            };
        }
        Ok(Some(in_actor))
    }

    /// Walks the content blocks from the cursor to the end of the payload,
    /// recording each emitted block. A failed read ends the walk; what was
    /// recorded stands.
    #[verifier::rlimit(100)]
    #[verifier::spinoff_prover]
    fn run_blocks(&mut self, reader: &mut BitReader, actor: Actor) -> (r: Result<(), UeError>)
        requires
            old(reader).wf(),
        ensures
            final(self)@.packet_index == old(self)@.packet_index,
            final(self)@.in_reliable == old(self)@.in_reliable,
            final(self)@.partial_bunch == old(self)@.partial_bunch,
            final(self)@.sequenced == old(self)@.sequenced,
            final(self)@.cache == old(self)@.cache,
            final(self)@.channels == old(self)@.channels,
            final(self)@.content_blocks == old(self)@.content_blocks + blocks_rec(
                old(reader).bytes@,
                old(reader).bit_size as int,
                old(reader).bit_pos as int,
                actor,
            ),
    {
        let ghost data = old(reader).bytes@;
        let ghost size = old(reader).bit_size as int;
        let ghost pos_c = old(reader).bit_pos as int;
        while reader.bit_pos < reader.bit_size
            invariant
                reader.wf(),
                reader.bytes@ == old(reader).bytes@,
                reader.bit_size == old(reader).bit_size,
                data == old(reader).bytes@,
                size == old(reader).bit_size as int,
                pos_c == old(reader).bit_pos as int,
                self@.packet_index == old(self)@.packet_index,
                self@.in_reliable == old(self)@.in_reliable,
                self@.partial_bunch == old(self)@.partial_bunch,
                self@.sequenced == old(self)@.sequenced,
                self@.cache == old(self)@.cache,
                self@.channels == old(self)@.channels,
                old(self)@.content_blocks + blocks_rec(data, size, pos_c, actor)
                    == self@.content_blocks + blocks_rec(
                    data,
                    size,
                    reader.bit_pos as int,
                    actor,
                ),
            decreases reader.bit_size - reader.bit_pos,
        {
            let ghost cur = reader.bit_pos as int;
            let mut b_object_deleted = false;
            let mut b_out_has_rep_layout = false;
            match Self::read_content_block_payload(
                actor,
                &mut b_object_deleted,
                &mut b_out_has_rep_layout,
                reader,
            ) {
                Err(e) => {
                    proof {
                        assert(blocks_rec(data, size, cur, actor) =~= Seq::<BlockV>::empty());
                        assert(self@.content_blocks =~= old(self)@.content_blocks + blocks_rec(
                            data,
                            size,
                            pos_c,
                            actor,
                        ));
                    }
                    return Err(e);
                },
                Ok((rep_object, bit_opt)) => {
                    let ghost p2 = reader.bit_pos as int;
                    proof {
                        assert(block_spec(data, size, cur, actor) matches Ok(bp) && bp.1 == p2);
                    }
                    match bit_opt {
                        None => {
                            proof {
                                assert(blocks_rec(data, size, cur, actor) =~= blocks_rec(
                                    data,
                                    size,
                                    p2,
                                    actor,
                                ));
                            }
                        },
                        Some((bit_vec, bits_size)) => {
                            if rep_object == 0 || bits_size == 0 {
                                proof {
                                    assert(blocks_rec(data, size, cur, actor) =~= blocks_rec(
                                        data,
                                        size,
                                        p2,
                                        actor,
                                    ));
                                }
                            } else {
                                let ghost blocks0 = self@.content_blocks;
                                self.content_blocks.push(
                                    ContentBlock {
                                        rep_object,
                                        payload: bit_vec,
                                        payload_bit_size: bits_size,
                                    },
                                );
                                proof {
                                    assert(self@.content_blocks =~= blocks0 + seq![
                                        block_spec(data, size, cur, actor)->Ok_0.0->Some_0,
                                    ]);
                                    assert(blocks_rec(data, size, cur, actor) =~= seq![
                                        block_spec(data, size, cur, actor)->Ok_0.0->Some_0,
                                    ] + blocks_rec(data, size, p2, actor));
                                }
                            }
                        },
                    }
                },
            }
        }
        proof {
            assert(blocks_rec(data, size, reader.bit_pos as int, actor) =~= Seq::<
                BlockV,
            >::empty());
            assert(self@.content_blocks =~= old(self)@.content_blocks + blocks_rec(
                data,
                size,
                pos_c,
                actor,
            ));
        }
        Ok(())
    }

    /// Processes a sequenced bunch against its channel: decodes and
    /// installs the actor on the channel's first open bunch, then walks the
    /// content blocks. The caller swallows the error; the effects up to a
    /// failed read stand, exactly as the processing function states.
    fn process_bunch<'a>(&mut self, bunch: &'a DataBunch, reader: BitReader<'a>) -> (r: Result<
        (),
        UeError,
    >)
        requires
            reader.wf(),
            reader.bytes@ == bunch@.data,
            reader.bit_size == bunch@.data_bit_size,
        ensures
            final(self)@.packet_index == old(self)@.packet_index,
            final(self)@.in_reliable == old(self)@.in_reliable,
            final(self)@.partial_bunch == old(self)@.partial_bunch,
            final(self)@.sequenced == old(self)@.sequenced,
            final(self)@.cache == old(self)@.cache,
            ({
                let st0 = old(self)@;
                let stf = final(self)@;
                if st0.channels.contains_key(bunch@.ch_index) {
                    let chan = st0.channels[bunch@.ch_index];
                    let pr = process_body_spec(bunch@, st0.cache, chan.actor, reader.bit_pos as int);
                    &&& stf.channels == st0.channels.insert(
                        bunch@.ch_index,
                        UChannel { name: chan.name, index: chan.index, actor: pr.0 },
                    )
                    &&& stf.content_blocks == st0.content_blocks + pr.1
                } else {
                    &&& stf.channels == st0.channels
                    &&& stf.content_blocks == st0.content_blocks
                }
            }),
    {
        let ghost st0 = self@;
        let mut reader = reader;
        let ch = bunch.ch_index;
        let (chan_name, chan_index, actor0) = match self.channels.get(&ch) {
            Some(c) => (c.name, c.index, c.actor),
            None => {
                return Ok(());
            },
        };
        let actor: Actor;
        match actor0 {
            Some(a) => {
                actor = a;
                proof {
                    lemma_process_stutter(st0, ch);
                }
            },
            None => {
                if !bunch.b_open {
                    proof {
                        lemma_process_stutter(st0, ch);
                    }
                    return Ok(());
                }
                let decoded = match Self::decode_actor(&self.net_guid_cache, &mut reader) {
                    Ok(v) => v,
                    Err(e) => {
                        proof {
                            lemma_process_stutter(st0, ch);
                        }
                        return Err(e);
                    },
                };
                let in_actor = match decoded {
                    Some(a) => a,
                    None => {
                        proof {
                            lemma_process_stutter(st0, ch);
                        }
                        return Ok(());
                    },
                };
                self.channels.insert(
                    ch,
                    UChannel { name: chan_name, index: chan_index, actor: Some(in_actor) },
                );
                actor = in_actor;
            },
        }
        let ghost chan0 = st0.channels[ch];
        proof {
            assert(self@.channels =~= st0.channels.insert(
                ch,
                UChannel { name: chan0.name, index: chan0.index, actor: Some(actor) },
            ));
        }
        let r = self.run_blocks(&mut reader, actor);
        match r {
            Ok(_) => Ok(()),
            Err(e) => Err(e),
        }
    }
}


impl PacketParser {
    /// Skips the must-be-mapped guid block and hands the bunch to the
    /// content processor. The caller ignores the error; effects of what
    /// was decoded before a failed read stand.
    #[verifier::rlimit(60)]
    fn received_actor_bunch(&mut self, bunch: &DataBunch) -> (r: Result<(), UeError>)
        requires
            bunch_wf(bunch@),
        ensures
            final(self)@.packet_index == old(self)@.packet_index,
            final(self)@.in_reliable == old(self)@.in_reliable,
            final(self)@.partial_bunch == old(self)@.partial_bunch,
            final(self)@.sequenced == old(self)@.sequenced,
            final(self)@.cache == old(self)@.cache,
            ({
                let st0 = old(self)@;
                let stf = final(self)@;
                if st0.channels.contains_key(bunch@.ch_index) {
                    let chan = st0.channels[bunch@.ch_index];
                    let pr = process_spec(bunch@, st0.cache, chan.actor);
                    &&& stf.channels == st0.channels.insert(
                        bunch@.ch_index,
                        UChannel { name: chan.name, index: chan.index, actor: pr.0 },
                    )
                    &&& stf.content_blocks == st0.content_blocks + pr.1
                } else {
                    &&& stf.channels == st0.channels
                    &&& stf.content_blocks == st0.content_blocks
                }
            }),
    {
        proof {
            reveal(process_spec);
        }
        let ghost st0 = self@;
        let ghost data = bunch@.data;
        let ghost size = bunch@.data_bit_size;
        let mut reader = BitReader::new(bunch.data.as_slice(), bunch.data_bit_size);
        if bunch.b_has_must_be_mapped_guids {
            let guids = match reader.read_u16() {
                Ok(v) => v,
                Err(e) => {
                    proof {
                        if st0.channels.contains_key(bunch@.ch_index) {
                            lemma_process_stutter(st0, bunch@.ch_index);
                        }
                    }
                    return Err(e);
                },
            };
            let mut x: u16 = 0;
            while x < guids
                invariant
                    reader.wf(),
                    reader.bytes@ == data,
                    reader.bit_size == size,
                    x <= guids,
                    self@ == st0,
                    16 <= size,
                    guids == le_u16(data, 0),
                    bunch@.b_has_must_be_mapped_guids,
                    bunch@.data == data,
                    bunch@.data_bit_size == size,
                    skip_varints(data, size, 16, guids as int) == skip_varints(
                        data,
                        size,
                        reader.bit_pos as int,
                        guids - x,
                    ),
                decreases guids - x,
            {
                proof {
                    reveal(process_spec);
                }
                match reader.read_int_packed() {
                    Ok(_) => {},
                    Err(e) => {
                        proof {
                            if st0.channels.contains_key(bunch@.ch_index) {
                                lemma_process_stutter(st0, bunch@.ch_index);
                            }
                        }
                        return Err(e);
                    },
                };
                x = x + 1;
            }
        }
        self.process_bunch(bunch, reader)
    }

    /// Hands a sequenced bunch downstream: processes it against its
    /// channel, records it, and tears the channel down when it closes.
    /// Returns whether the channel was closed.
    fn received_sequenced_bunch(&mut self, bunch: DataBunch) -> (r: Result<bool, UeError>)
        requires
            bunch_wf(bunch@),
        ensures
            final(self)@ == emit_step(old(self)@, bunch@),
            r matches Ok(c) && c == bunch@.b_close,
    {
        proof {
            reveal(emit_step);
        }
        let ghost st0 = self@;
        let _ = self.received_actor_bunch(&bunch);
        let close = bunch.b_close;
        let ch = bunch.ch_index;
        let ghost st1 = self@;
        self.sequenced.push(bunch);
        proof {
            assert(self@.sequenced =~= st1.sequenced.push(bunch@));
            assert(self@ =~= ParserV { sequenced: st1.sequenced.push(bunch@), ..st1 });
        }
        if close {
            let ghost st2 = self@;
            self.channels.remove(&ch);
            proof {
                assert(self@.channels =~= st2.channels.remove(ch));
                assert(self@ =~= emit_step(st0, bunch@));
            }
            Ok(true)
        } else {
            proof {
                assert(self@ =~= emit_step(st0, bunch@));
            }
            Ok(false)
        }
    }
}


impl PacketParser {
    /// The partial-bunch reassembly step: updates the reliable gate,
    /// manages the accumulator, and emits a completed bunch downstream.
    #[verifier::rlimit(100)]
    #[verifier::spinoff_prover]
    fn received_next_bunch(&mut self, bunch: DataBunch) -> (r: Result<(), UeError>)
        requires
            bunch_wf(bunch@),
            old(self)@.partial_bunch matches Some(pb) ==> bunch_wf(pb),
        ensures
            final(self)@ == rnb_step(old(self)@, bunch@),
            r is Ok,
    {
        proof {
            reveal(rnb_step);
        }
        let ghost st_in = self@;
        let ghost b0 = bunch@;
        let mut bunch = bunch;
        if bunch.b_is_reliable {
            self.in_reliable = bunch.ch_seq;
        }
        let ghost st1 = self@;
        if bunch.b_partial {
            if bunch.b_partial_initial {
                let replace: bool = match &self.partial_bunch {
                    Some(pb) => pb.b_partial_final || !pb.b_is_reliable,
                    None => true,
                };
                if replace {
                    self.partial_bunch = Some(bunch);
                    proof {
                        assert(self@ =~= rnb_step(st_in, b0));
                    }
                } else {
                    proof {
                        assert(self@ =~= rnb_step(st_in, b0));
                    }
                }
                return Ok(());
            }
            let mut taken: Option<DataBunch> = None;
            core::mem::swap(&mut self.partial_bunch, &mut taken);
            match taken {
                None => {
                    let c = self.received_sequenced_bunch(bunch);
                    proof {
                        assert(self@ =~= rnb_step(st_in, b0));
                    }
                    return Ok(());
                },
                Some(mut pb) => {
                    let reliable_match = (bunch.ch_seq as i64) == (pb.ch_seq as i64) + 1;
                    let unreliable_match = reliable_match || bunch.ch_seq == pb.ch_seq;
                    let seq_ok = if pb.b_is_reliable {
                        reliable_match
                    } else {
                        unreliable_match
                    };
                    if !pb.b_partial_final && seq_ok && pb.b_is_reliable == bunch.b_is_reliable {
                        let grows = !bunch.b_has_package_map_exports && bunch.data.len() > 0;
                        if grows {
                            if bunch.data_bit_size > usize::MAX - pb.data_bit_size {
                                proof {
                                    assert(self@ =~= rnb_step(st_in, b0));
                                }
                                return Ok(());
                            }
                            pb.data.append(&mut bunch.data);
                            pb.data_bit_size = pb.data_bit_size + bunch.data_bit_size;
                        }
                        if !bunch.b_has_package_map_exports && !bunch.b_partial_final
                            && bunch.data_bit_size % 8 != 0 {
                            proof {
                                assert(self@ =~= rnb_step(st_in, b0));
                            }
                            return Ok(());
                        }
                        pb.ch_seq = bunch.ch_seq;
                        if bunch.b_partial_final {
                            if bunch.b_has_package_map_exports {
                                proof {
                                    assert(self@ =~= rnb_step(st_in, b0));
                                }
                                return Ok(());
                            }
                            pb.b_partial_final = true;
                            pb.b_close = bunch.b_close;
                            pb.b_dormant = bunch.b_dormant;
                            pb.close_reason = bunch.close_reason;
                            pb.b_is_replication_paused = bunch.b_is_replication_paused;
                            pb.b_has_must_be_mapped_guids = bunch.b_has_must_be_mapped_guids;
                            proof {
                                assert(bunch_wf(pb@));
                            }
                            let c = self.received_sequenced_bunch(pb);
                            proof {
                                assert(self@ =~= rnb_step(st_in, b0));
                            }
                            return Ok(());
                        }
                        self.partial_bunch = Some(pb);
                        proof {
                            assert(self@ =~= rnb_step(st_in, b0));
                        }
                        return Ok(());
                    }
                    self.partial_bunch = Some(pb);
                    proof {
                        assert(self@ =~= rnb_step(st_in, b0));
                    }
                    return Ok(());
                },
            }
        }
        let c = self.received_sequenced_bunch(bunch);
        proof {
            assert(self@ =~= rnb_step(st_in, b0));
        }
        Ok(())
    }

    /// Accepts or drops one framed bunch: replayed reliable sequences and
    /// unexpected bunches for absent channels are dropped; otherwise the
    /// channel is created where needed and reassembly proceeds.
    pub fn parse_bunch(&mut self, bunch: DataBunch) -> (r: Result<(), UeError>)
        requires
            parser_inv(old(self)@),
            framed_bunch_wf(bunch@),
        ensures
            final(self)@ == seq_step(old(self)@, bunch@),
            parser_inv(final(self)@),
            r is Ok,
    {
        let ghost st_in = self@;
        let ghost b0 = bunch@;
        proof {
            reveal(seq_step);
            lemma_seq_step_inv(st_in, b0);
        }
        let channel_exists = self.channels.contains_key(&bunch.ch_index);
        if bunch.b_is_reliable && bunch.ch_seq <= self.in_reliable {
            return Ok(());
        }
        if !channel_exists && !bunch.b_is_reliable {
            if !(bunch.b_open && (bunch.b_close || bunch.b_partial)) {
                return Ok(());
            }
        }
        if !channel_exists {
            self.channels.insert(
                bunch.ch_index,
                UChannel { name: bunch.ch_name, index: bunch.ch_index, actor: None },
            );
        }
        let r = self.received_next_bunch(bunch);
        proof {
            assert(self@ =~= seq_step(st_in, b0));
        }
        Ok(())
    }
}

/// One sequencer transition preserves the parser's invariant: channel keys
/// stay under the cap, the cache is untouched, and every newly sequenced
/// bunch is well formed with its index under the cap.
#[verifier::rlimit(100)]
#[verifier::spinoff_prover]
pub proof fn lemma_seq_step_inv(st: ParserV, b: BunchV)
    requires
        parser_inv(st),
        framed_bunch_wf(b),
    ensures
        parser_inv(seq_step(st, b)),
{
    reveal(seq_step);
    reveal(rnb_step);
    reveal(emit_step);
}

/// A sequencer transition never touches the packet counter or the GUID
/// cache: only frame-level reads grow the cache.
#[verifier::rlimit(100)]
#[verifier::spinoff_prover]
pub proof fn lemma_seq_step_frame(st: ParserV, b: BunchV)
    ensures
        seq_step(st, b).packet_index == st.packet_index,
        seq_step(st, b).cache == st.cache,
{
    reveal(seq_step);
    reveal(rnb_step);
    reveal(emit_step);
}


/// A second initial partial bunch, arriving while an unfinished
/// non-reliable partial chain is in flight, replaces the accumulator and
/// emits nothing.
pub proof fn lemma_partial_initial_replaces(st: ParserV, b: BunchV)
    requires
        st.partial_bunch matches Some(pb) && !pb.b_partial_final && !pb.b_is_reliable,
        b.b_partial,
        b.b_partial_initial,
        !(b.b_is_reliable && b.ch_seq <= st.in_reliable),
        st.channels.contains_key(b.ch_index) || b.b_is_reliable || (b.b_open && (b.b_close
            || b.b_partial)),
    ensures
        seq_step(st, b).partial_bunch == Some(b),
        seq_step(st, b).sequenced == st.sequenced,
        seq_step(st, b).content_blocks == st.content_blocks,
{
    reveal(seq_step);
    reveal(rnb_step);
}

/// A final partial chunk completes its chain: the bunch emitted is the
/// accumulator's payload followed by the final chunk's, with the summed
/// bit size, the advanced sequence, and the final chunk's terminating
/// flags; the accumulator is then cleared.
#[verifier::rlimit(100)]
#[verifier::spinoff_prover]
pub proof fn lemma_partial_final_reassembles(st: ParserV, b: BunchV)
    requires
        st.partial_bunch matches Some(pb) && !pb.b_partial_final && pb.b_is_reliable
            == b.b_is_reliable && (if pb.b_is_reliable {
            b.ch_seq == pb.ch_seq + 1
        } else {
            b.ch_seq == pb.ch_seq + 1 || b.ch_seq == pb.ch_seq
        }) && pb.data_bit_size + b.data_bit_size <= usize::MAX,
        b.b_partial,
        !b.b_partial_initial,
        b.b_partial_final,
        !b.b_has_package_map_exports,
        b.data.len() > 0,
    ensures
        ({
            let pb = st.partial_bunch->Some_0;
            let st1 = if b.b_is_reliable {
                ParserV { in_reliable: b.ch_seq, ..st }
            } else {
                st
            };
            let done = BunchV {
                data: pb.data + b.data,
                data_bit_size: pb.data_bit_size + b.data_bit_size,
                ch_seq: b.ch_seq,
                b_partial_final: true,
                b_close: b.b_close,
                b_dormant: b.b_dormant,
                close_reason: b.close_reason,
                b_is_replication_paused: b.b_is_replication_paused,
                b_has_must_be_mapped_guids: b.b_has_must_be_mapped_guids,
                ..pb
            };
            &&& rnb_step(st, b) == emit_step(ParserV { partial_bunch: None::<BunchV>, ..st1 }, done)
            &&& rnb_step(st, b).sequenced == st.sequenced.push(done)
            &&& rnb_step(st, b).partial_bunch is None
        }),
{
    reveal(rnb_step);
    reveal(emit_step);
}

/// A sequenced close bunch for a channel removes that channel from the
/// table.
pub proof fn lemma_close_removes_channel(st: ParserV, b: BunchV)
    requires
        b.b_close,
        !b.b_partial,
        !(b.b_is_reliable && b.ch_seq <= st.in_reliable),
        st.channels.contains_key(b.ch_index) || b.b_is_reliable || b.b_open,
    ensures
        !seq_step(st, b).channels.contains_key(b.ch_index),
{
    reveal(seq_step);
    reveal(rnb_step);
    reveal(emit_step);
}


/// The control and flag fields at the front of a bunch header, decoded
/// before the channel name.
#[derive(Debug, Clone, Copy, PartialEq, Eq, Structural)]
pub struct BunchFlags {
    pub b_open: bool,
    pub b_close: bool,
    pub close_reason: crate::names::ChannelCloseReason,
    pub b_dormant: bool,
    pub b_is_replication_paused: bool,
    pub b_is_reliable: bool,
    pub ch_index: u32,
    pub b_has_package_map_exports: bool,
    pub b_has_must_be_mapped_guids: bool,
    pub b_partial: bool,
    pub ch_seq: i32,
    pub b_partial_initial: bool,
    pub b_partial_final: bool,
}

/// Where the control prefix of a bunch header at bit `pos` ends, and its
/// fields: the control bit, the open and close flags, and the close
/// reason.
#[verifier::opaque]
pub open spec fn bunch_control_spec(data: Seq<u8>, size: int, pos: int) -> Result<
    ((bool, bool, crate::names::ChannelCloseReason), int),
    UeError,
> {
    if pos >= size {
        Err(UeError::ReadPastEnd)
    } else {
        let control = s_bit(data, pos);
        if control && pos + 3 > size {
            Err(UeError::ReadPastEnd)
        } else {
            let b_open = control && s_bit(data, pos + 1);
            let b_close = control && s_bit(data, pos + 2);
            let p1 = if control {
                pos + 3
            } else {
                pos + 1
            };
            match (if b_close {
                crate::codec::ranged_spec(data, size, p1, 16)
            } else {
                Ok((0u32, p1))
            }) {
                Err(e) => Err(e),
                Ok((crv, p2)) => if b_close && !crate::names::close_reason_known(crv) {
                    Err(UeError::UnknownCloseReason)
                } else {
                    let close_reason = if b_close {
                        crate::names::close_reason_of(crv)
                    } else {
                        crate::names::ChannelCloseReason::Destroyed
                    };
                    Ok(((b_open, b_close, close_reason), p2))
                },
            }
        }
    }
}

/// Where the flag fields of a bunch header at bit `pos` end, and their
/// values: the control-bit prefix, the close reason, reliability, the
/// channel index, the partial flags and the channel sequence.
#[verifier::opaque]
pub open spec fn bunch_front_spec(
    data: Seq<u8>,
    size: int,
    pos: int,
    packet_index: int,
    in_reliable: int,
) -> Result<(BunchFlags, int), UeError> {
    match bunch_control_spec(data, size, pos) {
        Err(e) => Err(e),
        Ok(((b_open, b_close, close_reason), p2)) => {
            let b_dormant = close_reason == crate::names::ChannelCloseReason::Dormancy;
            if p2 + 2 > size {
                Err(UeError::ReadPastEnd)
            } else {
                let b_paused = s_bit(data, p2);
                let b_reliable = s_bit(data, p2 + 1);
                let p3 = p2 + 2;
                match varint_spec(tail_bytes(data, p3, size)) {
                    Err(e) => Err(e),
                    Ok((chi, n)) => {
                        let p4 = p3 + 8 * n;
                        if chi >= 32767 {
                            Err(UeError::ChannelIndexOutOfRange)
                        } else if p4 + 3 > size {
                            Err(UeError::ReadPastEnd)
                        } else {
                            let b_pme = s_bit(data, p4);
                            let b_mbm = s_bit(data, p4 + 1);
                            let b_partial = s_bit(data, p4 + 2);
                            let p5 = p4 + 3;
                            if b_reliable && in_reliable >= i32::MAX {
                                Err(UeError::MalformedPacket)
                            } else {
                                let ch_seq: int = if b_reliable {
                                    in_reliable + 1
                                } else if b_partial {
                                    packet_index
                                } else {
                                    0
                                };
                                if b_partial && p5 + 2 > size {
                                    Err(UeError::ReadPastEnd)
                                } else {
                                    let b_pinit = b_partial && s_bit(data, p5);
                                    let b_pfin = b_partial && s_bit(data, p5 + 1);
                                    let p6 = if b_partial {
                                        p5 + 2
                                    } else {
                                        p5
                                    };
                                    Ok(
                                        (
                                            BunchFlags {
                                                b_open,
                                                b_close,
                                                close_reason,
                                                b_dormant,
                                                b_is_replication_paused: b_paused,
                                                b_is_reliable: b_reliable,
                                                ch_index: chi,
                                                b_has_package_map_exports: b_pme,
                                                b_has_must_be_mapped_guids: b_mbm,
                                                b_partial,
                                                ch_seq: ch_seq as i32,
                                                b_partial_initial: b_pinit,
                                                b_partial_final: b_pfin,
                                            },
                                            p6,
                                        ),
                                    )
                                }
                            }
                        }
                    },
                }
            }
        },
    }
}

/// Where one bunch header and payload, decoded at bit `pos` with the
/// current packet counter and reliable gate, end — and the decoded bunch.
#[verifier::opaque]
pub open spec fn bunch_header_spec(
    data: Seq<u8>,
    size: int,
    pos: int,
    packet_index: int,
    in_reliable: int,
) -> Result<(BunchV, int), UeError> {
    match bunch_front_spec(data, size, pos, packet_index, in_reliable) {
        Err(e) => Err(e),
        Ok((f, p6)) => {
            match (if f.b_is_reliable || f.b_open {
                crate::ustr::fname_spec(data, size, p6)
            } else {
                Ok((Seq::<char>::empty(), p6))
            }) {
                Err(e) => Err(e),
                Ok((nm, p7)) => {
                    let ch_name = if f.b_is_reliable || f.b_open {
                        crate::names::channel_name_of(nm)
                    } else {
                        crate::names::ChannelName::Unnamed
                    };
                    match crate::codec::ranged_spec(data, size, p7, 16384) {
                        Err(e) => Err(e),
                        Ok((bits, p8)) => if p8 + bits > size {
                            Err(UeError::ReadPastEnd)
                        } else {
                            Ok(
                                (
                                    BunchV {
                                        packet_id: packet_index,
                                        ch_index: f.ch_index,
                                        ch_name: ch_name,
                                        ch_seq: f.ch_seq as int,
                                        b_open: f.b_open,
                                        b_close: f.b_close,
                                        b_is_replication_paused: f.b_is_replication_paused,
                                        b_is_reliable: f.b_is_reliable,
                                        b_partial: f.b_partial,
                                        b_partial_initial: f.b_partial_initial,
                                        b_partial_final: f.b_partial_final,
                                        b_has_package_map_exports: f.b_has_package_map_exports,
                                        b_has_must_be_mapped_guids: f.b_has_must_be_mapped_guids,
                                        b_dormant: f.b_dormant,
                                        close_reason: f.close_reason,
                                        data: crate::bitreader::read_bits_spec(
                                            data,
                                            p8,
                                            bits as int,
                                        ),
                                        data_bit_size: bits as int,
                                    },
                                    p8 + bits,
                                ),
                            )
                        },
                    }
                },
            }
        },
    }
}

/// The state after decoding and sequencing every bunch of a packet from
/// bit `pos` on, together with the error that stopped the walk, if one
/// did. Effects of the bunches before a failed decode stand.
pub open spec fn packet_rec(st: ParserV, data: Seq<u8>, size: int, pos: int) -> (
    ParserV,
    Option<UeError>,
)
    decreases size - pos,
{
    if pos >= size {
        (st, None::<UeError>)
    } else {
        match bunch_header_spec(data, size, pos, st.packet_index, st.in_reliable) {
            Err(e) => (st, Some(e)),
            Ok((bv, p2)) => if pos < p2 <= size {
                packet_rec(seq_step(st, bv), data, size, p2)
            } else {
                (seq_step(st, bv), None::<UeError>)
            },
        }
    }
}

/// The highest set bit of a nonzero byte: the position of a packet's
/// trailing stop marker within its final byte.
pub open spec fn high_bit(b: u8) -> int {
    if b >= 128 {
        7
    } else if b >= 64 {
        6
    } else if b >= 32 {
        5
    } else if b >= 16 {
        4
    } else if b >= 8 {
        3
    } else if b >= 4 {
        2
    } else if b >= 2 {
        1
    } else {
        0
    }
}

/// The bit size of a trailing-bit-aligned packet: everything below the
/// highest set bit of the final byte. A packet whose final byte is zero
/// (or that is empty) is malformed.
pub open spec fn stop_bit_size(data: Seq<u8>) -> Option<int> {
    if data.len() == 0 || data[data.len() - 1] == 0 {
        None::<int>
    } else {
        Some(8 * (data.len() - 1) + high_bit(data[data.len() - 1]))
    }
}


/// A bunch the header decoder yields is exactly framed: its payload bytes
/// carry its bit size, its channel index sits under the cap, and its bit
/// size under the per-wire bound.
pub proof fn lemma_header_framed(data: Seq<u8>, size: int, pos: int, pi: int, ir: int)
    ensures
        bunch_header_spec(data, size, pos, pi, ir) matches Ok(bp) ==> framed_bunch_wf(bp.0),
{
    reveal(bunch_header_spec);
    reveal(bunch_front_spec);
    crate::codec::lemma_ranged_bounds_all(data, size, 16384);
    match bunch_header_spec(data, size, pos, pi, ir) {
        Err(_) => {},
        Ok((bv, _)) => {
            assert(bv.data.len() == (bv.data_bit_size + 7) / 8);
            assert(bv.data_bit_size <= ((bv.data_bit_size + 7) / 8) * 8) by (nonlinear_arith)
                requires
                    bv.data_bit_size >= 0,
            ;
        },
    }
}

/// Walking a whole packet preserves the parser's invariant.
pub proof fn lemma_packet_rec_inv(st: ParserV, data: Seq<u8>, size: int, pos: int)
    requires
        parser_inv(st),
    ensures
        parser_inv(packet_rec(st, data, size, pos).0),
    decreases size - pos,
{
    if pos >= size {
    } else {
        match bunch_header_spec(data, size, pos, st.packet_index, st.in_reliable) {
            Err(_) => {},
            Ok((bv, p2)) => {
                lemma_header_framed(data, size, pos, st.packet_index, st.in_reliable);
                lemma_seq_step_inv(st, bv);
                if pos < p2 <= size {
                    lemma_packet_rec_inv(seq_step(st, bv), data, size, p2);
                }
            },
        }
    }
}

impl PacketParser {
    /// Decodes the control prefix of a bunch header.
    #[verifier::rlimit(100)]
    #[verifier::spinoff_prover]
    fn decode_bunch_control(reader: &mut BitReader) -> (r: Result<
        (bool, bool, crate::names::ChannelCloseReason),
        UeError,
    >)
        requires
            old(reader).wf(),
        ensures
            final(reader).wf(),
            final(reader).bytes@ == old(reader).bytes@,
            final(reader).bit_size == old(reader).bit_size,
            final(reader).bit_pos >= old(reader).bit_pos,
            ({
                let spec_r = bunch_control_spec(
                    old(reader).stream(),
                    old(reader).bit_size as int,
                    old(reader).bit_pos as int,
                );
                match spec_r {
                    Err(e) => r matches Err(re) && re == e,
                    Ok((f, pp)) => r matches Ok(rf) && rf == f && final(reader).bit_pos == pp,
                }
            }),
            r is Ok ==> final(reader).bit_pos > old(reader).bit_pos,
    {
        proof {
            reveal(bunch_control_spec);
        }
        let b_control = match reader.read_bit() {
            Ok(v) => v,
            Err(e) => {
                return Err(e);
            },
        };
        let b_open: bool;
        let b_close: bool;
        if b_control {
            b_open = match reader.read_bit() {
                Ok(v) => v,
                Err(e) => {
                    return Err(e);
                },
            };
            b_close = match reader.read_bit() {
                Ok(v) => v,
                Err(e) => {
                    return Err(e);
                },
            };
        } else {
            b_open = false;
            b_close = false;
        }
        let close_reason: crate::names::ChannelCloseReason;
        if b_close {
            let crv = match reader.read_serialized_int(16) {
                Ok(v) => v,
                Err(e) => {
                    return Err(e);
                },
            };
            close_reason = match crate::names::ChannelCloseReason::parse(crv) {
                Some(c) => c,
                None => {
                    return Err(UeError::UnknownCloseReason);
                },
            };
        } else {
            close_reason = crate::names::ChannelCloseReason::Destroyed;
        }
        Ok((b_open, b_close, close_reason))
    }

    /// Decodes the flag fields at the front of a bunch header.
    #[verifier::rlimit(100)]
    #[verifier::spinoff_prover]
    fn decode_bunch_front(reader: &mut BitReader, packet_index: i32, in_reliable: i32) -> (r:
        Result<BunchFlags, UeError>)
        requires
            old(reader).wf(),
        ensures
            final(reader).wf(),
            final(reader).bytes@ == old(reader).bytes@,
            final(reader).bit_size == old(reader).bit_size,
            final(reader).bit_pos >= old(reader).bit_pos,
            ({
                let spec_r = bunch_front_spec(
                    old(reader).stream(),
                    old(reader).bit_size as int,
                    old(reader).bit_pos as int,
                    packet_index as int,
                    in_reliable as int,
                );
                match spec_r {
                    Err(e) => r matches Err(re) && re == e,
                    Ok((f, pp)) => r matches Ok(rf) && rf == f && final(reader).bit_pos == pp,
                }
            }),
            r is Ok ==> final(reader).bit_pos > old(reader).bit_pos,
    {
        proof {
            reveal(bunch_front_spec);
        }
        let (b_open, b_close, close_reason) = match Self::decode_bunch_control(reader) {
            Ok(v) => v,
            Err(e) => {
                return Err(e);
            },
        };
        let b_dormant = matches!(close_reason, crate::names::ChannelCloseReason::Dormancy);
        let b_is_replication_paused = match reader.read_bit() {
            Ok(v) => v,
            Err(e) => {
                return Err(e);
            },
        };
        let b_is_reliable = match reader.read_bit() {
            Ok(v) => v,
            Err(e) => {
                return Err(e);
            },
        };
        let ch_index = match reader.read_int_packed() {
            Ok(v) => v,
            Err(e) => {
                return Err(e);
            },
        };
        if ch_index >= 32767 {
            return Err(UeError::ChannelIndexOutOfRange);
        }
        let b_has_package_map_exports = match reader.read_bit() {
            Ok(v) => v,
            Err(e) => {
                return Err(e);
            },
        };
        let b_has_must_be_mapped_guids = match reader.read_bit() {
            Ok(v) => v,
            Err(e) => {
                return Err(e);
            },
        };
        let b_partial = match reader.read_bit() {
            Ok(v) => v,
            Err(e) => {
                return Err(e);
            },
        };
        if b_is_reliable && in_reliable == i32::MAX {
            return Err(UeError::MalformedPacket);
        }
        let ch_seq: i32 = if b_is_reliable {
            in_reliable + 1
        } else if b_partial {
            packet_index
        } else {
            0
        };
        let b_partial_initial: bool;
        let b_partial_final: bool;
        if b_partial {
            b_partial_initial = match reader.read_bit() {
                Ok(v) => v,
                Err(e) => {
                    return Err(e);
                },
            };
            b_partial_final = match reader.read_bit() {
                Ok(v) => v,
                Err(e) => {
                    return Err(e);
                },
            };
        } else {
            b_partial_initial = false;
            b_partial_final = false;
        }
        Ok(
            BunchFlags {
                b_open,
                b_close,
                close_reason,
                b_dormant,
                b_is_replication_paused,
                b_is_reliable,
                ch_index,
                b_has_package_map_exports,
                b_has_must_be_mapped_guids,
                b_partial,
                ch_seq,
                b_partial_initial,
                b_partial_final,
            },
        )
    }

    /// Decodes one bunch header and payload at the cursor.
    #[verifier::rlimit(100)]
    #[verifier::spinoff_prover]
    fn decode_bunch(reader: &mut BitReader, packet_index: i32, in_reliable: i32) -> (r: Result<
        DataBunch,
        UeError,
    >)
        requires
            old(reader).wf(),
        ensures
            final(reader).wf(),
            final(reader).bytes@ == old(reader).bytes@,
            final(reader).bit_size == old(reader).bit_size,
            final(reader).bit_pos >= old(reader).bit_pos,
            ({
                let spec_r = bunch_header_spec(
                    old(reader).stream(),
                    old(reader).bit_size as int,
                    old(reader).bit_pos as int,
                    packet_index as int,
                    in_reliable as int,
                );
                match spec_r {
                    Err(e) => r matches Err(re) && re == e,
                    Ok((bv, pp)) => r matches Ok(rb) && rb@ == bv && final(reader).bit_pos == pp,
                }
            }),
            r is Ok ==> final(reader).bit_pos > old(reader).bit_pos,
    {
        proof {
            reveal(bunch_header_spec);
        }
        let f = match Self::decode_bunch_front(reader, packet_index, in_reliable) {
            Ok(v) => v,
            Err(e) => {
                return Err(e);
            },
        };
        let ch_name: crate::names::ChannelName;
        if f.b_is_reliable || f.b_open {
            let nm = match reader.read_bit_fname() {
                Ok(v) => v,
                Err(e) => {
                    return Err(e);
                },
            };
            ch_name = crate::names::ChannelName::parse(nm);
        } else {
            ch_name = crate::names::ChannelName::Unnamed;
        }
        let bunch_data_bits = match reader.read_serialized_int(16384) {
            Ok(v) => v,
            Err(e) => {
                return Err(e);
            },
        };
        let payload = match reader.read_bits(bunch_data_bits) {
            Ok(v) => v,
            Err(e) => {
                return Err(e);
            },
        };
        Ok(
            DataBunch {
                packet_id: packet_index,
                ch_index: f.ch_index,
                ch_name,
                ch_seq: f.ch_seq,
                b_open: f.b_open,
                b_close: f.b_close,
                b_is_replication_paused: f.b_is_replication_paused,
                b_is_reliable: f.b_is_reliable,
                b_partial: f.b_partial,
                b_partial_initial: f.b_partial_initial,
                b_partial_final: f.b_partial_final,
                b_has_package_map_exports: f.b_has_package_map_exports,
                b_has_must_be_mapped_guids: f.b_has_must_be_mapped_guids,
                b_dormant: f.b_dormant,
                close_reason: f.close_reason,
                data: payload,
                data_bit_size: bunch_data_bits as usize,
            },
        )
    }

    /// Decodes every bunch of one packet in order and hands each to the
    /// sequencer. A failed decode aborts the rest of the packet; the
    /// bunches before it stand.
    fn received_packet(&mut self, reader: &mut BitReader) -> (r: Result<(), UeError>)
        requires
            parser_inv(old(self)@),
            old(self)@.packet_index < i32::MAX,
            old(reader).wf(),
        ensures
            parser_inv(final(self)@),
            ({
                let st1 = ParserV { packet_index: old(self)@.packet_index + 1, ..old(self)@ };
                let walk = packet_rec(
                    st1,
                    old(reader).bytes@,
                    old(reader).bit_size as int,
                    old(reader).bit_pos as int,
                );
                &&& final(self)@ == walk.0
                &&& (match walk.1 {
                    None => r is Ok,
                    Some(e) => r matches Err(re) && re == e,
                })
            }),
            final(self)@.packet_index == old(self)@.packet_index + 1,
    {
        let ghost st1 = ParserV { packet_index: old(self)@.packet_index + 1, ..old(self)@ };
        let ghost data = old(reader).bytes@;
        let ghost size = old(reader).bit_size as int;
        let ghost pos0 = old(reader).bit_pos as int;
        self.packet_index = self.packet_index + 1;
        proof {
            assert(self@ =~= st1);
            lemma_packet_rec_inv(st1, data, size, pos0);
        }
        while reader.bit_pos < reader.bit_size
            invariant
                reader.wf(),
                reader.bytes@ == old(reader).bytes@,
                reader.bit_size == old(reader).bit_size,
                data == old(reader).bytes@,
                size == old(reader).bit_size as int,
                pos0 == old(reader).bit_pos as int,
                st1 == (ParserV { packet_index: old(self)@.packet_index + 1, ..old(self)@ }),
                old(self)@.packet_index < i32::MAX,
                parser_inv(self@),
                self@.packet_index == st1.packet_index,
                packet_rec(st1, data, size, pos0) == packet_rec(
                    self@,
                    data,
                    size,
                    reader.bit_pos as int,
                ),
            decreases reader.bit_size - reader.bit_pos,
        {
            let ghost cur = reader.bit_pos as int;
            let bunch = match Self::decode_bunch(reader, self.packet_index, self.in_reliable) {
                Ok(b) => b,
                Err(e) => {
                    return Err(e);
                },
            };
            proof {
                lemma_header_framed(data, size, cur, self@.packet_index, self@.in_reliable);
            }
            let ghost st_b = self@;
            match self.parse_bunch(bunch) {
                Ok(_) => {},
                Err(e) => {
                    return Err(e);
                },
            };
            proof {
                lemma_seq_step_inv(st_b, bunch@);
                lemma_seq_step_frame(st_b, bunch@);
            }
        }
        Ok(())
    }

    /// Computes a packet's bit size from its trailing stop marker and
    /// decodes its bunches. A packet whose final byte is zero is
    /// malformed.
    pub fn received_raw_packet(&mut self, packet: &PlaybackPacket) -> (r: Result<(), UeError>)
        requires
            parser_inv(old(self)@),
            old(self)@.packet_index < i32::MAX,
            packet.data@.len() * 8 <= usize::MAX,
        ensures
            parser_inv(final(self)@),
            ({
                match stop_bit_size(packet.data@) {
                    None => r matches Err(re) && re == UeError::MalformedPacket && final(self)@
                        == old(self)@,
                    Some(bs) => {
                        let st1 = ParserV {
                            packet_index: old(self)@.packet_index + 1,
                            ..old(self)@
                        };
                        let walk = packet_rec(st1, packet.data@, bs, 0);
                        &&& final(self)@ == walk.0
                        &&& (match walk.1 {
                            None => r is Ok,
                            Some(e) => r matches Err(re) && re == e,
                        })
                        &&& final(self)@.packet_index == old(self)@.packet_index + 1
                    },
                }
            }),
    {
        let n = packet.data.len();
        if n == 0 {
            return Err(UeError::MalformedPacket);
        }
        let last = packet.data[n - 1];
        if last == 0 {
            return Err(UeError::MalformedPacket);
        }
        let h: usize = if last >= 128 {
            7
        } else if last >= 64 {
            6
        } else if last >= 32 {
            5
        } else if last >= 16 {
            4
        } else if last >= 8 {
            3
        } else if last >= 4 {
            2
        } else if last >= 2 {
            1
        } else {
            0
        };
        let bit_size = (n - 1) * 8 + h;
        let mut reader = BitReader::new(packet.data.as_slice(), bit_size);
        self.received_packet(&mut reader)
    }
}

} // verus!
