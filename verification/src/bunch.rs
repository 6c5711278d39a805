//! The records the packet framer and sequencer work on: decoded bunches,
//! per-channel state, actors, and the session's GUID-to-path cache.

use vstd::prelude::*;

use std::collections::HashMap;

use crate::guid::NetworkGUID;
use crate::names::{ChannelCloseReason, ChannelName};
use crate::vec3::{FRotator, FVector};

verus! {

/// One decoded bunch: the unit of replicated data on a single channel,
/// with its control flags and its payload measured in bits.
#[derive(Debug, Clone)]
pub struct DataBunch {
    pub packet_id: i32,
    pub ch_index: u32,
    pub ch_name: ChannelName,
    pub ch_seq: i32,
    pub b_open: bool,
    pub b_close: bool,
    pub b_is_replication_paused: bool,
    pub b_is_reliable: bool,
    pub b_partial: bool,
    pub b_partial_initial: bool,
    pub b_partial_final: bool,
    pub b_has_package_map_exports: bool,
    pub b_has_must_be_mapped_guids: bool,
    pub b_dormant: bool,
    pub close_reason: ChannelCloseReason,
    pub data: Vec<u8>,
    pub data_bit_size: usize,
}

/// The mathematical form of a bunch.
#[verifier::ext_equal]
pub struct BunchV {
    pub packet_id: int,
    pub ch_index: u32,
    pub ch_name: ChannelName,
    pub ch_seq: int,
    pub b_open: bool,
    pub b_close: bool,
    pub b_is_replication_paused: bool,
    pub b_is_reliable: bool,
    pub b_partial: bool,
    pub b_partial_initial: bool,
    pub b_partial_final: bool,
    pub b_has_package_map_exports: bool,
    pub b_has_must_be_mapped_guids: bool,
    pub b_dormant: bool,
    pub close_reason: ChannelCloseReason,
    pub data: Seq<u8>,
    pub data_bit_size: int,
}

impl View for DataBunch {
    type V = BunchV;

    open spec fn view(&self) -> BunchV {
        BunchV {
            packet_id: self.packet_id as int,
            ch_index: self.ch_index,
            ch_name: self.ch_name,
            ch_seq: self.ch_seq as int,
            b_open: self.b_open,
            b_close: self.b_close,
            b_is_replication_paused: self.b_is_replication_paused,
            b_is_reliable: self.b_is_reliable,
            b_partial: self.b_partial,
            b_partial_initial: self.b_partial_initial,
            b_partial_final: self.b_partial_final,
            b_has_package_map_exports: self.b_has_package_map_exports,
            b_has_must_be_mapped_guids: self.b_has_must_be_mapped_guids,
            b_dormant: self.b_dormant,
            close_reason: self.close_reason,
            data: self.data@,
            data_bit_size: self.data_bit_size as int,
        }
    }
}

/// A bunch whose payload length and bit size agree: the bit size fits the
/// bytes that carry it.
pub open spec fn bunch_wf(b: BunchV) -> bool {
    0 <= b.data_bit_size <= b.data.len() * 8
}

/// An actor decoded from the first open bunch of its channel.
#[derive(Debug, Clone, Copy, PartialEq, Eq, Structural)]
pub struct Actor {
    pub actor_net_guid: NetworkGUID,
    pub archetype: NetworkGUID,
    pub level: NetworkGUID,
    pub location: FVector,
    pub rotation: FRotator,
    pub scale: FVector,
    pub velocity: FVector,
}

impl Actor {
    /// A fresh actor: null references, zero transform, unit scale.
    pub fn new_default() -> (r: Actor)
        ensures
            r == spec_default_actor(),
    {
        Actor {
            actor_net_guid: NetworkGUID(0),
            archetype: NetworkGUID(0),
            level: NetworkGUID(0),
            location: FVector::zero(),
            rotation: FRotator { pitch: 0, yaw: 0, roll: 0 },
            scale: FVector::one(),
            velocity: FVector::zero(),
        }
    }
}

/// The fresh actor value.
pub open spec fn spec_default_actor() -> Actor {
    Actor {
        actor_net_guid: NetworkGUID(0),
        archetype: NetworkGUID(0),
        level: NetworkGUID(0),
        location: FVector::Exact { x_bits: 0, y_bits: 0, z_bits: 0 },
        rotation: FRotator { pitch: 0, yaw: 0, roll: 0 },
        scale: FVector::Exact { x_bits: 0x3F800000, y_bits: 0x3F800000, z_bits: 0x3F800000 },
        velocity: FVector::Exact { x_bits: 0, y_bits: 0, z_bits: 0 },
    }
}

/// Per-index channel state: created on the first accepted bunch, destroyed
/// by a sequenced close.
#[derive(Debug, Clone, Copy, PartialEq, Eq, Structural)]
pub struct UChannel {
    pub name: ChannelName,
    pub index: u32,
    pub actor: Option<Actor>,
}

/// One content block handed downstream: the replicated sub-object and its
/// payload bits.
#[derive(Debug, Clone)]
pub struct ContentBlock {
    pub rep_object: u32,
    pub payload: Vec<u8>,
    pub payload_bit_size: u32,
}

/// The mathematical form of a content block.
#[verifier::ext_equal]
pub struct BlockV {
    pub rep_object: u32,
    pub payload: Seq<u8>,
    pub payload_bit_size: u32,
}

impl View for ContentBlock {
    type V = BlockV;

    open spec fn view(&self) -> BlockV {
        BlockV {
            rep_object: self.rep_object,
            payload: self.payload@,
            payload_bit_size: self.payload_bit_size,
        }
    }
}

/// The session-scoped map from network GUIDs to canonical object path
/// names. It only grows; entries are never changed or removed.
pub struct NetGuidCache {
    pub net_guid_to_path: HashMap<u32, String>,
}

impl View for NetGuidCache {
    type V = Map<u32, Seq<char>>;

    open spec fn view(&self) -> Map<u32, Seq<char>> {
        Map::new(
            |k: u32| self.net_guid_to_path@.contains_key(k),
            |k: u32| self.net_guid_to_path@[k]@,
        )
    }
}

/// A cache after one resolution: the entry is added only where its guid
/// is new. Entries are never changed or removed once present; the cache
/// grows monotonically during one replay.
pub open spec fn spec_cache_insert(m: Map<u32, Seq<char>>, g: u32, p: Seq<char>) -> Map<
    u32,
    Seq<char>,
> {
    if m.contains_key(g) {
        m
    } else {
        m.insert(g, p)
    }
}

impl NetGuidCache {
    /// An empty cache.
    pub fn new() -> (r: NetGuidCache)
        ensures
            r@ == Map::<u32, Seq<char>>::empty(),
    {
        let r = NetGuidCache { net_guid_to_path: HashMap::new() };
        proof {
            assert(r@ =~= Map::<u32, Seq<char>>::empty());
        }
        r
    }

    /// Records a resolved path for a GUID. An already-resolved guid keeps
    /// its first path: entries are never mutated or removed.
    pub fn insert(&mut self, guid: u32, path: String)
        ensures
            final(self)@ == spec_cache_insert(old(self)@, guid, path@),
    {
        if !self.net_guid_to_path.contains_key(&guid) {
            self.net_guid_to_path.insert(guid, path);
            proof {
                assert(final(self)@ =~= old(self)@.insert(guid, path@));
            }
        } else {
            proof {
                assert(final(self)@ =~= old(self)@);
            }
        }
    }

    /// Looks a GUID's path up.
    pub fn get(&self, guid: u32) -> (r: Option<&String>)
        ensures
            match r {
                Some(s) => self@.contains_key(guid) && self@[guid] == s@,
                None => !self@.contains_key(guid),
            },
    {
        self.net_guid_to_path.get(&guid)
    }

    /// How many GUIDs are resolved.
    pub fn len(&self) -> (r: usize)
        ensures
            r == self.net_guid_to_path@.len(),
    {
        self.net_guid_to_path.len()
    }
}


/// Whether a playback packet carries data or ends the frame's packet
/// stream.
#[derive(Debug, Clone, Copy, PartialEq, Eq, Structural)]
pub enum PacketState {
    Success,
    End,
}

impl Default for PacketState {
    /// The terminal state.
    fn default() -> (r: PacketState)
        ensures
            r == PacketState::End,
    {
        PacketState::End
    }
}

/// One packet of captured network traffic inside a demo frame.
#[derive(Debug, Clone)]
pub struct PlaybackPacket {
    pub state: PacketState,
    pub data: Vec<u8>,
}

} // verus!
