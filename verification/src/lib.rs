//! Decoder for recorded Unreal-Engine replay sessions: a bit-granular stream
//! reader for the engine's serialization primitives, the packet-to-bunch
//! framing parser with partial-bunch reassembly and per-channel sequencing,
//! and the net-GUID export machinery that maps network GUIDs to object paths.

use vstd::prelude::*;

pub mod bitreader;
pub mod bunch;
pub mod chunks;
pub mod codec;
pub mod frame;
pub mod guid;
pub mod writer;
pub mod bitstream;
pub mod names;
pub mod parser;
pub mod paths;
pub mod ustr;
pub mod vec3;

verus! {

/// Failure of a decode step. Structural drops (replayed sequences, unmatched
/// partial chains) are not errors; they are normal wire behaviour and are
/// absorbed silently by the sequencer.
#[derive(Debug, Clone, Copy, PartialEq, Eq, Structural)]
pub enum UeError {
    /// A read ran past the end of the stream.
    ReadPastEnd,
    /// The trailing stop bit of a packet was missing (last byte zero).
    MalformedPacket,
    /// A length-prefixed string carried an unusable length prefix.
    BadStringLength,
    /// The bytes of a narrow string were not valid UTF-8.
    InvalidUtf8,
    /// The code units of a wide string were not valid UTF-16.
    InvalidUtf16,
    /// A continuation varint ran past the five bytes a 32-bit value allows.
    VarintOverflow,
    /// A hardcoded name id outside the known engine table.
    UnknownName,
    /// A close-reason value outside the known set.
    UnknownCloseReason,
    /// A bunch addressed a channel index at or above the channel cap.
    ChannelIndexOutOfRange,
    /// A packed vector announced a component bit width too large to decode.
    BadVectorBits,
    /// A chunk handed to a decoder of another chunk kind.
    WrongChunk,
}

} // verus!
