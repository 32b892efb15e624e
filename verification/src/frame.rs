use vstd::prelude::*;

verus! {

/// Length in bytes of a complete POSITION frame on the wire.
pub const FRAME_LEN: usize = 22;

/// Length in bytes of the POSITION payload (node id .. altitude).
pub const PAYLOAD_LEN: usize = 16;

/// First byte of every frame.
pub const MAGIC: u8 = 0xA5;

/// Protocol version carried in byte 1.
pub const VERSION: u8 = 0x01;

/// Frame type of a POSITION frame, carried in byte 2.
pub const TYPE_POSITION: u8 = 0x01;

/// Number of packet ids the relay's dedup cache remembers.
pub const SEEN_CACHE_CAPACITY: usize = 32;

/// Seconds after which a dedup cache entry no longer counts.
pub const SEEN_CACHE_EXPIRY_SECONDS: u32 = 60;

/// Latitude and longitude value that stands for "no GPS fix".
pub const NO_FIX_LAT_LON_SENTINEL: i32 = 0x7FFF_FFFF;

/// Altitude value that stands for "no GPS fix".
pub const NO_FIX_ALT_SENTINEL: i16 = 0x7FFF;

/// The identity of a packet: who sent it, and its sequence number.
#[derive(Debug, Clone, Copy, PartialEq, Eq, Structural)]
pub struct PacketId {
    pub node_id: u8,
    pub seq_nr: u32,
}

/// Why a received frame is not a valid POSITION frame.
#[derive(Debug, Clone, Copy, PartialEq, Eq, Structural)]
pub enum FrameError {
    BadMagic,
    BadVersion,
    UnknownType,
    BadLength,
    CrcMismatch,
    ReservedFlagBits,
    GpsValidSentinelMismatch,
}

/// Why a relay does not forward a received frame.
#[derive(Debug, Clone, Copy, PartialEq, Eq, Structural)]
pub enum DropReason {
    CrcFail,
    UnknownType,
    Duplicate,
    SelfEcho,
    Malformed,
}

/// What a relay does with a received frame.
#[derive(Debug, Clone, Copy, PartialEq, Eq)]
pub enum RelayDecision {
    Drop(DropReason),
    EnqueueForward { packet_id: PacketId, frame_bytes: [u8; FRAME_LEN] },
}

} // verus!
