use vstd::prelude::*;

use crate::crc::{
    crc16, crc16_ccitt_false, lemma_crc_detects_single_byte_error,
    lemma_crc_of_message_with_crc_is_zero,
};
use crate::flags::Flags;
use crate::frame::{
    FrameError, PacketId, FRAME_LEN, MAGIC, NO_FIX_ALT_SENTINEL, NO_FIX_LAT_LON_SENTINEL,
    PAYLOAD_LEN, TYPE_POSITION, VERSION,
};

verus! {

/// One POSITION report of a node.
#[derive(Debug, Clone, Copy, PartialEq, Eq, Structural)]
pub struct Position {
    pub node_id: u8,
    pub seq_nr: u32,
    pub flags: Flags,
    pub lat_e7: i32,
    pub lon_e7: i32,
    pub alt_m: i16,
}

// ---------------------------------------------------------------------------
// Big-endian byte layout
// ---------------------------------------------------------------------------

/// The two bytes of `x`, most significant first.
pub open spec fn be16(x: u16) -> Seq<u8> {
    seq![(x >> 8u16) as u8, x as u8]
}

/// The four bytes of `x`, most significant first.
pub open spec fn be32(x: u32) -> Seq<u8> {
    seq![(x >> 24u32) as u8, (x >> 16u32) as u8, (x >> 8u32) as u8, x as u8]
}

/// The `u16` whose big-endian bytes are `b0 b1`.
pub open spec fn from_be16(b0: u8, b1: u8) -> u16 {
    ((b0 as u16) << 8u16) | (b1 as u16)
}

/// The `u32` whose big-endian bytes are `b0 b1 b2 b3`.
pub open spec fn from_be32(b0: u8, b1: u8, b2: u8, b3: u8) -> u32 {
    ((b0 as u32) << 24u32) | ((b1 as u32) << 16u32) | ((b2 as u32) << 8u32) | (b3 as u32)
}

/// The big-endian `u32` at bytes `i .. i + 4` of `s`.
pub open spec fn be32_at(s: Seq<u8>, i: int) -> u32 {
    from_be32(s[i], s[i + 1], s[i + 2], s[i + 3])
}

// ---------------------------------------------------------------------------
// The frame format
// ---------------------------------------------------------------------------

/// All three coordinates carry the "no fix" sentinels.
pub open spec fn all_sentinel(lat_e7: i32, lon_e7: i32, alt_m: i16) -> bool {
    &&& lat_e7 == NO_FIX_LAT_LON_SENTINEL
    &&& lon_e7 == NO_FIX_LAT_LON_SENTINEL
    &&& alt_m == NO_FIX_ALT_SENTINEL
}

/// At least one of the three coordinates carries its "no fix" sentinel.
pub open spec fn any_sentinel(lat_e7: i32, lon_e7: i32, alt_m: i16) -> bool {
    ||| lat_e7 == NO_FIX_LAT_LON_SENTINEL
    ||| lon_e7 == NO_FIX_LAT_LON_SENTINEL
    ||| alt_m == NO_FIX_ALT_SENTINEL
}

/// GPS_VALID and the coordinates agree: with GPS_VALID set no coordinate is
/// a sentinel; with it clear all three are.
pub open spec fn fix_agrees(p: Position) -> bool {
    if p.flags.spec_gps_valid() {
        !any_sentinel(p.lat_e7, p.lon_e7, p.alt_m)
    } else {
        all_sentinel(p.lat_e7, p.lon_e7, p.alt_m)
    }
}

/// The checks that a decoder applies to the fields of a frame whose header
/// and checksum are good: no reserved flag bit may be set, then GPS_VALID
/// and the sentinel coordinates must agree.
pub open spec fn check_position(p: Position) -> Result<Position, FrameError> {
    if p.flags.spec_has_reserved_bits() {
        Err(FrameError::ReservedFlagBits)
    } else if !fix_agrees(p) {
        Err(FrameError::GpsValidSentinelMismatch)
    } else {
        Ok(p)
    }
}

/// A position that a frame can carry and a decoder accepts.
pub open spec fn wire_valid(p: Position) -> bool {
    check_position(p) is Ok
}

/// Bytes 0..20 of the frame of `p`: header, then the payload.
pub open spec fn frame_body(p: Position) -> Seq<u8> {
    seq![MAGIC, VERSION, TYPE_POSITION, PAYLOAD_LEN as u8, p.node_id] + be32(p.seq_nr)
        + seq![p.flags.0] + be32(p.lat_e7 as u32) + be32(p.lon_e7 as u32) + be16(
        p.alt_m as u16,
    )
}

/// The 22 bytes of the POSITION frame of `p`: the body, then the big-endian
/// CRC-16/CCITT-FALSE of the body.
pub open spec fn position_frame(p: Position) -> Seq<u8> {
    frame_body(p) + be16(crc16(frame_body(p)))
}

/// The fields that bytes 4..20 of a 22-byte frame carry.
pub open spec fn frame_fields(raw: Seq<u8>) -> Position {
    Position {
        node_id: raw[4],
        seq_nr: be32_at(raw, 5),
        flags: Flags(raw[9]),
        lat_e7: be32_at(raw, 10) as i32,
        lon_e7: be32_at(raw, 14) as i32,
        alt_m: from_be16(raw[18], raw[19]) as i16,
    }
}

/// What decoding `raw` gives: the first failing check in the order length,
/// MAGIC, VERSION, TYPE, LEN byte, CRC, reserved flags, GPS_VALID against
/// sentinels; else the position the frame carries.
pub open spec fn decode_frame(raw: Seq<u8>) -> Result<Position, FrameError> {
    if raw.len() != FRAME_LEN {
        Err(FrameError::BadLength)
    } else if raw[0] != MAGIC {
        Err(FrameError::BadMagic)
    } else if raw[1] != VERSION {
        Err(FrameError::BadVersion)
    } else if raw[2] != TYPE_POSITION {
        Err(FrameError::UnknownType)
    } else if raw[3] != PAYLOAD_LEN as u8 {
        Err(FrameError::BadLength)
    } else if crc16(raw.take(20)) != from_be16(raw[20], raw[21]) {
        Err(FrameError::CrcMismatch)
    } else {
        check_position(frame_fields(raw))
    }
}

/// The packet id of `p`.
pub open spec fn spec_packet_id(p: Position) -> PacketId {
    PacketId { node_id: p.node_id, seq_nr: p.seq_nr }
}

// ---------------------------------------------------------------------------
// Byte-level lemmas
// ---------------------------------------------------------------------------

proof fn lemma_be32_round_trip(x: u32)
    ensures
        from_be32((x >> 24u32) as u8, (x >> 16u32) as u8, (x >> 8u32) as u8, x as u8) == x,
{
    assert(((((x >> 24u32) as u8) as u32) << 24u32) | ((((x >> 16u32) as u8) as u32) << 16u32)
        | ((((x >> 8u32) as u8) as u32) << 8u32) | ((x as u8) as u32) == x) by (bit_vector);
}

proof fn lemma_be16_round_trip(x: u16)
    ensures
        from_be16((x >> 8u16) as u8, x as u8) == x,
{
    assert(((((x >> 8u16) as u8) as u16) << 8u16) | ((x as u8) as u16) == x) by (bit_vector);
}

proof fn lemma_from_be32_bytes(b0: u8, b1: u8, b2: u8, b3: u8)
    ensures
        be32(from_be32(b0, b1, b2, b3)) == seq![b0, b1, b2, b3],
{
    let x = from_be32(b0, b1, b2, b3);
    assert((x >> 24u32) as u8 == b0 && (x >> 16u32) as u8 == b1 && (x >> 8u32) as u8 == b2
        && x as u8 == b3) by (bit_vector)
        requires
            x == ((b0 as u32) << 24u32) | ((b1 as u32) << 16u32) | ((b2 as u32) << 8u32) | (
            b3 as u32),
    ;
    assert(be32(x) =~= seq![b0, b1, b2, b3]);
}

proof fn lemma_from_be16_bytes(b0: u8, b1: u8)
    ensures
        be16(from_be16(b0, b1)) == seq![b0, b1],
{
    let x = from_be16(b0, b1);
    assert((x >> 8u16) as u8 == b0 && x as u8 == b1) by (bit_vector)
        requires
            x == ((b0 as u16) << 8u16) | (b1 as u16),
    ;
    assert(be16(x) =~= seq![b0, b1]);
}

proof fn lemma_i32_u32(x: i32, v: u32)
    ensures
        (x as u32) as i32 == x,
        (v as i32) as u32 == v,
{
    assert((x as u32) as i32 == x) by (bit_vector);
    assert((v as i32) as u32 == v) by (bit_vector);
}

proof fn lemma_i16_u16(x: i16, v: u16)
    ensures
        (x as u16) as i16 == x,
        (v as i16) as u16 == v,
{
    assert((x as u16) as i16 == x) by (bit_vector);
    assert((v as i16) as u16 == v) by (bit_vector);
}

// ---------------------------------------------------------------------------
// Laws of the frame format
// ---------------------------------------------------------------------------

/// Decoding the frame of any position gives exactly what the field checks
/// give for it: the position itself when it is valid on the wire, else the
/// error of the first check that it fails. In particular every valid position
/// survives an encode/decode round trip unchanged.
pub proof fn lemma_decode_of_encode(p: Position)
    ensures
        decode_frame(position_frame(p)) == check_position(p),
        wire_valid(p) ==> decode_frame(position_frame(p)) == Ok::<Position, FrameError>(p),
{
    let body = frame_body(p);
    let f = position_frame(p);
    assert(f.len() == FRAME_LEN);
    assert(f.take(20) =~= body);
    lemma_be16_round_trip(crc16(body));
    lemma_be32_round_trip(p.seq_nr);
    lemma_be32_round_trip(p.lat_e7 as u32);
    lemma_be32_round_trip(p.lon_e7 as u32);
    lemma_be16_round_trip(p.alt_m as u16);
    lemma_i32_u32(p.lat_e7, 0);
    lemma_i32_u32(p.lon_e7, 0);
    lemma_i16_u16(p.alt_m, 0);
    assert(frame_fields(f) == p);
}

/// What the decoder says of the frame of any position, stated on the flags
/// byte and the coordinates themselves. A flags byte with a bit above bit 2
/// set is rejected as reserved. Otherwise only bit 0 (GPS_VALID) and the
/// coordinates decide: with bit 0 set and no coordinate a sentinel, or bit 0
/// clear and all three the sentinels, the frame decodes to the position
/// unchanged, whatever the SOS and BATT_LOW bits are; any other mix is a
/// GPS_VALID/sentinel mismatch.
pub proof fn lemma_fix_check_reads_gps_valid_and_coordinates_only(p: Position)
    ensures
        p.flags.0 >= 8 ==> decode_frame(position_frame(p)) == Err::<Position, FrameError>(
            FrameError::ReservedFlagBits,
        ),
        p.flags.0 < 8 && p.flags.0 % 2 == 1 && p.lat_e7 != NO_FIX_LAT_LON_SENTINEL && p.lon_e7
            != NO_FIX_LAT_LON_SENTINEL && p.alt_m != NO_FIX_ALT_SENTINEL ==> decode_frame(
            position_frame(p),
        ) == Ok::<Position, FrameError>(p),
        p.flags.0 < 8 && p.flags.0 % 2 == 0 && p.lat_e7 == NO_FIX_LAT_LON_SENTINEL && p.lon_e7
            == NO_FIX_LAT_LON_SENTINEL && p.alt_m == NO_FIX_ALT_SENTINEL ==> decode_frame(
            position_frame(p),
        ) == Ok::<Position, FrameError>(p),
        p.flags.0 < 8 && p.flags.0 % 2 == 1 && (p.lat_e7 == NO_FIX_LAT_LON_SENTINEL || p.lon_e7
            == NO_FIX_LAT_LON_SENTINEL || p.alt_m == NO_FIX_ALT_SENTINEL) ==> decode_frame(
            position_frame(p),
        ) == Err::<Position, FrameError>(FrameError::GpsValidSentinelMismatch),
        p.flags.0 < 8 && p.flags.0 % 2 == 0 && !(p.lat_e7 == NO_FIX_LAT_LON_SENTINEL && p.lon_e7
            == NO_FIX_LAT_LON_SENTINEL && p.alt_m == NO_FIX_ALT_SENTINEL) ==> decode_frame(
            position_frame(p),
        ) == Err::<Position, FrameError>(FrameError::GpsValidSentinelMismatch),
{
    lemma_decode_of_encode(p);
}

/// Flipping the SOS or BATT_LOW bit of a position does not change whether
/// its frame decodes: the decoder accepts one exactly when it accepts the
/// other, and then gives back each position unchanged.
pub proof fn lemma_sos_and_batt_low_do_not_affect_acceptance(p: Position, flags: u8)
    requires
        flags % 2 == p.flags.0 % 2,
        flags / 8 == p.flags.0 / 8,
    ensures
        (decode_frame(position_frame(p)) is Ok) == (decode_frame(
            position_frame(Position { flags: Flags(flags), ..p }),
        ) is Ok),
        decode_frame(position_frame(p)) is Ok ==> decode_frame(
            position_frame(Position { flags: Flags(flags), ..p }),
        ) == Ok::<Position, FrameError>(Position { flags: Flags(flags), ..p }),
{
    lemma_fix_check_reads_gps_valid_and_coordinates_only(p);
    lemma_fix_check_reads_gps_valid_and_coordinates_only(Position { flags: Flags(flags), ..p });
}

/// A frame that decodes is the frame of what it decodes to: the encoding is
/// canonical, so re-encoding a decoded position gives back the received
/// bytes.
pub proof fn lemma_encode_of_decode(raw: Seq<u8>)
    requires
        decode_frame(raw) is Ok,
    ensures
        position_frame(decode_frame(raw)->Ok_0) == raw,
        wire_valid(decode_frame(raw)->Ok_0),
{
    let p = decode_frame(raw)->Ok_0;
    assert(p == frame_fields(raw));
    lemma_from_be32_bytes(raw[5], raw[6], raw[7], raw[8]);
    lemma_from_be32_bytes(raw[10], raw[11], raw[12], raw[13]);
    lemma_from_be32_bytes(raw[14], raw[15], raw[16], raw[17]);
    lemma_from_be16_bytes(raw[18], raw[19]);
    lemma_from_be16_bytes(raw[20], raw[21]);
    lemma_i32_u32(0, be32_at(raw, 10));
    lemma_i32_u32(0, be32_at(raw, 14));
    lemma_i16_u16(0, from_be16(raw[18], raw[19]));
    assert(frame_body(p) =~= raw.take(20));
    assert(position_frame(p) =~= raw);
}

/// The CRC run over a whole encoded frame, CRC field included, is zero.
pub proof fn lemma_frame_crc_residue_zero(p: Position)
    ensures
        crc16(position_frame(p)) == 0,
{
    lemma_crc_of_message_with_crc_is_zero(frame_body(p));
    assert(position_frame(p) =~= frame_body(p) + seq![
        (crc16(frame_body(p)) >> 8u16) as u8,
        crc16(frame_body(p)) as u8,
    ]);
}

/// Any corruption of an encoded frame confined to one byte is caught: the
/// decoder rejects the frame with one byte changed, whichever of its 22
/// bytes it is (a header check fails, or the CRC no longer matches).
pub proof fn lemma_single_byte_corruption_rejected(p: Position, j: int, b: u8)
    requires
        0 <= j < FRAME_LEN,
        b != position_frame(p)[j],
    ensures
        decode_frame(position_frame(p).update(j, b)) is Err,
{
    let body = frame_body(p);
    let f = position_frame(p);
    let g = f.update(j, b);
    assert(f.take(20) =~= body);
    lemma_be16_round_trip(crc16(body));
    if 4 <= j < 20 {
        assert(g.take(20) =~= body.update(j, b));
        lemma_crc_detects_single_byte_error(body, j, b);
    } else if j >= 20 {
        assert(g.take(20) =~= body);
        lemma_from_be16_bytes(g[20], g[21]);
        if from_be16(g[20], g[21]) == crc16(body) {
            assert(be16(crc16(body)) =~= seq![f[20], f[21]]);
            assert(seq![g[20], g[21]][j - 20] != seq![f[20], f[21]][j - 20]);
        }
    }
}

/// Any single-bit corruption of an encoded frame is caught: the decoder
/// rejects the frame with one bit flipped.
pub proof fn lemma_single_bit_corruption_rejected(p: Position, j: int, bit: u8)
    requires
        0 <= j < FRAME_LEN,
        bit < 8,
    ensures
        decode_frame(position_frame(p).update(j, position_frame(p)[j] ^ (1u8 << bit))) is Err,
{
    let x = position_frame(p)[j];
    assert(bit < 8 ==> x ^ (1u8 << bit) != x) by (bit_vector);
    lemma_single_byte_corruption_rejected(p, j, x ^ (1u8 << bit));
}

// ---------------------------------------------------------------------------
// Executable encoder and decoder
// ---------------------------------------------------------------------------

fn u32_be_bytes(x: u32) -> (b: [u8; 4])
    ensures
        b@ == be32(x),
{
    let b = [(x >> 24u32) as u8, (x >> 16u32) as u8, (x >> 8u32) as u8, x as u8];
    assert(b@ =~= be32(x));
    b
}

fn u16_be_bytes(x: u16) -> (b: [u8; 2])
    ensures
        b@ == be16(x),
{
    let b = [(x >> 8u16) as u8, x as u8];
    assert(b@ =~= be16(x));
    b
}

fn u32_from_be(b0: u8, b1: u8, b2: u8, b3: u8) -> (x: u32)
    ensures
        x == from_be32(b0, b1, b2, b3),
{
    ((b0 as u32) << 24u32) | ((b1 as u32) << 16u32) | ((b2 as u32) << 8u32) | (b3 as u32)
}

fn u16_from_be(b0: u8, b1: u8) -> (x: u16)
    ensures
        x == from_be16(b0, b1),
{
    ((b0 as u16) << 8u16) | (b1 as u16)
}

/// Encodes `p` as a 22-byte POSITION frame (the CRC covers bytes 0..20).
pub fn encode_position(p: Position) -> (frame: [u8; FRAME_LEN])
    ensures
        frame@ == position_frame(p),
{
    let s = u32_be_bytes(p.seq_nr);
    let la = u32_be_bytes(p.lat_e7 as u32);
    let lo = u32_be_bytes(p.lon_e7 as u32);
    let al = u16_be_bytes(p.alt_m as u16);
    let body: [u8; 20] = [
        MAGIC,
        VERSION,
        TYPE_POSITION,
        PAYLOAD_LEN as u8,
        p.node_id,
        s[0],
        s[1],
        s[2],
        s[3],
        p.flags.0,
        la[0],
        la[1],
        la[2],
        la[3],
        lo[0],
        lo[1],
        lo[2],
        lo[3],
        al[0],
        al[1],
    ];
    assert(body@ =~= frame_body(p));
    let crc = crc16_ccitt_false(&body);
    let c = u16_be_bytes(crc);
    let frame: [u8; FRAME_LEN] = [
        body[0],
        body[1],
        body[2],
        body[3],
        body[4],
        body[5],
        body[6],
        body[7],
        body[8],
        body[9],
        body[10],
        body[11],
        body[12],
        body[13],
        body[14],
        body[15],
        body[16],
        body[17],
        body[18],
        body[19],
        c[0],
        c[1],
    ];
    assert(frame@ =~= position_frame(p));
    frame
}

/// Decodes and validates a received POSITION frame.
pub fn decode_position(raw: &[u8]) -> (res: Result<Position, FrameError>)
    ensures
        res == decode_frame(raw@),
{
    if raw.len() != FRAME_LEN {
        return Err(FrameError::BadLength);
    }
    if raw[0] != MAGIC {
        return Err(FrameError::BadMagic);
    }
    if raw[1] != VERSION {
        return Err(FrameError::BadVersion);
    }
    if raw[2] != TYPE_POSITION {
        return Err(FrameError::UnknownType);
    }
    if raw[3] != PAYLOAD_LEN as u8 {
        return Err(FrameError::BadLength);
    }
    let wire_crc = u16_from_be(raw[20], raw[21]);
    let body: [u8; 20] = [
        raw[0],
        raw[1],
        raw[2],
        raw[3],
        raw[4],
        raw[5],
        raw[6],
        raw[7],
        raw[8],
        raw[9],
        raw[10],
        raw[11],
        raw[12],
        raw[13],
        raw[14],
        raw[15],
        raw[16],
        raw[17],
        raw[18],
        raw[19],
    ];
    assert(body@ =~= raw@.take(20));
    if crc16_ccitt_false(&body) != wire_crc {
        return Err(FrameError::CrcMismatch);
    }
    let flags = Flags(raw[9]);
    if flags.has_reserved_bits() {
        return Err(FrameError::ReservedFlagBits);
    }
    let node_id = raw[4];
    let seq_nr = u32_from_be(raw[5], raw[6], raw[7], raw[8]);
    let lat_e7 = u32_from_be(raw[10], raw[11], raw[12], raw[13]) as i32;
    let lon_e7 = u32_from_be(raw[14], raw[15], raw[16], raw[17]) as i32;
    let alt_m = u16_from_be(raw[18], raw[19]) as i16;

    let lat_sentinel = lat_e7 == NO_FIX_LAT_LON_SENTINEL;
    let lon_sentinel = lon_e7 == NO_FIX_LAT_LON_SENTINEL;
    let alt_sentinel = alt_m == NO_FIX_ALT_SENTINEL;

    // GPS_VALID and sentinel coordinates must agree: a valid fix carries no
    // sentinel at all, a missing fix carries all three.
    let agrees = if flags.gps_valid() {
        !(lat_sentinel || lon_sentinel || alt_sentinel)
    } else {
        lat_sentinel && lon_sentinel && alt_sentinel
    };
    if !agrees {
        return Err(FrameError::GpsValidSentinelMismatch);
    }
    Ok(Position { node_id, seq_nr, flags, lat_e7, lon_e7, alt_m })
}

/// The packet id of a position: its node id and sequence number.
pub fn packet_id(p: &Position) -> (pid: PacketId)
    ensures
        pid == spec_packet_id(*p),
{
    PacketId { node_id: p.node_id, seq_nr: p.seq_nr }
}

} // verus!
