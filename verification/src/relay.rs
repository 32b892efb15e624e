use vstd::prelude::*;

use crate::frame::{
    DropReason, FrameError, PacketId, RelayDecision, FRAME_LEN, SEEN_CACHE_CAPACITY,
    SEEN_CACHE_EXPIRY_SECONDS,
};
use crate::position::{
    decode_frame, decode_position, lemma_decode_of_encode, packet_id, position_frame,
    spec_packet_id, wire_valid, Position,
};
use crate::seen_cache::{
    elapsed, lemma_insert_then_contains, lemma_survives_fewer_than_capacity_inserts, CacheView,
    SeenCache,
};

verus! {

/// The drop reason a relay gives for a frame that fails to decode.
pub open spec fn drop_reason_for(e: FrameError) -> DropReason {
    match e {
        FrameError::CrcMismatch => DropReason::CrcFail,
        FrameError::UnknownType | FrameError::BadVersion => DropReason::UnknownType,
        _ => DropReason::Malformed,
    }
}

/// What a relay decides for `raw`, received at `now` by node `my_node_id`
/// whose cache is in state `cache`: the packet id to forward, or why the
/// frame is dropped. The checks come in the order decode, duplicate,
/// self-echo.
pub open spec fn relay_outcome(raw: Seq<u8>, my_node_id: u8, now: u32, cache: CacheView) -> Result<
    PacketId,
    DropReason,
> {
    match decode_frame(raw) {
        Err(e) => Err(drop_reason_for(e)),
        Ok(p) => {
            if cache.contains(spec_packet_id(p), now) {
                Err(DropReason::Duplicate)
            } else if p.node_id == my_node_id {
                Err(DropReason::SelfEcho)
            } else {
                Ok(spec_packet_id(p))
            }
        },
    }
}

/// The cache state after the decision: a forwarded packet id is recorded at
/// `now`; a dropped frame leaves the cache as it was.
pub open spec fn relay_cache_after(raw: Seq<u8>, my_node_id: u8, now: u32, cache: CacheView) -> CacheView {
    match relay_outcome(raw, my_node_id, now, cache) {
        Ok(pid) => cache.insert(pid, now),
        Err(_) => cache,
    }
}

/// A relay forwards only frames that decode, that it has not seen within
/// the expiry window and that another node sent; the packet id it forwards
/// is the one the frame carries.
pub proof fn lemma_forward_only_new_foreign_valid(
    raw: Seq<u8>,
    my_node_id: u8,
    now: u32,
    cache: CacheView,
)
    requires
        relay_outcome(raw, my_node_id, now, cache) is Ok,
    ensures
        decode_frame(raw) is Ok,
        relay_outcome(raw, my_node_id, now, cache)->Ok_0 == spec_packet_id(decode_frame(raw)->Ok_0),
        relay_outcome(raw, my_node_id, now, cache)->Ok_0.node_id != my_node_id,
        !cache.contains(relay_outcome(raw, my_node_id, now, cache)->Ok_0, now),
{
}

/// Tag to relay to gateway: the frame a tag sends for a valid position is
/// forwarded by any other relay that has not seen its packet id within the
/// expiry window, and what the relay forwards (the same bytes) decodes at
/// the gateway to the position the tag sent.
pub proof fn lemma_tag_relay_gateway(p: Position, my_node_id: u8, now: u32, cache: CacheView)
    requires
        wire_valid(p),
        p.node_id != my_node_id,
        !cache.contains(spec_packet_id(p), now),
    ensures
        relay_outcome(position_frame(p), my_node_id, now, cache) == Ok::<PacketId, DropReason>(
            spec_packet_id(p),
        ),
        decode_frame(position_frame(p)) == Ok::<Position, FrameError>(p),
{
    lemma_decode_of_encode(p);
}

/// Once a relay has forwarded a frame, the same frame received again within
/// the expiry window is dropped as a duplicate.
pub proof fn lemma_forward_then_duplicate(
    raw: Seq<u8>,
    my_node_id: u8,
    now: u32,
    later: u32,
    cache: CacheView,
)
    requires
        cache.well_formed(),
        relay_outcome(raw, my_node_id, now, cache) is Ok,
        elapsed(later, now) < SEEN_CACHE_EXPIRY_SECONDS,
    ensures
        relay_outcome(raw, my_node_id, later, relay_cache_after(raw, my_node_id, now, cache))
            == Err::<PacketId, DropReason>(DropReason::Duplicate),
{
    let pid = relay_outcome(raw, my_node_id, now, cache)->Ok_0;
    lemma_insert_then_contains(cache, pid, now, later);
}

/// The cache state after a run of received frames, each given as the raw
/// bytes, the receiving node and the reception time, decided in turn.
pub open spec fn relay_run(cache: CacheView, calls: Seq<(Seq<u8>, u8, u32)>) -> CacheView
    decreases calls.len(),
{
    if calls.len() == 0 {
        cache
    } else {
        let c = calls.last();
        relay_cache_after(c.0, c.1, c.2, relay_run(cache, calls.drop_last()))
    }
}

/// The packet ids forwarded during a run of received frames, each with the
/// time it was forwarded at, in order.
pub open spec fn relay_forwards(cache: CacheView, calls: Seq<(Seq<u8>, u8, u32)>) -> Seq<
    (PacketId, u32),
>
    decreases calls.len(),
{
    if calls.len() == 0 {
        Seq::empty()
    } else {
        let c = calls.last();
        let rest = relay_forwards(cache, calls.drop_last());
        match relay_outcome(c.0, c.1, c.2, relay_run(cache, calls.drop_last())) {
            Ok(pid) => rest.push((pid, c.2)),
            Err(_) => rest,
        }
    }
}

/// Over a run, the cache changes only by recording the forwarded packet
/// ids, in order.
pub proof fn lemma_run_records_forwards(cache: CacheView, calls: Seq<(Seq<u8>, u8, u32)>)
    ensures
        relay_run(cache, calls) == cache.insert_all(relay_forwards(cache, calls)),
    decreases calls.len(),
{
    if calls.len() > 0 {
        lemma_run_records_forwards(cache, calls.drop_last());
        let fw = relay_forwards(cache, calls);
        let rest = relay_forwards(cache, calls.drop_last());
        if fw.len() > rest.len() {
            assert(fw.drop_last() =~= rest);
        } else {
            assert(fw =~= rest);
        }
    }
}

/// A packet id is forwarded at most once per expiry window: after a relay
/// forwards a frame, any frame carrying the same packet id received within
/// the expiry window is dropped as a duplicate, whatever was received in
/// between, as long as fewer than `SEEN_CACHE_CAPACITY` other frames were
/// forwarded meanwhile.
pub proof fn lemma_forwarded_once_per_window(
    raw: Seq<u8>,
    my_node_id: u8,
    now: u32,
    cache: CacheView,
    calls: Seq<(Seq<u8>, u8, u32)>,
    again: Seq<u8>,
    my_node_id_again: u8,
    later: u32,
)
    requires
        cache.well_formed(),
        relay_outcome(raw, my_node_id, now, cache) is Ok,
        relay_forwards(relay_cache_after(raw, my_node_id, now, cache), calls).len()
            < SEEN_CACHE_CAPACITY,
        decode_frame(again) is Ok,
        spec_packet_id(decode_frame(again)->Ok_0) == relay_outcome(raw, my_node_id, now, cache)->Ok_0,
        elapsed(later, now) < SEEN_CACHE_EXPIRY_SECONDS,
    ensures
        relay_outcome(
            again,
            my_node_id_again,
            later,
            relay_run(relay_cache_after(raw, my_node_id, now, cache), calls),
        ) == Err::<PacketId, DropReason>(DropReason::Duplicate),
{
    let pid = relay_outcome(raw, my_node_id, now, cache)->Ok_0;
    let after = relay_cache_after(raw, my_node_id, now, cache);
    lemma_run_records_forwards(after, calls);
    lemma_survives_fewer_than_capacity_inserts(cache, pid, now, relay_forwards(after, calls), later);
}

/// Relay forwarding decision, with no I/O, no hardware and no allocation
/// besides the returned frame.
///
/// Accepts raw received bytes so the radio layer does not need to pre-filter
/// length before calling relay logic.
///
/// Validation order:
///   1. Decode + validate frame (length, MAGIC, VER, TYPE, LEN, CRC, flags, sentinels)
///   2. Check seen_cache for duplicate packet_id
///   3. Check for self-echo (node_id == my_node_id)
///   4. Insert into cache and return byte-identical frame for forwarding
pub fn relay_decide(raw: &[u8], my_node_id: u8, now: u32, cache: &mut SeenCache) -> (decision:
    RelayDecision)
    ensures
        match decision {
            RelayDecision::Drop(reason) => relay_outcome(raw@, my_node_id, now, old(cache)@) == Err::<
                PacketId,
                DropReason,
            >(reason),
            RelayDecision::EnqueueForward { packet_id, frame_bytes } => {
                &&& relay_outcome(raw@, my_node_id, now, old(cache)@) == Ok::<PacketId, DropReason>(
                    packet_id,
                )
                &&& frame_bytes@ == raw@
            },
        },
        final(cache)@ == relay_cache_after(raw@, my_node_id, now, old(cache)@),
        final(cache)@.well_formed(),
{
    proof {
        use_type_invariant(&*cache);
        SeenCache::lemma_view_well_formed(*cache);
    }
    let pos = match decode_position(raw) {
        Ok(p) => p,
        Err(FrameError::CrcMismatch) => {
            return RelayDecision::Drop(DropReason::CrcFail);
        },
        Err(FrameError::UnknownType) | Err(FrameError::BadVersion) => {
            return RelayDecision::Drop(DropReason::UnknownType);
        },
        Err(_) => {
            return RelayDecision::Drop(DropReason::Malformed);
        },
    };

    let pid = packet_id(&pos);

    if cache.contains(pid, now) {
        return RelayDecision::Drop(DropReason::Duplicate);
    }
    if pos.node_id == my_node_id {
        return RelayDecision::Drop(DropReason::SelfEcho);
    }

    cache.insert(pid, now);

    // decode_position succeeded, so raw.len() == FRAME_LEN.
    let frame_bytes: [u8; FRAME_LEN] = [
        raw[0],
        raw[1],
        raw[2],
        raw[3],
        raw[4],
        raw[5],
        raw[6],
        raw[7],
        raw[8],
        raw[9],
        raw[10],
        raw[11],
        raw[12],
        raw[13],
        raw[14],
        raw[15],
        raw[16],
        raw[17],
        raw[18],
        raw[19],
        raw[20],
        raw[21],
    ];
    assert(frame_bytes@ =~= raw@);
    RelayDecision::EnqueueForward { packet_id: pid, frame_bytes }
}

} // verus!
