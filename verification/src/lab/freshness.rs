use vstd::prelude::*;

verus! {

/// How recent the last frame of a node is, measured against its cadence.
#[derive(Debug, Clone, Copy, PartialEq, Eq, Structural)]
pub enum Freshness {
    Fresh,
    Aging,
    Stale,
    VeryStale,
}

/// The order of the buckets, from fresh to very stale.
pub open spec fn freshness_rank(f: Freshness) -> int {
    match f {
        Freshness::Fresh => 0,
        Freshness::Aging => 1,
        Freshness::Stale => 2,
        Freshness::VeryStale => 3,
    }
}

/// Tag buckets by the whole seconds since its last frame.
///
/// Heartbeat path: fresh < 330 s, aging < 660 s, stale < 1320 s, very stale
/// from 1320 s on. SOS path: fresh < 180 s (three times the SOS cadence),
/// else very stale.
pub open spec fn tag_freshness(age_secs: u32, sos: bool) -> Freshness {
    if sos {
        if age_secs < 180 {
            Freshness::Fresh
        } else {
            Freshness::VeryStale
        }
    } else if age_secs < 330 {
        Freshness::Fresh
    } else if age_secs < 660 {
        Freshness::Aging
    } else if age_secs < 1320 {
        Freshness::Stale
    } else {
        Freshness::VeryStale
    }
}

/// Relay buckets by the whole seconds since its last frame: fresh < 1800 s,
/// aging < 3600 s, stale from 3600 s on.
pub open spec fn relay_freshness(age_secs: u32) -> Freshness {
    if age_secs < 1800 {
        Freshness::Fresh
    } else if age_secs < 3600 {
        Freshness::Aging
    } else {
        Freshness::Stale
    }
}

/// Freshness of a tag whose last frame arrived `age_secs` whole seconds ago.
pub fn freshness_for_tag(age_secs: u32, sos: bool) -> (f: Freshness)
    ensures
        f == tag_freshness(age_secs, sos),
{
    if sos {
        // SOS only has two states: Fresh (link healthy) and VeryStale
        // (distress link stale). `VeryStale` is reused here as the colour
        // bucket for "SOS stale", not the heartbeat very-stale meaning.
        if age_secs < 180 {
            Freshness::Fresh
        } else {
            Freshness::VeryStale
        }
    } else if age_secs < 330 {
        Freshness::Fresh
    } else if age_secs < 660 {
        Freshness::Aging
    } else if age_secs < 1320 {
        Freshness::Stale
    } else {
        Freshness::VeryStale
    }
}

/// Freshness of a relay whose last frame arrived `age_secs` whole seconds
/// ago; relays report every ~1800 s, so tag thresholds do not apply.
pub fn freshness_for_relay(age_secs: u32) -> (f: Freshness)
    ensures
        f == relay_freshness(age_secs),
{
    if age_secs < 1800 {
        Freshness::Fresh
    } else if age_secs < 3600 {
        Freshness::Aging
    } else {
        Freshness::Stale
    }
}

/// An older frame never looks fresher: for tags (on either path) and for
/// relays, the bucket rank does not decrease as the age grows.
pub proof fn lemma_freshness_monotonic(newer: u32, older: u32, sos: bool)
    requires
        newer <= older,
    ensures
        freshness_rank(tag_freshness(newer, sos)) <= freshness_rank(tag_freshness(older, sos)),
        freshness_rank(relay_freshness(newer)) <= freshness_rank(relay_freshness(older)),
{
}

/// A tag in SOS is only ever fresh or very stale, and a relay is never very
/// stale.
pub proof fn lemma_freshness_ranges(age_secs: u32)
    ensures
        tag_freshness(age_secs, true) == Freshness::Fresh || tag_freshness(age_secs, true)
            == Freshness::VeryStale,
        relay_freshness(age_secs) != Freshness::VeryStale,
{
}

} // verus!
