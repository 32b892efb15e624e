use vstd::prelude::*;

use crate::lab::freshness::{freshness_for_tag, tag_freshness, Freshness};

verus! {

/// Where a tag sits in the node list: SOS first, then tags without a fix,
/// then stale or very stale tags, then the rest.
pub open spec fn spec_hiker_priority(sos: bool, gps_valid: bool, last_seen_secs: u32) -> u8 {
    if sos {
        0
    } else if !gps_valid {
        1
    } else {
        match tag_freshness(last_seen_secs, false) {
            Freshness::VeryStale | Freshness::Stale => 2,
            _ => 3,
        }
    }
}

/// Mission-first rank of a tag in the node list (lower comes first): SOS,
/// then no fix, then stale/very stale, then normal. Relays and the gateway
/// are pinned below all tags by the caller.
pub fn hiker_priority(sos: bool, gps_valid: bool, last_seen_secs: u32) -> (rank: u8)
    ensures
        rank == spec_hiker_priority(sos, gps_valid, last_seen_secs),
{
    if sos {
        return 0;
    }
    if !gps_valid {
        return 1;
    }
    match freshness_for_tag(last_seen_secs, false) {
        Freshness::VeryStale | Freshness::Stale => 2,
        _ => 3,
    }
}

/// Row `a` comes before row `b`: by rank, then node id, then input
/// position.
pub open spec fn row_before(keys: Seq<(u8, u8)>, a: int, b: int) -> bool {
    ||| keys[a].0 < keys[b].0
    ||| (keys[a].0 == keys[b].0 && keys[a].1 < keys[b].1)
    ||| (keys[a].0 == keys[b].0 && keys[a].1 == keys[b].1 && a < b)
}

fn comes_before(keys: &[(u8, u8)], a: usize, b: usize) -> (r: bool)
    requires
        a < keys@.len(),
        b < keys@.len(),
    ensures
        r == row_before(keys@, a as int, b as int),
{
    let (ra, na) = keys[a];
    let (rb, nb) = keys[b];
    ra < rb || (ra == rb && na < nb) || (ra == rb && na == nb && a < b)
}

/// The order of the tag rows, given each tag's `(rank, node id)`: a list of
/// indices into `keys`, sorted by rank, then node id, with ties kept in
/// their input order. Each index occurs exactly once.
pub fn hiker_order(keys: &[(u8, u8)]) -> (order: Vec<usize>)
    ensures
        order@.len() == keys@.len(),
        forall|i: int| 0 <= i < order@.len() ==> #[trigger] order@[i] < keys@.len(),
        forall|i: int, j: int|
            0 <= i < j < order@.len() ==> row_before(keys@, #[trigger] order@[i] as int, #[trigger] order@[j] as int),
{
    let mut order: Vec<usize> = Vec::new();
    let mut i: usize = 0;
    while i < keys.len()
        invariant
            i <= keys@.len(),
            order@.len() == i,
            forall|q: int| 0 <= q < order@.len() ==> #[trigger] order@[q] < i,
            forall|q: int, r: int|
                0 <= q < r < order@.len() ==> row_before(keys@, #[trigger] order@[q] as int, #[trigger] order@[r] as int),
        decreases keys@.len() - i,
    {
        let mut p: usize = 0;
        while p < order.len() && !comes_before(keys, i, order[p])
            invariant
                i < keys@.len(),
                p <= order@.len(),
                order@.len() == i,
                forall|q: int| 0 <= q < order@.len() ==> #[trigger] order@[q] < i,
                forall|q: int| 0 <= q < p ==> row_before(keys@, #[trigger] order@[q] as int, i as int),
            decreases order@.len() - p,
        {
            p = p + 1;
        }
        proof {
            assert forall|q: int| p <= q < order@.len() implies row_before(keys@, i as int, #[trigger] order@[q] as int) by {
                if q > p {
                    assert(row_before(keys@, order@[p as int] as int, order@[q] as int));
                }
            }
        }
        let ghost prev = order@;
        order.insert(p, i);
        assert forall|q: int, r: int| 0 <= q < r < order@.len() implies row_before(keys@, #[trigger] order@[q] as int, #[trigger] order@[r] as int) by {
            if r < p {
                assert(order@[q] == prev[q] && order@[r] == prev[r]);
            } else if r == p {
                assert(order@[q] == prev[q]);
            } else if q < p {
                assert(order@[q] == prev[q] && order@[r] == prev[r - 1]);
                assert(row_before(keys@, prev[q] as int, i as int));
                assert(row_before(keys@, i as int, prev[r - 1] as int));
            } else if q == p {
                assert(order@[r] == prev[r - 1]);
            } else {
                assert(order@[q] == prev[q - 1] && order@[r] == prev[r - 1]);
            }
        }
        i = i + 1;
    }
    order
}

} // verus!

verus! {

/// The most recent last-seen age among tags (whole seconds), and whether it
/// is within the tag heartbeat cadence (under 330 s).
pub fn newest_rx(ages: &[u32]) -> (newest: Option<(u32, bool)>)
    ensures
        newest is None <==> ages@.len() == 0,
        newest matches Some((age, fresh)) ==> {
            &&& ages@.contains(age)
            &&& forall|i: int| 0 <= i < ages@.len() ==> age <= #[trigger] ages@[i]
            &&& fresh == (age < 330)
        },
{
    if ages.len() == 0 {
        return None;
    }
    let mut min: u32 = ages[0];
    let mut i: usize = 1;
    assert(ages@.subrange(0, 1)[0] == min);
    while i < ages.len()
        invariant
            1 <= i <= ages@.len(),
            ages@.subrange(0, i as int).contains(min),
            forall|j: int| 0 <= j < i ==> min <= #[trigger] ages@[j],
        decreases ages@.len() - i,
    {
        if ages[i] < min {
            min = ages[i];
            assert(ages@.subrange(0, i + 1)[i as int] == min);
        } else {
            proof {
                let k = choose|k: int| 0 <= k < i && ages@.subrange(0, i as int)[k] == min;
                assert(ages@.subrange(0, i + 1)[k] == min);
            }
        }
        i = i + 1;
    }
    assert(ages@.subrange(0, ages@.len() as int) =~= ages@);
    Some((min, min < 330))
}

} // verus!

verus! {

/// What the node list needs to know of a tag.
#[derive(Debug, Clone, Copy, PartialEq, Eq, Structural)]
pub struct TagSummary {
    pub node_id: u8,
    pub sos: bool,
    pub gps_valid: bool,
    pub last_seen_secs: u32,
}

/// A row of the node list.
#[derive(Debug, Clone, Copy, PartialEq, Eq, Structural)]
pub enum Row {
    /// The tag at this index of the scenario's tags.
    Hiker(usize),
    Relay,
    Gateway,
}

/// The `(rank, node id)` sort key of each tag.
pub open spec fn row_keys(tags: Seq<TagSummary>) -> Seq<(u8, u8)> {
    tags.map_values(
        |t: TagSummary| (spec_hiker_priority(t.sos, t.gps_valid, t.last_seen_secs), t.node_id),
    )
}

/// The rows of the node list: every tag once, mission-first (by rank, then
/// node id, ties in input order), then the relay, then the gateway.
pub fn build_rows(tags: &[TagSummary]) -> (rows: Vec<Row>)
    ensures
        rows@.len() == tags@.len() + 2,
        forall|i: int|
            0 <= i < tags@.len() ==> (#[trigger] rows@[i] matches Row::Hiker(idx) && idx
                < tags@.len()),
        forall|i: int, j: int|
            0 <= i < j < tags@.len() ==> row_before(
                row_keys(tags@),
                (#[trigger] rows@[i])->Hiker_0 as int,
                (#[trigger] rows@[j])->Hiker_0 as int,
            ),
        rows@[tags@.len() as int] == Row::Relay,
        rows@[tags@.len() + 1int] == Row::Gateway,
{
    let mut keys: Vec<(u8, u8)> = Vec::new();
    let mut k: usize = 0;
    while k < tags.len()
        invariant
            k <= tags@.len(),
            keys@ == row_keys(tags@).take(k as int),
        decreases tags@.len() - k,
    {
        let t = tags[k];
        keys.push((hiker_priority(t.sos, t.gps_valid, t.last_seen_secs), t.node_id));
        assert(row_keys(tags@).take(k + 1) =~= row_keys(tags@).take(k as int).push(
            row_keys(tags@)[k as int],
        ));
        k = k + 1;
    }
    assert(keys@ =~= row_keys(tags@));
    let order = hiker_order(keys.as_slice());
    let mut rows: Vec<Row> = Vec::new();
    let mut i: usize = 0;
    while i < order.len()
        invariant
            i <= order@.len(),
            order@.len() == tags@.len(),
            rows@.len() == i,
            forall|q: int| 0 <= q < i ==> #[trigger] rows@[q] == Row::Hiker(order@[q]),
        decreases order@.len() - i,
    {
        rows.push(Row::Hiker(order[i]));
        i = i + 1;
    }
    rows.push(Row::Relay);
    rows.push(Row::Gateway);
    assert forall|q: int| 0 <= q < tags@.len() implies #[trigger] rows@[q] == Row::Hiker(order@[q]) by {}
    rows
}

} // verus!
