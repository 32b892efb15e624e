use vstd::prelude::*;

use crate::frame::{PacketId, SEEN_CACHE_CAPACITY, SEEN_CACHE_EXPIRY_SECONDS};

verus! {

/// Seconds from `ts` to `now` on a wrapping `u32` clock.
pub open spec fn elapsed(now: u32, ts: u32) -> int {
    if now >= ts {
        now - ts
    } else {
        now - ts + 0x1_0000_0000
    }
}

/// `entry` records `pid` at a time less than the expiry window before `now`.
pub open spec fn entry_is_live(entry: Option<(PacketId, u32)>, pid: PacketId, now: u32) -> bool {
    &&& entry matches Some((id, ts))
    &&& id == pid
    &&& elapsed(now, ts) < SEEN_CACHE_EXPIRY_SECONDS
}

/// The abstract state of a dedup cache: its ring of slots, and the slot that
/// the next insertion overwrites.
pub struct CacheView {
    pub slots: Seq<Option<(PacketId, u32)>>,
    pub cursor: int,
}

impl CacheView {
    /// A ring of `SEEN_CACHE_CAPACITY` slots with a cursor inside it.
    pub open spec fn well_formed(self) -> bool {
        &&& self.slots.len() == SEEN_CACHE_CAPACITY
        &&& 0 <= self.cursor < SEEN_CACHE_CAPACITY
    }

    /// The state of a fresh cache: every slot empty, cursor at slot 0.
    pub open spec fn empty() -> CacheView {
        CacheView { slots: Seq::new(SEEN_CACHE_CAPACITY as nat, |i: int| None), cursor: 0 }
    }

    /// Some slot records `pid` within the expiry window before `now`.
    pub open spec fn contains(self, pid: PacketId, now: u32) -> bool {
        exists|i: int| 0 <= i < self.slots.len() && entry_is_live(#[trigger] self.slots[i], pid, now)
    }

    /// The state after recording `pid` at `now`: the slot under the cursor
    /// (the oldest one once the ring is full) is overwritten and the cursor
    /// moves on, wrapping at the end of the ring.
    pub open spec fn insert(self, pid: PacketId, now: u32) -> CacheView {
        CacheView {
            slots: self.slots.update(self.cursor, Some((pid, now))),
            cursor: (self.cursor + 1) % (SEEN_CACHE_CAPACITY as int),
        }
    }

    /// The state after recording each of `records` in turn.
    pub open spec fn insert_all(self, records: Seq<(PacketId, u32)>) -> CacheView
        decreases records.len(),
    {
        if records.len() == 0 {
            self
        } else {
            self.insert_all(records.drop_last()).insert(records.last().0, records.last().1)
        }
    }
}

/// The window of the last `SEEN_CACHE_CAPACITY` indices of a run of `n`
/// insertions.
pub open spec fn in_last_window(k: int, n: int) -> bool {
    &&& 0 <= k < n
    &&& n - SEEN_CACHE_CAPACITY <= k
}

/// Recording a packet id makes it present from then on, for as long as the
/// expiry window lasts, and keeps the ring well formed.
pub proof fn lemma_insert_then_contains(v: CacheView, pid: PacketId, now: u32, later: u32)
    requires
        v.well_formed(),
        elapsed(later, now) < SEEN_CACHE_EXPIRY_SECONDS,
    ensures
        v.insert(pid, now).well_formed(),
        v.insert(pid, now).contains(pid, later),
{
    let c = v.insert(pid, now);
    assert(entry_is_live(c.slots[v.cursor], pid, later));
}

/// The ring of a cache that started empty holds exactly the last
/// `SEEN_CACHE_CAPACITY` insertions: the record of insertion `k` sits in
/// slot `k % SEEN_CACHE_CAPACITY` for every `k` in the last window, every
/// record in the ring comes from that window, and the cursor points at the
/// slot of the oldest record once the ring is full.
#[verifier::rlimit(40)]
pub proof fn lemma_ring_holds_last_inserts(records: Seq<(PacketId, u32)>)
    ensures
        ({
            let c = CacheView::empty().insert_all(records);
            let n = records.len() as int;
            &&& c.well_formed()
            &&& c.cursor == n % (SEEN_CACHE_CAPACITY as int)
            &&& forall|k: int|
                #![trigger records[k]]
                in_last_window(k, n) ==> c.slots[k % (SEEN_CACHE_CAPACITY as int)] == Some(records[k])
            &&& forall|j: int|
                #![trigger c.slots[j]]
                0 <= j < SEEN_CACHE_CAPACITY && c.slots[j] is Some ==> exists|k: int|
                    #![trigger records[k]]
                    in_last_window(k, n) && k % (SEEN_CACHE_CAPACITY as int) == j && c.slots[j]
                        == Some(records[k])
        }),
    decreases records.len(),
{
    let cap = SEEN_CACHE_CAPACITY as int;
    let n = records.len() as int;
    if n == 0 {
        let c = CacheView::empty().insert_all(records);
        assert(c == CacheView::empty());
    } else {
        let prev = records.drop_last();
        lemma_ring_holds_last_inserts(prev);
        let p = CacheView::empty().insert_all(prev);
        let x = records.last();
        let c = CacheView::empty().insert_all(records);
        assert(c == p.insert(x.0, x.1));
        assert(p.cursor == (n - 1) % cap);
        assert forall|k: int| #![trigger records[k]] in_last_window(k, n) implies c.slots[k % cap]
            == Some(records[k]) by {
            if k == n - 1 {
                assert(records[k] == x);
            } else {
                assert(prev[k] == records[k]);
                assert(in_last_window(k, n - 1));
                assert(k % cap != (n - 1) % cap);
            }
        }
        assert forall|j: int|
            #![trigger c.slots[j]]
            0 <= j < cap && c.slots[j] is Some implies exists|k: int|
                #![trigger records[k]]
                in_last_window(k, n) && k % cap == j && c.slots[j] == Some(records[k]) by {
            if j == (n - 1) % cap {
                assert(records[n - 1] == x);
                assert(in_last_window(n - 1, n));
            } else {
                assert(p.slots[j] is Some);
                let k = choose|k: int|
                    #![trigger prev[k]]
                    in_last_window(k, n - 1) && k % cap == j && p.slots[j] == Some(prev[k]);
                assert(prev[k] == records[k]);
                assert(k != n - 1 - cap);
                assert(in_last_window(k, n));
            }
        }
    }
}

/// A cache that started empty answers `contains` from exactly the last
/// `SEEN_CACHE_CAPACITY` insertions: a packet id is present at `now` if and
/// only if one of them recorded it within the expiry window before `now`.
/// Older insertions have been evicted, oldest first.
pub proof fn lemma_contains_last_inserts(records: Seq<(PacketId, u32)>, pid: PacketId, now: u32)
    ensures
        CacheView::empty().insert_all(records).contains(pid, now) <==> exists|k: int|
            #![trigger records[k]]
            in_last_window(k, records.len() as int) && records[k].0 == pid && elapsed(
                now,
                records[k].1,
            ) < SEEN_CACHE_EXPIRY_SECONDS,
{
    let cap = SEEN_CACHE_CAPACITY as int;
    let n = records.len() as int;
    let c = CacheView::empty().insert_all(records);
    lemma_ring_holds_last_inserts(records);
    if c.contains(pid, now) {
        let i = choose|i: int| 0 <= i < c.slots.len() && entry_is_live(#[trigger] c.slots[i], pid, now);
        let k = choose|k: int|
            #![trigger records[k]]
            in_last_window(k, n) && k % cap == i && c.slots[i] == Some(records[k]);
        assert(records[k].0 == pid);
    }
    if exists|k: int|
        #![trigger records[k]]
        in_last_window(k, n) && records[k].0 == pid && elapsed(now, records[k].1)
            < SEEN_CACHE_EXPIRY_SECONDS {
        let k = choose|k: int|
            #![trigger records[k]]
            in_last_window(k, n) && records[k].0 == pid && elapsed(now, records[k].1)
                < SEEN_CACHE_EXPIRY_SECONDS;
        assert(c.slots[k % cap] == Some(records[k]));
        assert(entry_is_live(c.slots[k % cap], pid, now));
    }
}

proof fn lemma_slot_survives(v: CacheView, pid: PacketId, now: u32, records: Seq<(PacketId, u32)>)
    requires
        v.well_formed(),
        records.len() < SEEN_CACHE_CAPACITY,
    ensures
        ({
            let c = v.insert(pid, now).insert_all(records);
            &&& c.well_formed()
            &&& c.slots[v.cursor] == Some((pid, now))
            &&& c.cursor == (v.cursor + 1 + records.len()) % (SEEN_CACHE_CAPACITY as int)
        }),
    decreases records.len(),
{
    if records.len() > 0 {
        lemma_slot_survives(v, pid, now, records.drop_last());
        let p = v.insert(pid, now).insert_all(records.drop_last());
        assert(p.cursor != v.cursor);
    }
}

/// A recorded packet id survives any fewer than `SEEN_CACHE_CAPACITY`
/// later insertions, whatever state the cache was in: it stays present for
/// the whole expiry window unless at least `SEEN_CACHE_CAPACITY` newer
/// records have pushed it out.
pub proof fn lemma_survives_fewer_than_capacity_inserts(
    v: CacheView,
    pid: PacketId,
    now: u32,
    records: Seq<(PacketId, u32)>,
    later: u32,
)
    requires
        v.well_formed(),
        records.len() < SEEN_CACHE_CAPACITY,
        elapsed(later, now) < SEEN_CACHE_EXPIRY_SECONDS,
    ensures
        v.insert(pid, now).insert_all(records).well_formed(),
        v.insert(pid, now).insert_all(records).contains(pid, later),
{
    lemma_slot_survives(v, pid, now, records);
    let c = v.insert(pid, now).insert_all(records);
    assert(entry_is_live(c.slots[v.cursor], pid, later));
}

/// Fixed-capacity ring-buffer dedup cache, with no heap.
///
/// When full, the oldest entry is evicted (circular overwrite semantics).
/// Timestamps are caller-supplied monotonic u32 seconds; entries expire after
/// SEEN_CACHE_EXPIRY_SECONDS (60 s).
pub struct SeenCache {
    entries: [Option<(PacketId, u32)>; SEEN_CACHE_CAPACITY],
    write_idx: usize,
}

impl View for SeenCache {
    type V = CacheView;

    closed spec fn view(&self) -> CacheView {
        CacheView { slots: self.entries@, cursor: self.write_idx as int }
    }
}

impl SeenCache {
    #[verifier::type_invariant]
    pub(crate) closed spec fn cursor_in_ring(self) -> bool {
        self.write_idx < SEEN_CACHE_CAPACITY
    }

    pub(crate) proof fn lemma_view_well_formed(cache: SeenCache)
        requires
            cache.cursor_in_ring(),
        ensures
            cache@.well_formed(),
    {
    }

    pub fn new() -> (cache: Self)
        ensures
            cache@ == CacheView::empty(),
            cache@.well_formed(),
    {
        let entries: [Option<(PacketId, u32)>; SEEN_CACHE_CAPACITY] = [None; 32];
        let cache = SeenCache { entries, write_idx: 0 };
        assert(cache@.slots =~= CacheView::empty().slots);
        cache
    }

    /// Returns true if `pid` is present and its timestamp is within the
    /// expiry window.
    pub fn contains(&self, pid: PacketId, now: u32) -> (found: bool)
        ensures
            found == self@.contains(pid, now),
            self@.well_formed(),
    {
        proof {
            use_type_invariant(self);
        }
        let mut i: usize = 0;
        while i < SEEN_CACHE_CAPACITY
            invariant
                i <= SEEN_CACHE_CAPACITY,
                self@.well_formed(),
                forall|j: int| 0 <= j < i ==> !entry_is_live(#[trigger] self@.slots[j], pid, now),
            decreases SEEN_CACHE_CAPACITY - i,
        {
            if let Some((id, ts)) = self.entries[i] {
                if id == pid && now.wrapping_sub(ts) < SEEN_CACHE_EXPIRY_SECONDS {
                    assert(entry_is_live(self@.slots[i as int], pid, now));
                    return true;
                }
            }
            i = i + 1;
        }
        false
    }

    /// Inserts `pid` at timestamp `now`. When full, overwrites the oldest slot.
    pub fn insert(&mut self, pid: PacketId, now: u32)
        ensures
            final(self)@ == old(self)@.insert(pid, now),
            final(self)@.well_formed(),
    {
        proof {
            use_type_invariant(&*self);
        }
        let w = self.write_idx;
        self.entries[w] = Some((pid, now));
        self.write_idx = (w + 1) % SEEN_CACHE_CAPACITY;
        assert(self@.slots =~= old(self)@.slots.update(w as int, Some((pid, now))));
    }
}

impl Default for SeenCache {
    fn default() -> (cache: Self)
        ensures
            cache@ == CacheView::empty(),
    {
        Self::new()
    }
}

} // verus!
