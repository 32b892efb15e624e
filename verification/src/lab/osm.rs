use vstd::prelude::*;
use vstd::string::StringExecFns;

verus! {

/// How an OSM way is drawn.
#[derive(Debug, Clone, Copy, PartialEq, Eq, Structural)]
pub enum WayKind {
    HighwayMajor,
    HighwayMinor,
    Water,
}

/// `highway=<v>` values drawn as major roads.
pub open spec fn is_major_highway(v: Seq<char>) -> bool {
    ||| v == "primary"@
    ||| v == "secondary"@
    ||| v == "tertiary"@
    ||| v == "residential"@
    ||| v == "living_street"@
}

/// What one `k=v` tag says about the kind of its way: `None` when the tag
/// does not decide it.
pub open spec fn tag_decision(k: Seq<char>, v: Seq<char>) -> Option<WayKind> {
    if k == "highway"@ {
        if is_major_highway(v) {
            Some(WayKind::HighwayMajor)
        } else {
            Some(WayKind::HighwayMinor)
        }
    } else if k == "waterway"@ {
        Some(WayKind::Water)
    } else if k == "natural"@ && (v == "water"@ || v == "wetland"@) {
        Some(WayKind::Water)
    } else if k == "landuse"@ && (v == "reservoir"@ || v == "basin"@) {
        Some(WayKind::Water)
    } else {
        None
    }
}

/// The kind of a way: what its first deciding tag says, or `None` when no
/// tag decides it.
pub open spec fn classify_tags(tags: Seq<(String, String)>) -> Option<WayKind>
    decreases tags.len(),
{
    if tags.len() == 0 {
        None
    } else {
        match tag_decision(tags[0].0@, tags[0].1@) {
            Some(kind) => Some(kind),
            None => classify_tags(tags.drop_first()),
        }
    }
}

/// The text `s` is the literal `lit`.
pub(crate) fn text_is(s: &String, lit: &str) -> (b: bool)
    ensures
        b == (s@ == lit@),
{
    let expected = String::from_str(lit);
    *s == expected
}

fn is_major_highway_value(v: &String) -> (b: bool)
    ensures
        b == is_major_highway(v@),
{
    text_is(v, "primary") || text_is(v, "secondary") || text_is(v, "tertiary") || text_is(
        v,
        "residential",
    ) || text_is(v, "living_street")
}

/// The kind of a way from its tags, in tag order.
pub fn classify(tags: &[(String, String)]) -> (kind: Option<WayKind>)
    ensures
        kind == classify_tags(tags@),
{
    let mut i: usize = 0;
    assert(tags@.skip(0) =~= tags@);
    while i < tags.len()
        invariant
            i <= tags@.len(),
            classify_tags(tags@) == classify_tags(tags@.skip(i as int)),
        decreases tags@.len() - i,
    {
        let k = &tags[i].0;
        let v = &tags[i].1;
        assert(tags@.skip(i as int)[0] == tags@[i as int]);
        assert(tags@.skip(i as int).drop_first() =~= tags@.skip(i + 1));
        if text_is(k, "highway") {
            return Some(
                if is_major_highway_value(v) {
                    WayKind::HighwayMajor
                } else {
                    WayKind::HighwayMinor
                },
            );
        } else if text_is(k, "waterway") {
            return Some(WayKind::Water);
        } else if text_is(k, "natural") && (text_is(v, "water") || text_is(v, "wetland")) {
            return Some(WayKind::Water);
        } else if text_is(k, "landuse") && (text_is(v, "reservoir") || text_is(v, "basin")) {
            return Some(WayKind::Water);
        }
        i = i + 1;
    }
    assert(tags@.skip(i as int).len() == 0);
    None
}

/// A way kept for drawing: its node references, its kind, and whether it
/// is a closed ring (first and last reference equal).
pub struct Way {
    pub refs: Vec<i64>,
    pub kind: WayKind,
    pub closed: bool,
}

/// The abstract value of a `Way`.
#[verifier::ext_equal]
pub struct WayView {
    pub refs: Seq<i64>,
    pub kind: WayKind,
    pub closed: bool,
}

impl View for Way {
    type V = WayView;

    open spec fn view(&self) -> WayView {
        WayView { refs: self.refs@, kind: self.kind, closed: self.closed }
    }
}

/// The way that a finished `<way>` element yields: one with a kind and at
/// least two references is kept, closed when its first and last references
/// are equal; any other is dropped.
pub open spec fn finished_way(refs: Seq<i64>, tags: Seq<(String, String)>) -> Option<WayView> {
    match classify_tags(tags) {
        Some(kind) => if refs.len() >= 2 {
            Some(WayView { refs, kind, closed: refs[0] == refs.last() })
        } else {
            None
        },
        None => None,
    }
}

/// The abstract state of a way collector.
#[verifier::ext_equal]
pub struct CollectorView {
    pub in_way: bool,
    pub refs: Seq<i64>,
    pub tags: Seq<(String, String)>,
    pub ways: Seq<WayView>,
}

impl CollectorView {
    /// Outside any way, nothing collected.
    pub open spec fn initial() -> CollectorView {
        CollectorView { in_way: false, refs: Seq::empty(), tags: Seq::empty(), ways: Seq::empty() }
    }

    /// A `<way>` starts: inside a way, with no references or tags yet.
    pub open spec fn started(self) -> CollectorView {
        CollectorView { in_way: true, refs: Seq::empty(), tags: Seq::empty(), ways: self.ways }
    }

    /// An `<nd ref>`: recorded only inside a way.
    pub open spec fn with_ref(self, node_ref: i64) -> CollectorView {
        if self.in_way {
            CollectorView { refs: self.refs.push(node_ref), ..self }
        } else {
            self
        }
    }

    /// A `<tag k v>`: recorded only inside a way.
    pub open spec fn with_tag(self, k: String, v: String) -> CollectorView {
        if self.in_way {
            CollectorView { tags: self.tags.push((k, v)), ..self }
        } else {
            self
        }
    }

    /// A `</way>`: inside a way, the way is finished and kept if it
    /// qualifies; outside a way, nothing happens.
    pub open spec fn ended(self) -> CollectorView {
        if self.in_way {
            CollectorView {
                in_way: false,
                refs: Seq::empty(),
                tags: Seq::empty(),
                ways: match finished_way(self.refs, self.tags) {
                    Some(w) => self.ways.push(w),
                    None => self.ways,
                },
            }
        } else {
            self
        }
    }
}

/// Collects the ways of an OSM document from its element events: the start
/// of a `<way>`, the `<nd ref>` and `<tag k v>` children inside it, and its
/// end.
pub struct WayCollector {
    in_way: bool,
    refs: Vec<i64>,
    tags: Vec<(String, String)>,
    ways: Vec<Way>,
}

impl View for WayCollector {
    type V = CollectorView;

    closed spec fn view(&self) -> CollectorView {
        CollectorView {
            in_way: self.in_way,
            refs: self.refs@,
            tags: self.tags@,
            ways: self.ways@.map_values(|w: Way| w@),
        }
    }
}

impl WayCollector {
    pub fn new() -> (c: Self)
        ensures
            c@.in_way == false,
            c@.refs.len() == 0,
            c@.tags.len() == 0,
            c@.ways.len() == 0,
            c@ == CollectorView::initial(),
    {
        let c = WayCollector { in_way: false, refs: Vec::new(), tags: Vec::new(), ways: Vec::new() };
        assert(c@.ways =~= Seq::<WayView>::empty());
        c
    }

    /// A `<way>` element starts: references and tags start afresh.
    pub fn start_way(&mut self)
        ensures
            final(self)@.in_way == true,
            final(self)@.refs.len() == 0,
            final(self)@.tags.len() == 0,
            final(self)@.ways == old(self)@.ways,
            final(self)@ == old(self)@.started(),
    {
        self.in_way = true;
        self.refs.clear();
        self.tags.clear();
    }

    /// An `<nd ref>` element: the reference counts only inside a way.
    pub fn add_ref(&mut self, node_ref: i64)
        ensures
            final(self)@.in_way == old(self)@.in_way,
            final(self)@.refs == if old(self)@.in_way {
                old(self)@.refs.push(node_ref)
            } else {
                old(self)@.refs
            },
            final(self)@.tags == old(self)@.tags,
            final(self)@.ways == old(self)@.ways,
            final(self)@ == old(self)@.with_ref(node_ref),
    {
        if self.in_way {
            self.refs.push(node_ref);
        }
    }

    /// A `<tag k v>` element: the tag counts only inside a way.
    pub fn add_tag(&mut self, k: String, v: String)
        ensures
            final(self)@.in_way == old(self)@.in_way,
            final(self)@.refs == old(self)@.refs,
            final(self)@.tags == if old(self)@.in_way {
                old(self)@.tags.push((k, v))
            } else {
                old(self)@.tags
            },
            final(self)@.ways == old(self)@.ways,
            final(self)@ == old(self)@.with_tag(k, v),
    {
        if self.in_way {
            self.tags.push((k, v));
        }
    }

    /// The end of a `<way>` element: the way is kept when it has a kind and
    /// at least two references. Outside a way nothing happens.
    pub fn end_way(&mut self)
        ensures
            old(self)@.in_way ==> {
                &&& final(self)@.in_way == false
                &&& final(self)@.refs.len() == 0
                &&& final(self)@.tags.len() == 0
                &&& final(self)@.ways == match finished_way(old(self)@.refs, old(self)@.tags) {
                    Some(w) => old(self)@.ways.push(w),
                    None => old(self)@.ways,
                }
            },
            !old(self)@.in_way ==> final(self)@ == old(self)@,
            final(self)@ == old(self)@.ended(),
    {
        if !self.in_way {
            return;
        }
        self.in_way = false;
        let mut refs: Vec<i64> = Vec::new();
        let mut tags: Vec<(String, String)> = Vec::new();
        core::mem::swap(&mut refs, &mut self.refs);
        core::mem::swap(&mut tags, &mut self.tags);
        let ghost old_ways = self.ways@;
        if let Some(kind) = classify(tags.as_slice()) {
            if refs.len() >= 2 {
                let closed = refs[0] == refs[refs.len() - 1];
                self.ways.push(Way { refs, kind, closed });
                assert(self.ways@.map_values(|w: Way| w@) =~= old_ways.map_values(|w: Way| w@).push(
                    finished_way(old(self)@.refs, old(self)@.tags).unwrap(),
                ));
            }
        }
    }

    /// The ways collected so far, in document order.
    pub fn into_ways(self) -> (ways: Vec<Way>)
        ensures
            ways@.map_values(|w: Way| w@) == self@.ways,
    {
        self.ways
    }
}

} // verus!

verus! {

/// How the first tag of a way decides its kind. `waterway=<any value>`
/// makes it water; `highway=<v>` makes it a major road exactly for
/// `primary`, `secondary`, `tertiary`, `residential` and `living_street`,
/// and a minor road for every other value; `natural=water|wetland` and
/// `landuse=reservoir|basin` make it water. A first tag that decides
/// nothing is skipped: the way is classified by the remaining tags.
pub proof fn lemma_first_tag_decides(tags: Seq<(String, String)>)
    requires
        tags.len() > 0,
    ensures
        tags[0].0@ == "waterway"@ ==> classify_tags(tags) == Some(WayKind::Water),
        tags[0].0@ == "highway"@ && (tags[0].1@ == "primary"@ || tags[0].1@ == "secondary"@
            || tags[0].1@ == "tertiary"@ || tags[0].1@ == "residential"@ || tags[0].1@
            == "living_street"@) ==> classify_tags(tags) == Some(WayKind::HighwayMajor),
        tags[0].0@ == "highway"@ && !(tags[0].1@ == "primary"@ || tags[0].1@ == "secondary"@
            || tags[0].1@ == "tertiary"@ || tags[0].1@ == "residential"@ || tags[0].1@
            == "living_street"@) ==> classify_tags(tags) == Some(WayKind::HighwayMinor),
        tags[0].0@ == "natural"@ && (tags[0].1@ == "water"@ || tags[0].1@ == "wetland"@)
            ==> classify_tags(tags) == Some(WayKind::Water),
        tags[0].0@ == "landuse"@ && (tags[0].1@ == "reservoir"@ || tags[0].1@ == "basin"@)
            ==> classify_tags(tags) == Some(WayKind::Water),
        tags[0].0@ != "highway"@ && tags[0].0@ != "waterway"@ && !(tags[0].0@ == "natural"@ && (
        tags[0].1@ == "water"@ || tags[0].1@ == "wetland"@)) && !(tags[0].0@ == "landuse"@ && (
        tags[0].1@ == "reservoir"@ || tags[0].1@ == "basin"@)) ==> classify_tags(tags)
            == classify_tags(tags.drop_first()),
{
    reveal_strlit("highway");
    reveal_strlit("waterway");
    reveal_strlit("natural");
    reveal_strlit("landuse");
    assert("waterway"@[0] != "highway"@[0]);
    assert("natural"@[0] != "highway"@[0] && "natural"@[0] != "waterway"@[0]);
    assert("landuse"@[0] != "highway"@[0] && "landuse"@[0] != "waterway"@[0] && "landuse"@[0]
        != "natural"@[0]);
}

} // verus!
