use vstd::prelude::*;
use vstd::string::StrSliceExecFns;
use xml::reader::{EventReader, XmlEvent};

use crate::lab::osm::{text_is, CollectorView, Way, WayCollector, WayView};

verus! {

/// One event of an XML document as the OSM reader sees it: a start tag
/// with its local name and attributes (local name, value) in document
/// order, an end tag with its local name, any other well-formed event, or
/// a read error.
#[derive(Debug)]
pub enum OsmEvent {
    Start { name: String, attrs: Vec<(String, String)> },
    End { name: String },
    Other,
    Malformed,
}

/// The events that xml-rs reads from the text `xml`.
pub uninterp spec fn xml_events_of(xml: Seq<char>) -> Seq<OsmEvent>;

/// Reads `xml` with xml-rs (`EventReader::from_str`, then its event
/// iterator) and converts each event it yields, one for one, into an
/// `OsmEvent`: start and end tags keep their local names and the start
/// tag's attributes; read errors become `Malformed`; every other event
/// becomes `Other`. The contract claims only that the result is a function
/// of the text; what xml-rs yields for a given text is not stated.
#[verifier::external_body]
fn xml_events(xml: &str) -> (events: Vec<OsmEvent>)
    ensures
        events@ == xml_events_of(xml@),
{
    let mut events = Vec::new();
    for event in EventReader::from_str(xml) {
        events.push(match event {
            Ok(XmlEvent::StartElement { name, attributes, .. }) => OsmEvent::Start {
                name: name.local_name,
                attrs: attributes.into_iter().map(|a| (a.name.local_name, a.value)).collect(),
            },
            Ok(XmlEvent::EndElement { name }) => OsmEvent::End { name: name.local_name },
            Ok(_) => OsmEvent::Other,
            Err(_) => OsmEvent::Malformed,
        });
    }
    events
}

/// An ASCII decimal digit.
pub open spec fn is_ascii_digit(c: char) -> bool {
    '0' <= c && c <= '9'
}

/// The value of a string of decimal digits.
pub open spec fn digits_value(s: Seq<char>) -> int
    decreases s.len(),
{
    if s.len() == 0 {
        0
    } else {
        digits_value(s.drop_last()) * 10 + (s.last() as int - '0' as int)
    }
}

/// Every character of `s` is an ASCII digit.
pub open spec fn all_digits(s: Seq<char>) -> bool {
    forall|i: int| 0 <= i < s.len() ==> is_ascii_digit(#[trigger] s[i])
}

/// `text` without its leading `+` or `-` sign, if it has one.
pub open spec fn unsigned_part(text: Seq<char>) -> Seq<char> {
    if text.len() > 0 && (text[0] == '-' || text[0] == '+') {
        text.drop_first()
    } else {
        text
    }
}

/// What `str::parse::<i64>` gives for `text`: an optional `+` or `-` sign
/// followed by one or more ASCII digits is the number they spell, if it
/// fits in `i64`; anything else is an error.
pub open spec fn decimal_i64(text: Seq<char>) -> Option<i64> {
    let digits = unsigned_part(text);
    let value = if text.len() > 0 && text[0] == '-' {
        -digits_value(digits)
    } else {
        digits_value(digits)
    };
    if digits.len() > 0 && all_digits(digits) && i64::MIN <= value <= i64::MAX {
        Some(value as i64)
    } else {
        None
    }
}

proof fn lemma_digits_nonneg(s: Seq<char>)
    requires
        forall|i: int| 0 <= i < s.len() ==> is_ascii_digit(#[trigger] s[i]),
    ensures
        digits_value(s) >= 0,
    decreases s.len(),
{
    if s.len() > 0 {
        lemma_digits_nonneg(s.drop_last());
    }
}

proof fn lemma_digits_prefix(s: Seq<char>, k: int)
    requires
        0 <= k <= s.len(),
        forall|i: int| 0 <= i < s.len() ==> is_ascii_digit(#[trigger] s[i]),
    ensures
        digits_value(s) >= digits_value(s.take(k)),
    decreases s.len(),
{
    if k < s.len() {
        assert(s.drop_last().take(k) =~= s.take(k));
        lemma_digits_prefix(s.drop_last(), k);
        lemma_digits_nonneg(s.drop_last());
    } else {
        assert(s.take(k) =~= s);
    }
}

/// Reads a decimal `i64` as `str::parse::<i64>` does: an optional `+` or
/// `-` sign, then one or more ASCII digits, in range.
fn parse_i64(text: &str) -> (value: Option<i64>)
    ensures
        value == decimal_i64(text@),
{
    let n = text.unicode_len();
    if n == 0 {
        return None;
    }
    let first = text.get_char(0);
    let neg = first == '-';
    let start: usize = if first == '-' || first == '+' {
        1
    } else {
        0
    };
    let ghost digits = text@.subrange(start as int, n as int);
    proof {
        if start == 1 {
            assert(text@.drop_first() =~= digits);
        } else {
            assert(text@ =~= digits);
        }
        assert(digits == unsigned_part(text@));
    }
    if start == n {
        return None;
    }
    let mut acc: i64 = 0;
    let mut i: usize = start;
    assert(digits.take(0) =~= Seq::<char>::empty());
    while i < n
        invariant
            start <= i <= n,
            n == text@.len(),
            n > 0,
            digits == text@.subrange(start as int, n as int),
            digits == unsigned_part(text@),
            neg == (text@[0] == '-'),
            start == (if text@[0] == '-' || text@[0] == '+' {
                1usize
            } else {
                0usize
            }),
            forall|k: int| 0 <= k < i - start ==> is_ascii_digit(#[trigger] digits[k]),
            acc as int == (if neg {
                -digits_value(digits.take(i - start))
            } else {
                digits_value(digits.take(i - start))
            }),
        decreases n - i,
    {
        let c = text.get_char(i);
        let cu = c as u32;
        if cu < 48 || cu > 57 {
            assert(digits[i - start] == c);
            assert(!is_ascii_digit(c));
            assert(!all_digits(digits));
            assert(decimal_i64(text@) is None);
            return None;
        }
        let d: i128 = (cu - 48) as i128;
        let ghost k = i - start;
        assert(digits.take(k + 1).drop_last() =~= digits.take(k));
        assert(digits.take(k + 1).last() == c);
        let next: i128 = if neg {
            acc as i128 * 10 - d
        } else {
            acc as i128 * 10 + d
        };
        if next < i64::MIN as i128 || next > i64::MAX as i128 {
            proof {
                if all_digits(digits) {
                    lemma_digits_prefix(digits, k + 1);
                    assert(all_digits(digits.take(k + 1)));
                    lemma_digits_nonneg(digits.take(k + 1));
                    assert(digits_value(digits.take(k + 1)) == digits_value(digits.take(k)) * 10 + (c as int - '0' as int));
                    assert(next == (if neg { -digits_value(digits.take(k + 1)) } else { digits_value(digits.take(k + 1)) }));
                    let value = if text@.len() > 0 && text@[0] == '-' {
                        -digits_value(digits)
                    } else {
                        digits_value(digits)
                    };
                    if neg {
                        assert(value <= next);
                    } else {
                        assert(value >= next);
                    }
                    assert(next < i64::MIN || next > i64::MAX);
                    assert(!(i64::MIN <= value <= i64::MAX));
                }
                assert(decimal_i64(text@) is None);
            }
            return None;
        }
        acc = next as i64;
        i = i + 1;
    }
    assert(digits.take(n - start) =~= digits);
    Some(acc)
}

/// The value of the first attribute named `key`.
pub open spec fn attr_value(attrs: Seq<(String, String)>, key: Seq<char>) -> Option<String>
    decreases attrs.len(),
{
    if attrs.len() == 0 {
        None
    } else if attrs[0].0@ == key {
        Some(attrs[0].1)
    } else {
        attr_value(attrs.drop_first(), key)
    }
}

fn find_attr(attrs: &[(String, String)], key: &str) -> (value: Option<String>)
    ensures
        value == attr_value(attrs@, key@),
{
    let mut i: usize = 0;
    assert(attrs@.skip(0) =~= attrs@);
    while i < attrs.len()
        invariant
            i <= attrs@.len(),
            attr_value(attrs@, key@) == attr_value(attrs@.skip(i as int), key@),
        decreases attrs@.len() - i,
    {
        assert(attrs@.skip(i as int)[0] == attrs@[i as int]);
        assert(attrs@.skip(i as int).drop_first() =~= attrs@.skip(i + 1));
        if text_is(&attrs[i].0, key) {
            return Some(attrs[i].1.clone());
        }
        i = i + 1;
    }
    None
}

/// The attributes of the `<bounds>` element, as written.
#[derive(Debug)]
pub struct BoundsAttrs {
    pub min_lat: Option<String>,
    pub max_lat: Option<String>,
    pub min_lon: Option<String>,
    pub max_lon: Option<String>,
}

/// The state of an OSM reader between events.
pub struct DocState {
    pub ways: CollectorView,
    pub nodes: Seq<(i64, String, String)>,
    pub bounds: Option<BoundsAttrs>,
}

/// The bounds a `<bounds>` start tag with attributes `attrs` gives.
pub open spec fn bounds_of(attrs: Seq<(String, String)>) -> BoundsAttrs {
    BoundsAttrs {
        min_lat: attr_value(attrs, "minlat"@),
        max_lat: attr_value(attrs, "maxlat"@),
        min_lon: attr_value(attrs, "minlon"@),
        max_lon: attr_value(attrs, "maxlon"@),
    }
}

/// The node a `<node>` start tag with attributes `attrs` gives: its id
/// (which must be a decimal `i64`) and its `lat` and `lon` texts, if all
/// three are there.
pub open spec fn node_of(attrs: Seq<(String, String)>) -> Option<(i64, String, String)> {
    match (attr_value(attrs, "id"@), attr_value(attrs, "lat"@), attr_value(attrs, "lon"@)) {
        (Some(id), Some(lat), Some(lon)) => match decimal_i64(id@) {
            Some(n) => Some((n, lat, lon)),
            None => None,
        },
        _ => None,
    }
}

/// One reader step. A start tag `bounds` replaces the bounds; `node` adds
/// a node; `way` starts a way; `nd` adds its `ref` if that is a decimal
/// `i64`; `tag` adds its `k` and `v` if both are there. An end tag `way`
/// ends the way. Every other event changes nothing.
pub open spec fn doc_step(st: DocState, event: OsmEvent) -> DocState {
    match event {
        OsmEvent::Start { name, attrs } => {
            if name@ == "bounds"@ {
                DocState { bounds: Some(bounds_of(attrs@)), ..st }
            } else if name@ == "node"@ {
                match node_of(attrs@) {
                    Some(n) => DocState { nodes: st.nodes.push(n), ..st },
                    None => st,
                }
            } else if name@ == "way"@ {
                DocState { ways: st.ways.started(), ..st }
            } else if name@ == "nd"@ {
                match attr_value(attrs@, "ref"@) {
                    Some(r) => match decimal_i64(r@) {
                        Some(n) => DocState { ways: st.ways.with_ref(n), ..st },
                        None => st,
                    },
                    None => st,
                }
            } else if name@ == "tag"@ {
                match (attr_value(attrs@, "k"@), attr_value(attrs@, "v"@)) {
                    (Some(k), Some(v)) => DocState { ways: st.ways.with_tag(k, v), ..st },
                    _ => st,
                }
            } else {
                st
            }
        },
        OsmEvent::End { name } => {
            if name@ == "way"@ {
                DocState { ways: st.ways.ended(), ..st }
            } else {
                st
            }
        },
        _ => st,
    }
}

/// The reader state after `events`, from the start of a document.
pub open spec fn doc_after(events: Seq<OsmEvent>) -> DocState
    decreases events.len(),
{
    if events.len() == 0 {
        DocState { ways: CollectorView::initial(), nodes: Seq::empty(), bounds: None }
    } else {
        doc_step(doc_after(events.drop_last()), events.last())
    }
}

/// The abstract value of an OSM document.
pub struct OsmDocView {
    pub ways: Seq<WayView>,
    pub nodes: Seq<(i64, String, String)>,
    pub bounds: Option<BoundsAttrs>,
}

/// What an OSM document with `events` holds once all are read.
pub open spec fn osm_doc(events: Seq<OsmEvent>) -> OsmDocView {
    let st = doc_after(events);
    OsmDocView { ways: st.ways.ways, nodes: st.nodes, bounds: st.bounds }
}

/// The drawable content of an OSM document: its classified ways in
/// document order, its nodes (id, latitude text, longitude text) in
/// document order, and the attributes of its last `<bounds>` element.
pub struct OsmDoc {
    pub ways: Vec<Way>,
    pub nodes: Vec<(i64, String, String)>,
    pub bounds: Option<BoundsAttrs>,
}

impl View for OsmDoc {
    type V = OsmDocView;

    open spec fn view(&self) -> OsmDocView {
        OsmDocView {
            ways: self.ways@.map_values(|w: Way| w@),
            nodes: self.nodes@,
            bounds: self.bounds,
        }
    }
}

/// Reads an OSM document from its events.
pub fn collect_osm(events: &[OsmEvent]) -> (doc: OsmDoc)
    ensures
        doc@ == osm_doc(events@),
{
    let mut collector = WayCollector::new();
    let mut nodes: Vec<(i64, String, String)> = Vec::new();
    let mut bounds: Option<BoundsAttrs> = None;
    let mut i: usize = 0;
    while i < events.len()
        invariant
            i <= events@.len(),
            collector@ == doc_after(events@.take(i as int)).ways,
            nodes@ == doc_after(events@.take(i as int)).nodes,
            bounds == doc_after(events@.take(i as int)).bounds,
        decreases events@.len() - i,
    {
        assert(events@.take(i + 1).drop_last() =~= events@.take(i as int));
        assert(events@.take(i + 1).last() == events@[i as int]);
        match &events[i] {
            OsmEvent::Start { name, attrs } => {
                if text_is(name, "bounds") {
                    bounds = Some(
                        BoundsAttrs {
                            min_lat: find_attr(attrs.as_slice(), "minlat"),
                            max_lat: find_attr(attrs.as_slice(), "maxlat"),
                            min_lon: find_attr(attrs.as_slice(), "minlon"),
                            max_lon: find_attr(attrs.as_slice(), "maxlon"),
                        },
                    );
                } else if text_is(name, "node") {
                    let id = find_attr(attrs.as_slice(), "id");
                    let lat = find_attr(attrs.as_slice(), "lat");
                    let lon = find_attr(attrs.as_slice(), "lon");
                    match (id, lat, lon) {
                        (Some(id), Some(lat), Some(lon)) => {
                            match parse_i64(id.as_str()) {
                                Some(n) => {
                                    nodes.push((n, lat, lon));
                                },
                                None => {},
                            }
                        },
                        _ => {},
                    }
                } else if text_is(name, "way") {
                    collector.start_way();
                } else if text_is(name, "nd") {
                    match find_attr(attrs.as_slice(), "ref") {
                        Some(r) => match parse_i64(r.as_str()) {
                            Some(n) => collector.add_ref(n),
                            None => {},
                        },
                        None => {},
                    }
                } else if text_is(name, "tag") {
                    let k = find_attr(attrs.as_slice(), "k");
                    let v = find_attr(attrs.as_slice(), "v");
                    match (k, v) {
                        (Some(k), Some(v)) => collector.add_tag(k, v),
                        _ => {},
                    }
                }
            },
            OsmEvent::End { name } => {
                if text_is(name, "way") {
                    collector.end_way();
                }
            },
            _ => {},
        }
        i = i + 1;
    }
    assert(events@.take(events@.len() as int) =~= events@);
    OsmDoc { ways: collector.into_ways(), nodes, bounds }
}

/// Reads an OSM XML document: its ways, classified and filtered as
/// `WayCollector` does, its nodes and its bounds attributes.
pub fn parse_osm(xml: &str) -> (doc: OsmDoc)
    ensures
        doc@ == osm_doc(xml_events_of(xml@)),
{
    let events = xml_events(xml);
    collect_osm(events.as_slice())
}

} // verus!

verus! {

/// Decimal reading covers the whole `i64` range: one or more ASCII digits
/// read as their value whenever it is at most `i64::MAX`, and after a `-`
/// as its negation down to `i64::MIN`; a `+` changes nothing.
pub proof fn lemma_decimal_i64_whole_range(d: Seq<char>)
    requires
        d.len() > 0,
        forall|i: int| 0 <= i < d.len() ==> '0' <= #[trigger] d[i] && d[i] <= '9',
    ensures
        digits_value(d) <= i64::MAX ==> decimal_i64(d) == Some(digits_value(d) as i64),
        digits_value(d) <= 0x8000_0000_0000_0000 ==> decimal_i64(seq!['-'] + d) == Some(
            (-digits_value(d)) as i64,
        ),
        decimal_i64(seq!['+'] + d) == decimal_i64(d),
        digits_value(d) > i64::MAX ==> decimal_i64(d) is None,
{
    lemma_digits_nonneg(d);
    assert((seq!['-'] + d).drop_first() =~= d);
    assert((seq!['+'] + d).drop_first() =~= d);
    assert(unsigned_part(d) == d);
}

/// A `<node>` start tag whose `id` is any decimal `i64` and which has `lat`
/// and `lon` attributes adds exactly the node `(id, lat, lon)` to the
/// document, whatever came before; ways and bounds are untouched. A `<node>`
/// tag missing one of the three attributes, or whose id is not a decimal
/// `i64`, adds nothing.
pub proof fn lemma_node_tag_adds_node(
    events: Seq<OsmEvent>,
    name: String,
    attrs: Vec<(String, String)>,
)
    requires
        name@ == "node"@,
    ensures
        ({
            let before = osm_doc(events);
            let after = osm_doc(events.push(OsmEvent::Start { name, attrs }));
            &&& after.ways == before.ways
            &&& after.bounds == before.bounds
            &&& (attr_value(attrs@, "id"@) is Some && decimal_i64(attr_value(attrs@, "id"@)->0@)
                is Some && attr_value(attrs@, "lat"@) is Some && attr_value(attrs@, "lon"@) is Some)
                ==> after.nodes == before.nodes.push(
                (
                    decimal_i64(attr_value(attrs@, "id"@)->0@)->0,
                    attr_value(attrs@, "lat"@)->0,
                    attr_value(attrs@, "lon"@)->0,
                ),
            )
            &&& (attr_value(attrs@, "id"@) is None || attr_value(attrs@, "lat"@) is None
                || attr_value(attrs@, "lon"@) is None || decimal_i64(attr_value(attrs@, "id"@)->0@)
                is None) ==> after.nodes == before.nodes
        }),
{
    reveal_strlit("node");
    reveal_strlit("bounds");
    assert("node"@[0] != "bounds"@[0]);
    let evs = events.push(OsmEvent::Start { name, attrs });
    assert(evs.drop_last() =~= events);
}

} // verus!
