use protocol::lab::osm::{classify, WayCollector, WayKind};
use protocol::lab::osm_xml::parse_osm;
use protocol::lab::region::{
    default_overpass_endpoint, default_overpass_features, hillshade_overlay_files, name_order,
    osm_overlay_files, pick_default_index, OsmSource, Overlay,
};
use protocol::lab::sidebar::{build_rows, hiker_order, hiker_priority, newest_rx, Row, TagSummary};

fn tag(k: &str, v: &str) -> (String, String) {
    (k.to_string(), v.to_string())
}

#[test]
fn classify_major_and_minor_highways() {
    for v in ["primary", "secondary", "tertiary", "residential", "living_street"] {
        assert_eq!(classify(&[tag("highway", v)]), Some(WayKind::HighwayMajor), "{v}");
    }
    for v in ["track", "path", "footway", "motorway", ""] {
        assert_eq!(classify(&[tag("highway", v)]), Some(WayKind::HighwayMinor), "{v}");
    }
}

#[test]
fn classify_water_kinds() {
    assert_eq!(classify(&[tag("waterway", "stream")]), Some(WayKind::Water));
    assert_eq!(classify(&[tag("natural", "water")]), Some(WayKind::Water));
    assert_eq!(classify(&[tag("natural", "wetland")]), Some(WayKind::Water));
    assert_eq!(classify(&[tag("landuse", "reservoir")]), Some(WayKind::Water));
    assert_eq!(classify(&[tag("landuse", "basin")]), Some(WayKind::Water));
    assert_eq!(classify(&[tag("natural", "wood")]), None);
    assert_eq!(classify(&[tag("landuse", "brownfield")]), None);
    assert_eq!(classify(&[tag("name", "Waterschei")]), None);
    assert_eq!(classify(&[]), None);
}

#[test]
fn classify_takes_first_deciding_tag() {
    // Non-deciding tags are skipped; the first deciding one wins.
    let tags = [
        tag("name", "x"),
        tag("natural", "wood"),
        tag("waterway", "ditch"),
        tag("highway", "primary"),
    ];
    assert_eq!(classify(&tags), Some(WayKind::Water));
    let tags = [tag("highway", "path"), tag("natural", "water")];
    assert_eq!(classify(&tags), Some(WayKind::HighwayMinor));
}

#[test]
fn collector_keeps_classified_ways_with_two_refs() {
    let mut c = WayCollector::new();
    // A closed water ring.
    c.start_way();
    for r in [1i64, 2, 3, 1] {
        c.add_ref(r);
    }
    c.add_tag("natural".into(), "water".into());
    c.end_way();
    // An open major road.
    c.start_way();
    c.add_ref(10);
    c.add_ref(11);
    c.add_tag("highway".into(), "primary".into());
    c.end_way();
    // Unclassified: dropped.
    c.start_way();
    c.add_ref(20);
    c.add_ref(21);
    c.add_tag("building".into(), "yes".into());
    c.end_way();
    // Only one reference: dropped.
    c.start_way();
    c.add_ref(30);
    c.add_tag("waterway".into(), "stream".into());
    c.end_way();
    // Refs and tags outside a way, and a stray end, are ignored.
    c.add_ref(99);
    c.add_tag("highway".into(), "primary".into());
    c.end_way();

    let ways = c.into_ways();
    assert_eq!(ways.len(), 2);
    assert_eq!(ways[0].refs, vec![1, 2, 3, 1]);
    assert_eq!(ways[0].kind, WayKind::Water);
    assert!(ways[0].closed);
    assert_eq!(ways[1].refs, vec![10, 11]);
    assert_eq!(ways[1].kind, WayKind::HighwayMajor);
    assert!(!ways[1].closed);
}

#[test]
fn start_way_discards_unfinished_way() {
    let mut c = WayCollector::new();
    c.start_way();
    c.add_ref(1);
    c.add_tag("waterway".into(), "river".into());
    c.start_way();
    c.add_ref(5);
    c.add_ref(6);
    c.add_tag("highway".into(), "track".into());
    c.end_way();
    let ways = c.into_ways();
    assert_eq!(ways.len(), 1);
    assert_eq!(ways[0].refs, vec![5, 6]);
    assert_eq!(ways[0].kind, WayKind::HighwayMinor);
}

#[test]
fn overpass_defaults() {
    assert_eq!(
        default_overpass_features(),
        vec![
            "highway",
            "waterway",
            "natural=water",
            "natural=wetland",
            "landuse=reservoir",
            "landuse=basin",
        ]
    );
    assert_eq!(
        default_overpass_endpoint(),
        "https://overpass-api.de/api/interpreter"
    );
}

fn overlays() -> Vec<Overlay> {
    vec![
        Overlay::Osm(OsmSource::Overpass {
            features: default_overpass_features(),
            endpoint: default_overpass_endpoint(),
        }),
        Overlay::Hillshade {
            file: "hillshade.pmtiles".into(),
            source: "dhmv_ii_dsm_1m".into(),
        },
        Overlay::Osm(OsmSource::File {
            file: "hand.osm".into(),
        }),
        Overlay::Hillshade {
            file: "second.pmtiles".into(),
            source: "x".into(),
        },
    ]
}

#[test]
fn overlay_files_in_declaration_order() {
    let o = overlays();
    assert_eq!(osm_overlay_files(&o), vec!["osm-overpass.osm", "hand.osm"]);
    assert_eq!(
        hillshade_overlay_files(&o),
        vec!["hillshade.pmtiles", "second.pmtiles"]
    );
    assert!(osm_overlay_files(&[]).is_empty());
    assert!(hillshade_overlay_files(&o[..1]).is_empty());
}

#[test]
fn default_region_prefers_test_area() {
    let names = |v: &[&str]| v.iter().map(|s| s.to_string()).collect::<Vec<_>>();
    assert_eq!(
        pick_default_index(&names(&["alpha", "terril-waterschei", "zulu"])),
        Some(1)
    );
    assert_eq!(
        pick_default_index(&names(&["terril-waterschei", "terril-waterschei"])),
        Some(0)
    );
    assert_eq!(pick_default_index(&names(&["alpha", "beta"])), Some(0));
    assert_eq!(pick_default_index(&[]), None);
}

#[test]
fn hiker_priority_is_mission_first() {
    assert_eq!(hiker_priority(true, false, 5000), 0);
    assert_eq!(hiker_priority(true, true, 0), 0);
    assert_eq!(hiker_priority(false, false, 0), 1);
    assert_eq!(hiker_priority(false, true, 660), 2);
    assert_eq!(hiker_priority(false, true, 1320), 2);
    assert_eq!(hiker_priority(false, true, 659), 3);
    assert_eq!(hiker_priority(false, true, 0), 3);
}

#[test]
fn hiker_rows_sorted_by_rank_then_node_id_stably() {
    // (rank, node id) per tag, in scenario order.
    let keys = [(3u8, 1u8), (0, 2), (2, 3), (1, 4), (3, 0), (0, 2)];
    assert_eq!(hiker_order(&keys), vec![1, 5, 3, 2, 4, 0]);
    assert!(hiker_order(&[]).is_empty());
    assert_eq!(hiker_order(&[(7, 7)]), vec![0]);
}

#[test]
fn newest_rx_is_smallest_age() {
    assert_eq!(newest_rx(&[]), None);
    assert_eq!(newest_rx(&[700, 42, 1400]), Some((42, true)));
    assert_eq!(newest_rx(&[330, 900]), Some((330, false)));
    assert_eq!(newest_rx(&[329]), Some((329, true)));
}

#[test]
fn default_selectors_are_all_classified() {
    for sel in default_overpass_features() {
        match sel.split_once('=') {
            Some((k, v)) => assert!(classify(&[tag(k, v)]).is_some(), "{sel}"),
            None => {
                for v in ["", "x", "primary", "stream"] {
                    assert!(classify(&[tag(&sel, v)]).is_some(), "{sel}={v}");
                }
            }
        }
    }
}

const SAMPLE_OSM: &str = r#"<?xml version="1.0" encoding="UTF-8"?>
<osm version="0.6">
  <bounds minlat="50.9900" minlon="5.5000" maxlat="51.0100" maxlon="5.5300"/>
  <node id="1" lat="51.0" lon="5.51"/>
  <node id="2" lat="51.001" lon="5.512"/>
  <node id="x" lat="51.002" lon="5.513"/>
  <node id="3" lat="51.003"/>
  <nd ref="1"/>
  <way id="10">
    <nd ref="1"/>
    <nd ref="+2"/>
    <nd ref="oops"/>
    <nd ref="-3"/>
    <nd ref="1"/>
    <tag k="name" v="Pond"/>
    <tag k="natural" v="water"/>
  </way>
  <way id="11">
    <nd ref="5"/>
    <nd ref="6"/>
    <tag k="highway" v="residential"/>
  </way>
  <way id="12">
    <nd ref="7"/>
    <nd ref="8"/>
    <tag k="building" v="yes"/>
  </way>
  <way id="13">
    <nd ref="9223372036854775808"/>
    <nd ref="9"/>
    <tag k="waterway"/>
    <tag k="highway" v="path"/>
  </way>
</osm>"#;

#[test]
fn parse_osm_reads_ways_nodes_and_bounds() {
    let doc = parse_osm(SAMPLE_OSM);
    let b = doc.bounds.as_ref().expect("bounds");
    assert_eq!(b.min_lat.as_deref(), Some("50.9900"));
    assert_eq!(b.max_lat.as_deref(), Some("51.0100"));
    assert_eq!(b.min_lon.as_deref(), Some("5.5000"));
    assert_eq!(b.max_lon.as_deref(), Some("5.5300"));
    let ids: Vec<i64> = doc.nodes.iter().map(|n| n.0).collect();
    assert_eq!(ids, vec![1, 2]);
    assert_eq!(doc.nodes[1].1, "51.001");
    assert_eq!(doc.nodes[1].2, "5.512");
    assert_eq!(doc.ways.len(), 2);
    assert_eq!(doc.ways[0].refs, vec![1, 2, -3, 1]);
    assert_eq!(doc.ways[0].kind, WayKind::Water);
    assert!(doc.ways[0].closed);
    assert_eq!(doc.ways[1].refs, vec![5, 6]);
    assert_eq!(doc.ways[1].kind, WayKind::HighwayMajor);
    // Way 13: the out-of-range ref is skipped, leaving one ref, so it is
    // dropped even though `highway=path` classifies it.
}

#[test]
fn parse_osm_of_broken_or_empty_text() {
    let doc = parse_osm("");
    assert!(doc.ways.is_empty() && doc.nodes.is_empty() && doc.bounds.is_none());
    let doc = parse_osm("<osm><way><nd ref=\"1\"/><nd ref=\"2\"/><tag k=\"waterway\" v=\"x\"/></way><way");
    assert_eq!(doc.ways.len(), 1);
    assert_eq!(doc.ways[0].refs, vec![1, 2]);
}

#[test]
fn node_rows_are_tags_mission_first_then_relay_then_gateway() {
    let t = |node_id, sos, gps_valid, last_seen_secs| TagSummary {
        node_id,
        sos,
        gps_valid,
        last_seen_secs,
    };
    // The multi-tag scenario: normal, SOS, stale, no fix.
    let tags = [
        t(1, false, true, 5),
        t(2, true, true, 42),
        t(3, false, true, 700),
        t(4, false, false, 30),
    ];
    assert_eq!(
        build_rows(&tags),
        vec![
            Row::Hiker(1),
            Row::Hiker(3),
            Row::Hiker(2),
            Row::Hiker(0),
            Row::Relay,
            Row::Gateway
        ]
    );
    assert_eq!(build_rows(&[]), vec![Row::Relay, Row::Gateway]);
    // Equal rank: by node id, then input order.
    let tags = [t(9, false, true, 0), t(3, false, true, 10), t(3, false, true, 20)];
    assert_eq!(
        build_rows(&tags),
        vec![Row::Hiker(1), Row::Hiker(2), Row::Hiker(0), Row::Relay, Row::Gateway]
    );
}

#[test]
fn region_names_sorted_stably() {
    let names = |v: &[&str]| v.iter().map(|s| s.to_string()).collect::<Vec<_>>();
    assert_eq!(
        name_order(&names(&["terril-waterschei", "alpha", "zulu", "alpha", "alp", "Zeta", "é"])),
        vec![5, 4, 1, 3, 0, 2, 6]
    );
    assert!(name_order(&[]).is_empty());
    // Same order as the standard string ordering.
    let v = names(&["b", "a", "ab", "", "aa", "ä", "B"]);
    let mut expect: Vec<usize> = (0..v.len()).collect();
    expect.sort_by(|&i, &j| v[i].cmp(&v[j]));
    assert_eq!(name_order(&v), expect);
}

#[test]
fn node_refs_read_as_decimal_i64() {
    let doc = parse_osm(
        "<osm><way>\
         <nd ref=\"-9223372036854775808\"/><nd ref=\"9223372036854775807\"/>\
         <nd ref=\"+0\"/><nd ref=\"007\"/><nd ref=\"-\"/><nd ref=\"+\"/><nd ref=\"\"/>\
         <nd ref=\" 1\"/><nd ref=\"1.0\"/><nd ref=\"-9223372036854775809\"/>\
         <nd ref=\"99999999999999999999\"/><nd ref=\"\u{0661}\"/>\
         <tag k=\"waterway\" v=\"ditch\"/></way></osm>",
    );
    assert_eq!(doc.ways.len(), 1);
    assert_eq!(doc.ways[0].refs, vec![i64::MIN, i64::MAX, 0, 7]);
}
