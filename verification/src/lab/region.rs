use vstd::prelude::*;
use vstd::string::{StrSliceExecFns, StringExecFns};

use crate::lab::osm::tag_decision;

verus! {

/// Where the features of an `[[overlays]] kind = "osm"` entry come from.
#[derive(Debug, Clone)]
pub enum OsmSource {
    /// Hand-drawn OSM XML committed next to the region; `file` is relative
    /// to the region directory.
    File { file: String },
    /// OSM features fetched from the Overpass API at bake time and written
    /// to the region's `osm-overpass.osm`. Both fields are producer-side.
    Overpass { features: Vec<String>, endpoint: String },
}

/// One `[[overlays]]` entry of a region descriptor.
#[derive(Debug, Clone)]
pub enum Overlay {
    /// An OSM XML overlay drawn over the basemap.
    Osm(OsmSource),
    /// A hillshade raster archive; `file` is relative to the region
    /// directory and `source` names the bake-recipe input.
    Hillshade { file: String, source: String },
}

/// The OSM feature selectors fetched when an Overpass overlay names none:
/// each a tag key, matching every value, or a key with one value.
pub open spec fn default_selectors() -> Seq<(Seq<char>, Option<Seq<char>>)> {
    seq![
        ("highway"@, None),
        ("waterway"@, None),
        ("natural"@, Some("water"@)),
        ("natural"@, Some("wetland"@)),
        ("landuse"@, Some("reservoir"@)),
        ("landuse"@, Some("basin"@)),
    ]
}

/// The text of a selector: the bare key, or `key=value`.
pub open spec fn selector_text(sel: (Seq<char>, Option<Seq<char>>)) -> Seq<char> {
    match sel.1 {
        None => sel.0,
        Some(v) => sel.0 + "="@ + v,
    }
}

/// The selector fetches the tag `k=v`.
pub open spec fn selector_matches(sel: (Seq<char>, Option<Seq<char>>), k: Seq<char>, v: Seq<char>) -> bool {
    &&& sel.0 == k
    &&& (sel.1 is None || sel.1 == Some(v))
}

/// The texts of the default selectors, in order.
pub open spec fn default_features() -> Seq<Seq<char>> {
    default_selectors().map_values(|sel: (Seq<char>, Option<Seq<char>>)| selector_text(sel))
}

/// The default selectors mirror the way classifier: every tag that a
/// default selector fetches gives its way a kind, and every tag that gives
/// a way a kind is fetched by a default selector. So fetched features are
/// drawn like hand-drawn ones, and nothing drawable is left unfetched.
pub proof fn lemma_default_selectors_mirror_classifier()
    ensures
        forall|i: int, k: Seq<char>, v: Seq<char>|
            0 <= i < default_selectors().len() && selector_matches(
                #[trigger] default_selectors()[i],
                k,
                v,
            ) ==> #[trigger] tag_decision(k, v) is Some,
        forall|k: Seq<char>, v: Seq<char>|
            #[trigger] tag_decision(k, v) is Some ==> exists|i: int|
                0 <= i < default_selectors().len() && selector_matches(
                    #[trigger] default_selectors()[i],
                    k,
                    v,
                ),
{
    let sels = default_selectors();
    assert forall|k: Seq<char>, v: Seq<char>| #[trigger] tag_decision(k, v) is Some implies exists|i: int|
        0 <= i < sels.len() && selector_matches(#[trigger] sels[i], k, v) by {
        if k == "highway"@ {
            assert(selector_matches(sels[0], k, v));
        } else if k == "waterway"@ {
            assert(selector_matches(sels[1], k, v));
        } else if k == "natural"@ && v == "water"@ {
            assert(selector_matches(sels[2], k, v));
        } else if k == "natural"@ && v == "wetland"@ {
            assert(selector_matches(sels[3], k, v));
        } else if k == "landuse"@ && v == "reservoir"@ {
            assert(selector_matches(sels[4], k, v));
        } else {
            assert(selector_matches(sels[5], k, v));
        }
    }
}

/// Default OSM feature selectors for an `osm` overlay with
/// `source = "overpass"`; they mirror the way classifier (see
/// `lemma_default_selectors_mirror_classifier`), so fetched features are
/// drawn like hand-drawn ones.
pub fn default_overpass_features() -> (features: Vec<String>)
    ensures
        features@.map_values(|s: String| s@) == default_features(),
{
    let mut features: Vec<String> = Vec::new();
    features.push(String::from_str("highway"));
    features.push(String::from_str("waterway"));
    features.push(String::from_str("natural=water"));
    features.push(String::from_str("natural=wetland"));
    features.push(String::from_str("landuse=reservoir"));
    features.push(String::from_str("landuse=basin"));
    proof {
        reveal_strlit("=");
        reveal_strlit("natural");
        reveal_strlit("landuse");
        reveal_strlit("water");
        reveal_strlit("wetland");
        reveal_strlit("reservoir");
        reveal_strlit("basin");
        reveal_strlit("natural=water");
        reveal_strlit("natural=wetland");
        reveal_strlit("landuse=reservoir");
        reveal_strlit("landuse=basin");
        assert("natural=water"@ =~= "natural"@ + "="@ + "water"@);
        assert("natural=wetland"@ =~= "natural"@ + "="@ + "wetland"@);
        assert("landuse=reservoir"@ =~= "landuse"@ + "="@ + "reservoir"@);
        assert("landuse=basin"@ =~= "landuse"@ + "="@ + "basin"@);
    }
    assert(features@.map_values(|s: String| s@) =~= default_features());
    features
}

/// Default Overpass API endpoint: the public instance.
pub fn default_overpass_endpoint() -> (endpoint: String)
    ensures
        endpoint@ == "https://overpass-api.de/api/interpreter"@,
{
    String::from_str("https://overpass-api.de/api/interpreter")
}

/// The file, relative to the region directory, that an overlay entry draws
/// as OSM vectors: the named file for a hand-drawn source, the fixed
/// `osm-overpass.osm` for a fetched one, none for a hillshade.
pub open spec fn osm_file_of(o: Overlay) -> Option<Seq<char>> {
    match o {
        Overlay::Osm(OsmSource::File { file }) => Some(file@),
        Overlay::Osm(OsmSource::Overpass { .. }) => Some("osm-overpass.osm"@),
        Overlay::Hillshade { .. } => None,
    }
}

/// The OSM files of `overlays`, in declaration order.
pub open spec fn osm_files(overlays: Seq<Overlay>) -> Seq<Seq<char>>
    decreases overlays.len(),
{
    if overlays.len() == 0 {
        Seq::empty()
    } else {
        let rest = osm_files(overlays.drop_last());
        match osm_file_of(overlays.last()) {
            Some(f) => rest.push(f),
            None => rest,
        }
    }
}

/// The hillshade file of an overlay entry, if it is one.
pub open spec fn hillshade_file_of(o: Overlay) -> Option<Seq<char>> {
    match o {
        Overlay::Hillshade { file, .. } => Some(file@),
        Overlay::Osm(_) => None,
    }
}

/// The hillshade files of `overlays`, in declaration order.
pub open spec fn hillshade_files(overlays: Seq<Overlay>) -> Seq<Seq<char>>
    decreases overlays.len(),
{
    if overlays.len() == 0 {
        Seq::empty()
    } else {
        let rest = hillshade_files(overlays.drop_last());
        match hillshade_file_of(overlays.last()) {
            Some(f) => rest.push(f),
            None => rest,
        }
    }
}

/// The files, relative to the region directory, of every OSM overlay of a
/// region, in declaration order (later ones are drawn on top). Which of
/// them exist on disk is for the caller to find out.
pub fn osm_overlay_files(overlays: &[Overlay]) -> (files: Vec<String>)
    ensures
        files@.map_values(|s: String| s@) == osm_files(overlays@),
{
    let mut files: Vec<String> = Vec::new();
    let mut i: usize = 0;
    while i < overlays.len()
        invariant
            i <= overlays@.len(),
            files@.map_values(|s: String| s@) == osm_files(overlays@.take(i as int)),
        decreases overlays@.len() - i,
    {
        match &overlays[i] {
            Overlay::Osm(OsmSource::File { file }) => {
                files.push(file.clone());
            },
            Overlay::Osm(OsmSource::Overpass { .. }) => {
                files.push(String::from_str("osm-overpass.osm"));
            },
            Overlay::Hillshade { .. } => {},
        }
        assert(overlays@.take(i + 1).drop_last() =~= overlays@.take(i as int));
        assert(files@.map_values(|s: String| s@) =~= osm_files(overlays@.take(i + 1)));
        i = i + 1;
    }
    assert(overlays@.take(overlays@.len() as int) =~= overlays@);
    files
}

/// The files, relative to the region directory, of every hillshade overlay
/// of a region, in declaration order. The first that exists on disk is the
/// one drawn.
pub fn hillshade_overlay_files(overlays: &[Overlay]) -> (files: Vec<String>)
    ensures
        files@.map_values(|s: String| s@) == hillshade_files(overlays@),
{
    let mut files: Vec<String> = Vec::new();
    let mut i: usize = 0;
    while i < overlays.len()
        invariant
            i <= overlays@.len(),
            files@.map_values(|s: String| s@) == hillshade_files(overlays@.take(i as int)),
        decreases overlays@.len() - i,
    {
        match &overlays[i] {
            Overlay::Hillshade { file, .. } => {
                files.push(file.clone());
            },
            Overlay::Osm(_) => {},
        }
        assert(overlays@.take(i + 1).drop_last() =~= overlays@.take(i as int));
        assert(files@.map_values(|s: String| s@) =~= hillshade_files(overlays@.take(i + 1)));
        i = i + 1;
    }
    assert(overlays@.take(overlays@.len() as int) =~= overlays@);
    files
}

/// The name of the region preferred as the default (the v1a test area).
pub open spec fn preferred_region() -> Seq<char> {
    "terril-waterschei"@
}

/// Picks the default region among regions named `names`: the first one
/// named `terril-waterschei`, else the first one, else none.
pub fn pick_default_index(names: &[String]) -> (picked: Option<usize>)
    ensures
        (exists|j: int| 0 <= j < names@.len() && #[trigger] names@[j]@ == preferred_region())
            ==> {
            &&& picked is Some
            &&& picked->0 < names@.len()
            &&& names@[picked->0 as int]@ == preferred_region()
            &&& forall|j: int| 0 <= j < picked->0 ==> #[trigger] names@[j]@ != preferred_region()
        },
        !(exists|j: int| 0 <= j < names@.len() && #[trigger] names@[j]@ == preferred_region())
            ==> picked == if names@.len() > 0 {
            Some(0usize)
        } else {
            None::<usize>
        },
{
    let preferred = String::from_str("terril-waterschei");
    let mut i: usize = 0;
    while i < names.len()
        invariant
            i <= names@.len(),
            preferred@ == preferred_region(),
            forall|j: int| 0 <= j < i ==> #[trigger] names@[j]@ != preferred_region(),
        decreases names@.len() - i,
    {
        if names[i] == preferred {
            return Some(i);
        }
        i = i + 1;
    }
    if names.len() > 0 {
        Some(0)
    } else {
        None
    }
}

} // verus!

verus! {

/// `a` comes strictly before `b` in lexicographic code-point order (the
/// byte order of their UTF-8 texts): at the first difference `a` has the
/// smaller character, or `a` is a proper prefix of `b`.
pub open spec fn lex_less(a: Seq<char>, b: Seq<char>) -> bool
    decreases a.len(),
{
    if a.len() == 0 {
        b.len() > 0
    } else if b.len() == 0 {
        false
    } else if a[0] != b[0] {
        (a[0] as int) < (b[0] as int)
    } else {
        lex_less(a.drop_first(), b.drop_first())
    }
}

proof fn lemma_lex_total(a: Seq<char>, b: Seq<char>)
    ensures
        !(lex_less(a, b) && lex_less(b, a)),
        a != b ==> lex_less(a, b) || lex_less(b, a),
        !lex_less(a, a),
    decreases a.len(),
{
    if a.len() > 0 && b.len() > 0 {
        lemma_lex_total(a.drop_first(), b.drop_first());
        if a[0] == b[0] && a.drop_first() == b.drop_first() {
            assert forall|k: int| 0 <= k < a.len() implies a[k] == b[k] by {
                if k > 0 {
                    assert(a.drop_first()[k - 1] == b.drop_first()[k - 1]);
                }
            }
            assert(a =~= b);
        }
    } else if a.len() == 0 && b.len() == 0 {
        assert(a =~= b);
    }
    if a.len() > 0 {
        lemma_lex_total(a.drop_first(), a.drop_first());
    }
}

proof fn lemma_lex_trans(a: Seq<char>, b: Seq<char>, c: Seq<char>)
    requires
        lex_less(a, b),
        lex_less(b, c),
    ensures
        lex_less(a, c),
    decreases a.len(),
{
    if a.len() > 0 && b.len() > 0 && c.len() > 0 && a[0] == b[0] && b[0] == c[0] {
        lemma_lex_trans(a.drop_first(), b.drop_first(), c.drop_first());
    }
}

/// Region `i` is listed before region `j`: by name, ties in input order.
pub open spec fn name_before(names: Seq<String>, i: int, j: int) -> bool {
    ||| lex_less(names[i]@, names[j]@)
    ||| (names[i]@ == names[j]@ && i < j)
}

proof fn lemma_name_before_order(names: Seq<String>, a: int, b: int, c: int)
    ensures
        a != b ==> name_before(names, a, b) || name_before(names, b, a),
        !(name_before(names, a, b) && name_before(names, b, a)),
        name_before(names, a, b) && name_before(names, b, c) ==> name_before(names, a, c),
{
    lemma_lex_total(names[a]@, names[b]@);
    lemma_lex_total(names[a]@, names[c]@);
    lemma_lex_total(names[b]@, names[c]@);
    if lex_less(names[a]@, names[b]@) && lex_less(names[b]@, names[c]@) {
        lemma_lex_trans(names[a]@, names[b]@, names[c]@);
    }
}

fn text_less(a: &str, b: &str) -> (less: bool)
    ensures
        less == lex_less(a@, b@),
{
    let na = a.unicode_len();
    let nb = b.unicode_len();
    let mut i: usize = 0;
    assert(a@.skip(0) =~= a@);
    assert(b@.skip(0) =~= b@);
    while i < na && i < nb
        invariant
            na == a@.len(),
            nb == b@.len(),
            i <= na,
            i <= nb,
            lex_less(a@, b@) == lex_less(a@.skip(i as int), b@.skip(i as int)),
        decreases na - i,
    {
        let ca = a.get_char(i);
        let cb = b.get_char(i);
        assert(a@.skip(i as int)[0] == ca);
        assert(b@.skip(i as int)[0] == cb);
        if ca != cb {
            return (ca as u32) < (cb as u32);
        }
        assert(a@.skip(i as int).drop_first() =~= a@.skip(i + 1));
        assert(b@.skip(i as int).drop_first() =~= b@.skip(i + 1));
        i = i + 1;
    }
    i == na && i < nb
}

/// The order in which regions named `names` are listed: a list of indices
/// into `names`, sorted by name with ties kept in input order; each index
/// occurs exactly once.
pub fn name_order(names: &[String]) -> (order: Vec<usize>)
    ensures
        order@.len() == names@.len(),
        forall|i: int| 0 <= i < order@.len() ==> #[trigger] order@[i] < names@.len(),
        forall|i: int, j: int|
            0 <= i < j < order@.len() ==> name_before(
                names@,
                #[trigger] order@[i] as int,
                #[trigger] order@[j] as int,
            ),
{
    let mut order: Vec<usize> = Vec::new();
    let mut i: usize = 0;
    while i < names.len()
        invariant
            i <= names@.len(),
            order@.len() == i,
            forall|q: int| 0 <= q < order@.len() ==> #[trigger] order@[q] < i,
            forall|q: int, r: int|
                0 <= q < r < order@.len() ==> name_before(
                    names@,
                    #[trigger] order@[q] as int,
                    #[trigger] order@[r] as int,
                ),
        decreases names@.len() - i,
    {
        let mut p: usize = 0;
        while p < order.len() && !(text_less(names[i].as_str(), names[order[p]].as_str()))
            invariant
                i < names@.len(),
                p <= order@.len(),
                order@.len() == i,
                forall|q: int| 0 <= q < order@.len() ==> #[trigger] order@[q] < i,
                forall|q: int| 0 <= q < p ==> name_before(names@, #[trigger] order@[q] as int, i as int),
            decreases order@.len() - p,
        {
            proof {
                lemma_name_before_order(names@, order@[p as int] as int, i as int, i as int);
            }
            p = p + 1;
        }
        proof {
            if p < order@.len() {
                assert(name_before(names@, i as int, order@[p as int] as int));
            }
            assert forall|q: int| p <= q < order@.len() implies name_before(
                names@,
                i as int,
                #[trigger] order@[q] as int,
            ) by {
                if q > p {
                    assert(name_before(names@, order@[p as int] as int, order@[q] as int));
                    lemma_name_before_order(names@, i as int, order@[p as int] as int, order@[q] as int);
                }
            }
        }
        let ghost prev = order@;
        order.insert(p, i);
        assert forall|q: int, r: int|
            0 <= q < r < order@.len() implies name_before(
            names@,
            #[trigger] order@[q] as int,
            #[trigger] order@[r] as int,
        ) by {
            if r < p {
                assert(order@[q] == prev[q] && order@[r] == prev[r]);
            } else if r == p {
                assert(order@[q] == prev[q]);
            } else if q < p {
                assert(order@[q] == prev[q] && order@[r] == prev[r - 1]);
                lemma_name_before_order(names@, prev[q] as int, i as int, prev[r - 1] as int);
            } else if q == p {
                assert(order@[r] == prev[r - 1]);
            } else {
                assert(order@[q] == prev[q - 1] && order@[r] == prev[r - 1]);
            }
        }
        i = i + 1;
    }
    order
}

} // verus!
