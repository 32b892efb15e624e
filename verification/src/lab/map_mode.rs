use vstd::prelude::*;

verus! {

/// The map backgrounds the kiosk lab can draw.
#[derive(Debug, Clone, Copy, PartialEq, Eq, Structural)]
pub enum MapMode {
    FakeGrid,
    OsmVector,
    PmTiles,
}

/// The text shown for a map mode.
pub open spec fn map_mode_label(mode: MapMode) -> Seq<char> {
    match mode {
        MapMode::FakeGrid => "Fake grid"@,
        MapMode::OsmVector => "OSM vector"@,
        MapMode::PmTiles => "PMTiles (walkers)"@,
    }
}

impl MapMode {
    pub fn label(&self) -> (s: &'static str)
        ensures
            s@ == map_mode_label(*self),
    {
        match self {
            MapMode::FakeGrid => "Fake grid",
            MapMode::OsmVector => "OSM vector",
            MapMode::PmTiles => "PMTiles (walkers)",
        }
    }

    /// Every map mode, in menu order.
    pub fn all() -> (all: &'static [MapMode])
        ensures
            all@ == seq![MapMode::FakeGrid, MapMode::OsmVector, MapMode::PmTiles],
    {
        &[MapMode::FakeGrid, MapMode::OsmVector, MapMode::PmTiles]
    }
}

/// What a drag on the map moves: the node at an index into the scenario's
/// node list, or the view itself.
#[derive(Debug, Clone, Copy, PartialEq, Eq, Structural)]
pub enum DragTarget {
    Node(usize),
    /// Empty-area drag, used to pan the viewport.
    Pan,
}

} // verus!
