use vstd::prelude::*;

use crate::lab::freshness::{freshness_for_tag, tag_freshness, Freshness};
use crate::lab::map_mode::MapMode;
use crate::lab::scenario::NodeState;

verus! {

/// Where a node is shown on the map: its current position when it has a
/// fix, else its last valid fix (the ghost marker), else nowhere.
pub open spec fn spec_visible_pos<T>(gps_valid: bool, pos: T, last_valid_fix_pos: Option<T>) -> Option<T> {
    if gps_valid {
        Some(pos)
    } else {
        last_valid_fix_pos
    }
}

/// The position a node is drawn and clicked at.
pub fn visible_pos<T: Copy>(gps_valid: bool, pos: T, last_valid_fix_pos: Option<T>) -> (shown: Option<T>)
    ensures
        shown == spec_visible_pos(gps_valid, pos, last_valid_fix_pos),
{
    if gps_valid {
        Some(pos)
    } else {
        last_valid_fix_pos
    }
}

/// Which position of a node a drag moves.
#[derive(Debug, Clone, Copy, PartialEq, Eq, Structural)]
pub enum DragField {
    /// The current position.
    Pos,
    /// The last valid fix (the ghost marker).
    LastValidFix,
}

/// The position a drag moves: a tag without a fix but with a last valid
/// fix moves its ghost; every other node moves its current position.
pub open spec fn spec_drag_field(is_tag: bool, gps_valid: bool, has_last_valid_fix: bool) -> DragField {
    if is_tag && !gps_valid && has_last_valid_fix {
        DragField::LastValidFix
    } else {
        DragField::Pos
    }
}

pub fn drag_field(is_tag: bool, gps_valid: bool, has_last_valid_fix: bool) -> (field: DragField)
    ensures
        field == spec_drag_field(is_tag, gps_valid, has_last_valid_fix),
{
    if is_tag {
        if gps_valid {
            DragField::Pos
        } else if has_last_valid_fix {
            DragField::LastValidFix
        } else {
            DragField::Pos
        }
    } else {
        DragField::Pos
    }
}

/// The flags that picking a state in the edit panel sets on a tag.
#[derive(Debug, Clone, Copy, PartialEq, Eq, Structural)]
pub struct StateFlags {
    pub sos: bool,
    pub gps_valid: bool,
    pub battery_low: bool,
}

/// Picking a state sets SOS exactly for `Sos`, clears GPS_VALID exactly for
/// `NoFix`, and sets low battery exactly for `LowBattery`.
pub open spec fn spec_state_flags(state: NodeState) -> StateFlags {
    StateFlags {
        sos: state == NodeState::Sos,
        gps_valid: state != NodeState::NoFix,
        battery_low: state == NodeState::LowBattery,
    }
}

pub fn state_flags(state: NodeState) -> (flags: StateFlags)
    ensures
        flags == spec_state_flags(state),
{
    StateFlags {
        sos: state == NodeState::Sos,
        gps_valid: state != NodeState::NoFix,
        battery_low: state == NodeState::LowBattery,
    }
}

/// A click on the map: clicking the selected node clears the selection,
/// clicking another node selects it, and clicking no node clears it.
pub open spec fn spec_click_selection(selected: Option<usize>, hit: Option<usize>) -> Option<usize> {
    match hit {
        Some(i) => if selected == Some(i) {
            None
        } else {
            Some(i)
        },
        None => None,
    }
}

pub fn click_selection(selected: Option<usize>, hit: Option<usize>) -> (after: Option<usize>)
    ensures
        after == spec_click_selection(selected, hit),
{
    match hit {
        Some(i) => match selected {
            Some(j) => if i == j {
                None
            } else {
                Some(i)
            },
            None => Some(i),
        },
        None => None,
    }
}

/// The map mode at start-up: the PMTiles basemap when a region with a
/// basemap was found, else the OSM vector overlay.
pub fn default_map_mode(has_region: bool) -> (mode: MapMode)
    ensures
        mode == if has_region {
            MapMode::PmTiles
        } else {
            MapMode::OsmVector
        },
{
    if has_region {
        MapMode::PmTiles
    } else {
        MapMode::OsmVector
    }
}

/// The parts of the bottom status label (joined with " · "; the PMTiles
/// label is followed by the zoom).
pub open spec fn status_parts(mode: MapMode, has_hillshade: bool, has_osm: bool) -> Seq<Seq<char>> {
    match mode {
        MapMode::FakeGrid => seq!["Fake grid"@],
        MapMode::OsmVector => seq!["OSM"@],
        MapMode::PmTiles => {
            let base = seq!["PMTiles"@];
            let with_hillshade = if has_hillshade {
                base.push("hillshade"@)
            } else {
                base
            };
            if has_osm {
                with_hillshade.push("OSM"@)
            } else {
                with_hillshade
            }
        },
    }
}

/// The parts of the bottom status label for what is loaded.
pub fn map_status_parts(mode: MapMode, has_hillshade: bool, has_osm: bool) -> (parts: Vec<&'static str>)
    ensures
        parts@.map_values(|p: &str| p@) == status_parts(mode, has_hillshade, has_osm),
{
    let mut parts: Vec<&'static str> = Vec::new();
    match mode {
        MapMode::FakeGrid => parts.push("Fake grid"),
        MapMode::OsmVector => parts.push("OSM"),
        MapMode::PmTiles => {
            parts.push("PMTiles");
            if has_hillshade {
                parts.push("hillshade");
            }
            if has_osm {
                parts.push("OSM");
            }
        },
    }
    assert(parts@.map_values(|p: &str| p@) =~= status_parts(mode, has_hillshade, has_osm));
    parts
}

/// The colour class of a node's dot.
#[derive(Debug, Clone, Copy, PartialEq, Eq, Structural)]
pub enum MarkerColor {
    /// Distress: the SOS red.
    Sos,
    /// No GPS fix: grey.
    NoFix,
    /// The colour of the node's heartbeat freshness bucket.
    Fresh(Freshness),
}

/// SOS wins over everything, then a missing fix, then the heartbeat
/// freshness of the last frame.
pub open spec fn spec_marker_color(sos: bool, gps_valid: bool, last_seen_secs: u32) -> MarkerColor {
    if sos {
        MarkerColor::Sos
    } else if !gps_valid {
        MarkerColor::NoFix
    } else {
        MarkerColor::Fresh(tag_freshness(last_seen_secs, false))
    }
}

pub fn marker_color(sos: bool, gps_valid: bool, last_seen_secs: u32) -> (color: MarkerColor)
    ensures
        color == spec_marker_color(sos, gps_valid, last_seen_secs),
{
    if sos {
        return MarkerColor::Sos;
    }
    if !gps_valid {
        return MarkerColor::NoFix;
    }
    MarkerColor::Fresh(freshness_for_tag(last_seen_secs, false))
}

} // verus!

verus! {

/// A node with a GPS fix is shown at its current position, whatever its
/// last valid fix is; a node without one is shown at its last valid fix if
/// it has one, and not at all otherwise.
pub proof fn lemma_visible_position<T>(pos: T, ghost_pos: T)
    ensures
        spec_visible_pos(true, pos, Some(ghost_pos)) == Some(pos),
        spec_visible_pos(true, pos, None::<T>) == Some(pos),
        spec_visible_pos(false, pos, Some(ghost_pos)) == Some(ghost_pos),
        spec_visible_pos(false, pos, None::<T>) == None::<T>,
{
}

/// SOS red wins over everything: a node in SOS is red whatever its fix and
/// age. Otherwise a node without a fix is grey, and a node with one takes
/// the heartbeat bucket of its age: fresh under 330 s, aging under 660 s,
/// stale under 1320 s, very stale after.
pub proof fn lemma_marker_color_precedence(gps_valid: bool, age: u32)
    ensures
        spec_marker_color(true, gps_valid, age) == MarkerColor::Sos,
        spec_marker_color(false, false, age) == MarkerColor::NoFix,
        age < 330 ==> spec_marker_color(false, true, age) == MarkerColor::Fresh(Freshness::Fresh),
        330 <= age < 660 ==> spec_marker_color(false, true, age) == MarkerColor::Fresh(
            Freshness::Aging,
        ),
        660 <= age < 1320 ==> spec_marker_color(false, true, age) == MarkerColor::Fresh(
            Freshness::Stale,
        ),
        1320 <= age ==> spec_marker_color(false, true, age) == MarkerColor::Fresh(
            Freshness::VeryStale,
        ),
{
}

} // verus!
