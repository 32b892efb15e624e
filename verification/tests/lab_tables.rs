use protocol::lab::map_mode::{DragTarget, MapMode};
use protocol::lab::scenario::{NodeState, ScenarioKind};

#[test]
fn scenario_labels_and_menu_order() {
    let all = ScenarioKind::all();
    assert_eq!(
        all,
        &[
            ScenarioKind::Normal,
            ScenarioKind::Sos,
            ScenarioKind::Stale,
            ScenarioKind::NoFix,
            ScenarioKind::MultiTag,
            ScenarioKind::SosNoFix,
        ]
    );
    let labels: Vec<&str> = all.iter().map(|k| k.label()).collect();
    assert_eq!(
        labels,
        vec!["Normal", "SOS", "Stale", "No Fix", "Multi-Tag", "SOS + No Fix"]
    );
}

#[test]
fn node_state_labels_and_menu_order() {
    let all = NodeState::all();
    assert_eq!(all.len(), 6);
    let labels: Vec<&str> = all.iter().map(|s| s.label()).collect();
    assert_eq!(
        labels,
        vec![
            "Normal",
            "Stale (>11 min)",
            "Very stale (>22 min)",
            "No GPS fix",
            "SOS",
            "Low battery"
        ]
    );
    assert_eq!(all[3], NodeState::NoFix);
}

#[test]
fn map_mode_labels_and_menu_order() {
    assert_eq!(
        MapMode::all(),
        &[MapMode::FakeGrid, MapMode::OsmVector, MapMode::PmTiles]
    );
    assert_eq!(MapMode::FakeGrid.label(), "Fake grid");
    assert_eq!(MapMode::OsmVector.label(), "OSM vector");
    assert_eq!(MapMode::PmTiles.label(), "PMTiles (walkers)");
}

#[test]
fn drag_targets_compare_by_value() {
    assert_eq!(DragTarget::Node(3), DragTarget::Node(3));
    assert_ne!(DragTarget::Node(3), DragTarget::Node(4));
    assert_ne!(DragTarget::Node(0), DragTarget::Pan);
}
