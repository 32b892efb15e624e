use protocol::lab::display::{
    click_selection, default_map_mode, drag_field, map_status_parts, marker_color, state_flags,
    visible_pos, DragField, MarkerColor, StateFlags,
};
use protocol::lab::freshness::Freshness;
use protocol::lab::map_mode::MapMode;
use protocol::lab::scenario::NodeState;

#[test]
fn visible_position_prefers_fix_then_ghost() {
    assert_eq!(visible_pos(true, [0.5f32, 0.4], Some([0.1, 0.2])), Some([0.5, 0.4]));
    assert_eq!(visible_pos(false, [0.5f32, 0.4], Some([0.1, 0.2])), Some([0.1, 0.2]));
    assert_eq!(visible_pos::<[f32; 2]>(false, [0.5, 0.4], None), None);
}

#[test]
fn drag_moves_ghost_only_for_tags_without_fix() {
    assert_eq!(drag_field(true, true, true), DragField::Pos);
    assert_eq!(drag_field(true, false, true), DragField::LastValidFix);
    assert_eq!(drag_field(true, false, false), DragField::Pos);
    assert_eq!(drag_field(false, false, true), DragField::Pos);
}

#[test]
fn edit_panel_state_sets_flags() {
    let f = |sos, gps_valid, battery_low| StateFlags { sos, gps_valid, battery_low };
    assert_eq!(state_flags(NodeState::Normal), f(false, true, false));
    assert_eq!(state_flags(NodeState::Stale), f(false, true, false));
    assert_eq!(state_flags(NodeState::VeryStale), f(false, true, false));
    assert_eq!(state_flags(NodeState::NoFix), f(false, false, false));
    assert_eq!(state_flags(NodeState::Sos), f(true, true, false));
    assert_eq!(state_flags(NodeState::LowBattery), f(false, true, true));
}

#[test]
fn click_toggles_selection() {
    assert_eq!(click_selection(None, Some(2)), Some(2));
    assert_eq!(click_selection(Some(2), Some(2)), None);
    assert_eq!(click_selection(Some(1), Some(2)), Some(2));
    assert_eq!(click_selection(Some(1), None), None);
    assert_eq!(click_selection(None, None), None);
}

#[test]
fn startup_map_mode_and_status_label() {
    assert_eq!(default_map_mode(true), MapMode::PmTiles);
    assert_eq!(default_map_mode(false), MapMode::OsmVector);
    assert_eq!(map_status_parts(MapMode::FakeGrid, true, true), vec!["Fake grid"]);
    assert_eq!(map_status_parts(MapMode::OsmVector, true, true), vec!["OSM"]);
    assert_eq!(map_status_parts(MapMode::PmTiles, false, false), vec!["PMTiles"]);
    assert_eq!(
        map_status_parts(MapMode::PmTiles, true, true),
        vec!["PMTiles", "hillshade", "OSM"]
    );
    assert_eq!(map_status_parts(MapMode::PmTiles, false, true), vec!["PMTiles", "OSM"]);
}

#[test]
fn marker_color_precedence() {
    assert_eq!(marker_color(true, false, 99999), MarkerColor::Sos);
    assert_eq!(marker_color(false, false, 0), MarkerColor::NoFix);
    assert_eq!(marker_color(false, true, 0), MarkerColor::Fresh(Freshness::Fresh));
    assert_eq!(marker_color(false, true, 700), MarkerColor::Fresh(Freshness::Stale));
    assert_eq!(marker_color(false, true, 1320), MarkerColor::Fresh(Freshness::VeryStale));
}
