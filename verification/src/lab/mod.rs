pub mod freshness;
pub mod scenario;
pub mod map_mode;
pub mod osm;
pub mod region;
pub mod sidebar;
pub mod osm_xml;
pub mod display;
