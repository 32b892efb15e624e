use vstd::prelude::*;

verus! {

/// The synthetic situations the kiosk lab can show.
#[derive(Debug, Clone, Copy, PartialEq, Eq, Hash, Structural)]
pub enum ScenarioKind {
    Normal,
    Sos,
    Stale,
    NoFix,
    MultiTag,
    SosNoFix,
}

/// The text shown for a scenario.
pub open spec fn scenario_label(kind: ScenarioKind) -> Seq<char> {
    match kind {
        ScenarioKind::Normal => "Normal"@,
        ScenarioKind::Sos => "SOS"@,
        ScenarioKind::Stale => "Stale"@,
        ScenarioKind::NoFix => "No Fix"@,
        ScenarioKind::MultiTag => "Multi-Tag"@,
        ScenarioKind::SosNoFix => "SOS + No Fix"@,
    }
}

impl ScenarioKind {
    pub fn label(self) -> (s: &'static str)
        ensures
            s@ == scenario_label(self),
    {
        match self {
            Self::Normal => "Normal",
            Self::Sos => "SOS",
            Self::Stale => "Stale",
            Self::NoFix => "No Fix",
            Self::MultiTag => "Multi-Tag",
            Self::SosNoFix => "SOS + No Fix",
        }
    }

    /// Every scenario, in menu order.
    pub fn all() -> (all: &'static [ScenarioKind])
        ensures
            all@ == seq![
                ScenarioKind::Normal,
                ScenarioKind::Sos,
                ScenarioKind::Stale,
                ScenarioKind::NoFix,
                ScenarioKind::MultiTag,
                ScenarioKind::SosNoFix,
            ],
    {
        &[
            Self::Normal,
            Self::Sos,
            Self::Stale,
            Self::NoFix,
            Self::MultiTag,
            Self::SosNoFix,
        ]
    }
}

} // verus!

verus! {

/// The state a tag can be put in from the lab's edit panel.
#[derive(Debug, Clone, Copy, PartialEq, Eq, Structural)]
pub enum NodeState {
    Normal,
    Stale,
    VeryStale,
    NoFix,
    Sos,
    LowBattery,
}

/// The text shown for a node state.
pub open spec fn node_state_label(state: NodeState) -> Seq<char> {
    match state {
        NodeState::Normal => "Normal"@,
        NodeState::Stale => "Stale (>11 min)"@,
        NodeState::VeryStale => "Very stale (>22 min)"@,
        NodeState::NoFix => "No GPS fix"@,
        NodeState::Sos => "SOS"@,
        NodeState::LowBattery => "Low battery"@,
    }
}

impl NodeState {
    pub fn label(self) -> (s: &'static str)
        ensures
            s@ == node_state_label(self),
    {
        match self {
            Self::Normal => "Normal",
            Self::Stale => "Stale (>11 min)",
            Self::VeryStale => "Very stale (>22 min)",
            Self::NoFix => "No GPS fix",
            Self::Sos => "SOS",
            Self::LowBattery => "Low battery",
        }
    }

    /// Every node state, in menu order.
    pub fn all() -> (all: &'static [NodeState])
        ensures
            all@ == seq![
                NodeState::Normal,
                NodeState::Stale,
                NodeState::VeryStale,
                NodeState::NoFix,
                NodeState::Sos,
                NodeState::LowBattery,
            ],
    {
        &[
            Self::Normal,
            Self::Stale,
            Self::VeryStale,
            Self::NoFix,
            Self::Sos,
            Self::LowBattery,
        ]
    }
}

} // verus!
