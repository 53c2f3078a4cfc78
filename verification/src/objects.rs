use vstd::prelude::*;

use crate::geom::Rect;

verus! {

/// Identifier of a building on the map.
#[derive(Clone, Copy, PartialEq, Eq, Structural, Debug)]
pub struct BuildingID(pub u64);

/// Identifier of a lane on the map.
#[derive(Clone, Copy, PartialEq, Eq, Structural, Debug)]
pub struct LaneID(pub u64);

/// Identifier of an intersection on the map.
#[derive(Clone, Copy, PartialEq, Eq, Structural, Debug)]
pub struct IntersectionID(pub u64);

/// Identifier of a car in the simulation.
#[derive(Clone, Copy, PartialEq, Eq, Structural, Debug)]
pub struct CarID(pub u64);

/// Identifier of a pedestrian in the simulation.
#[derive(Clone, Copy, PartialEq, Eq, Structural, Debug)]
pub struct PedestrianID(pub u64);

/// Identifier of a trip: a journey distinct from the agent currently
/// carrying it.
#[derive(Clone, Copy, PartialEq, Eq, Structural, Debug)]
pub struct TripID(pub u64);

/// A movable agent: the thing that can carry a trip.
#[derive(Clone, Copy, PartialEq, Eq, Structural, Debug)]
pub enum AgentID {
    Car(CarID),
    Pedestrian(PedestrianID),
}

/// Polymorphic identifier of exactly one map or simulation object; the
/// selection result and the key for per-frame color overrides.
#[derive(Clone, Copy, PartialEq, Eq, Structural, Debug)]
pub enum ID {
    Building(BuildingID),
    Lane(LaneID),
    Intersection(IntersectionID),
    Car(CarID),
    Pedestrian(PedestrianID),
}

impl ID {
    /// The movable agent this identifier refers to, if it refers to one.
    pub open spec fn spec_agent_id(self) -> Option<AgentID> {
        match self {
            ID::Car(c) => Some(AgentID::Car(c)),
            ID::Pedestrian(p) => Some(AgentID::Pedestrian(p)),
            _ => None,
        }
    }

    pub fn agent_id(&self) -> (r: Option<AgentID>)
        ensures
            r == self.spec_agent_id(),
    {
        match self {
            ID::Car(c) => Some(AgentID::Car(*c)),
            ID::Pedestrian(p) => Some(AgentID::Pedestrian(*p)),
            _ => None,
        }
    }
}

/// An RGBA color, one byte per channel.
#[derive(Clone, Copy, PartialEq, Eq, Structural, Debug)]
pub struct Color {
    pub r: u8,
    pub g: u8,
    pub b: u8,
    pub a: u8,
}

/// What the host event loop should do between frames.
#[derive(Clone, Copy, PartialEq, Eq, Structural, Debug)]
pub enum EventLoopMode {
    Animation,
    InputOnly,
}

/// An on-screen entity offered to the selection resolver: its identifier
/// plus the region that counts as containing the cursor.
#[derive(Clone, Copy, PartialEq, Eq, Structural, Debug)]
pub struct Entity {
    pub id: ID,
    pub hit: Rect,
}

/// One OSD line: a verb plus, where the binding names a concrete agent,
/// that agent. The renderer formats the pair into display text.
#[derive(Clone, PartialEq, Eq, Debug)]
pub struct Label {
    pub action: String,
    pub subject: Option<AgentID>,
}

} // verus!
