use vstd::prelude::*;

use crate::canvas::MAX_COORD;
use crate::geom::Pt;
use crate::objects::{AgentID, TripID};

verus! {

pub open spec fn pt_on_map(p: Pt) -> bool {
    0 <= p.x <= MAX_COORD && 0 <= p.y <= MAX_COORD
}

/// The read-only model snapshot the loop consults each frame: the active
/// map's name, the canonical point of each building and lane in draw
/// order, which trip each agent currently carries, and the canonical
/// display point each trip resolves to this frame (absent while a trip
/// is transiently off-map).
pub struct World {
    pub map_name: String,
    pub building_pts: Vec<Pt>,
    pub lane_pts: Vec<Pt>,
    pub agent_trips: Vec<(AgentID, TripID)>,
    pub trip_pts: Vec<(TripID, Pt)>,
}

pub open spec fn spec_agent_lookup(s: Seq<(AgentID, TripID)>, a: AgentID, i: int) -> Option<
    TripID,
>
    decreases s.len() - i,
{
    if i < 0 || i >= s.len() {
        None
    } else if s[i].0 == a {
        Some(s[i].1)
    } else {
        spec_agent_lookup(s, a, i + 1)
    }
}

pub open spec fn spec_trip_lookup(s: Seq<(TripID, Pt)>, t: TripID, i: int) -> Option<Pt>
    decreases s.len() - i,
{
    if i < 0 || i >= s.len() {
        None
    } else if s[i].0 == t {
        Some(s[i].1)
    } else {
        spec_trip_lookup(s, t, i + 1)
    }
}

impl World {
    /// Every canonical point lies on the map.
    pub open spec fn wf(self) -> bool {
        &&& forall|i: int|
            0 <= i < self.building_pts@.len() ==> pt_on_map(#[trigger] self.building_pts@[i])
        &&& forall|i: int| 0 <= i < self.lane_pts@.len() ==> pt_on_map(#[trigger] self.lane_pts@[i])
        &&& forall|i: int|
            0 <= i < self.trip_pts@.len() ==> pt_on_map(#[trigger] self.trip_pts@[i].1)
    }

    /// The trip the agent is currently carrying, if any.
    pub open spec fn spec_agent_to_trip(self, a: AgentID) -> Option<TripID> {
        spec_agent_lookup(self.agent_trips@, a, 0)
    }

    pub fn agent_to_trip(&self, a: AgentID) -> (r: Option<TripID>)
        ensures
            r == self.spec_agent_to_trip(a),
    {
        let mut i: usize = 0;
        while i < self.agent_trips.len()
            invariant
                0 <= i as int <= self.agent_trips@.len(),
                spec_agent_lookup(self.agent_trips@, a, 0) == spec_agent_lookup(
                    self.agent_trips@,
                    a,
                    i as int,
                ),
            decreases self.agent_trips@.len() - i as int,
        {
            if self.agent_trips[i].0 == a {
                return Some(self.agent_trips[i].1);
            }
            i = i + 1;
        }
        None
    }

    /// The trip's canonical display point this frame, if the snapshot
    /// resolves one.
    pub open spec fn spec_trip_pt(self, t: TripID) -> Option<Pt> {
        spec_trip_lookup(self.trip_pts@, t, 0)
    }

    pub fn canonical_pt_of_trip(&self, t: TripID) -> (r: Option<Pt>)
        ensures
            r == self.spec_trip_pt(t),
    {
        let mut i: usize = 0;
        while i < self.trip_pts.len()
            invariant
                0 <= i as int <= self.trip_pts@.len(),
                spec_trip_lookup(self.trip_pts@, t, 0) == spec_trip_lookup(
                    self.trip_pts@,
                    t,
                    i as int,
                ),
            decreases self.trip_pts@.len() - i as int,
        {
            if self.trip_pts[i].0 == t {
                return Some(self.trip_pts[i].1);
            }
            i = i + 1;
        }
        None
    }

    /// Where startup focuses when no usable camera state was persisted:
    /// the first building's canonical point, else the first lane's.
    pub open spec fn spec_default_focus(self) -> Option<Pt> {
        if self.building_pts@.len() > 0 {
            Some(self.building_pts@[0])
        } else if self.lane_pts@.len() > 0 {
            Some(self.lane_pts@[0])
        } else {
            None
        }
    }

    pub fn default_focus_pt(&self) -> (r: Option<Pt>)
        ensures
            r == self.spec_default_focus(),
    {
        if self.building_pts.len() > 0 {
            Some(self.building_pts[0])
        } else if self.lane_pts.len() > 0 {
            Some(self.lane_pts[0])
        } else {
            None
        }
    }

    pub fn get_name(&self) -> (r: &String)
        ensures
            r@ == self.map_name@,
    {
        &self.map_name
    }

    /// A resolved trip point of a well-formed snapshot lies on the map.
    pub proof fn lemma_trip_pt_on_map(self, t: TripID)
        requires
            self.wf(),
            self.spec_trip_pt(t) is Some,
        ensures
            pt_on_map(self.spec_trip_pt(t)->Some_0),
    {
        self.lemma_trip_lookup_on_map(t, 0);
    }

    proof fn lemma_trip_lookup_on_map(self, t: TripID, i: int)
        requires
            self.wf(),
            0 <= i,
            spec_trip_lookup(self.trip_pts@, t, i) is Some,
        ensures
            pt_on_map(spec_trip_lookup(self.trip_pts@, t, i)->Some_0),
        decreases self.trip_pts@.len() - i,
    {
        if i < self.trip_pts@.len() && self.trip_pts@[i].0 != t {
            self.lemma_trip_lookup_on_map(t, i + 1);
        }
    }
}

} // verus!
