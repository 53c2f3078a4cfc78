use vstd::prelude::*;

use crate::canvas::Canvas;
use crate::hints::RenderingHints;
use crate::input::{Key, UserInput};
use crate::objects::{AgentID, Label, TripID, ID};
use crate::world::World;

verus! {

/// The camera-follow plugin: idle, or actively tracking one trip.
/// Created `Empty` at registration; transitions below are the only
/// mutation path, and the state is only ever reset to `Empty`, never
/// destroyed.
#[derive(Clone, Copy, PartialEq, Eq, Structural, Debug)]
pub enum FollowState {
    Empty,
    Active(TripID),
}

/// The agent the current selection resolves to, when it is a movable
/// agent at all.
pub open spec fn spec_selected_agent(sel: Option<ID>) -> Option<AgentID> {
    match sel {
        Some(id) => id.spec_agent_id(),
        None => None,
    }
}

/// The trip a follow could start on this frame: the selected movable
/// agent's current trip.
pub open spec fn spec_candidate(sel: Option<ID>, w: World) -> Option<TripID> {
    match spec_selected_agent(sel) {
        Some(a) => w.spec_agent_to_trip(a),
        None => None,
    }
}

impl FollowState {
    pub fn new() -> (r: FollowState)
        ensures
            r == FollowState::Empty,
    {
        FollowState::Empty
    }

    /// The state after one frame. From `Empty`, following starts only
    /// when the selection resolves to an agent carrying a trip and the
    /// follow key is claimed this frame. From `Active`, only the
    /// stop-following key ends it.
    pub open spec fn spec_next(self, sel: Option<ID>, w: World, i: UserInput) -> FollowState {
        match self {
            FollowState::Empty => {
                match spec_candidate(sel, w) {
                    Some(t) => if i.spec_would_claim(Key::F) {
                        FollowState::Active(t)
                    } else {
                        FollowState::Empty
                    },
                    None => FollowState::Empty,
                }
            },
            FollowState::Active(t) => {
                if i.spec_would_claim(Key::Return) {
                    FollowState::Empty
                } else {
                    FollowState::Active(t)
                }
            },
        }
    }

    /// What `event` reports: true while the plugin holds modal focus,
    /// including the frame the stop key ends a follow (the transition is
    /// visible for exactly one more render), and false on every frame
    /// that starts and ends `Empty`.
    pub open spec fn spec_active(self, sel: Option<ID>, w: World, i: UserInput) -> bool {
        match self {
            FollowState::Empty => spec_candidate(sel, w) is Some && i.spec_would_claim(Key::F),
            FollowState::Active(_) => true,
        }
    }

    /// The camera after the frame: while a trip is being followed and
    /// the snapshot resolves its canonical point, the camera recenters
    /// there with zoom unchanged; otherwise — including when the trip is
    /// transiently off-map — the camera is left untouched.
    pub open spec fn spec_cam(self, w: World, c: Canvas) -> Canvas {
        match self {
            FollowState::Active(t) => match w.spec_trip_pt(t) {
                Some(p) => c.spec_centered(p),
                None => c,
            },
            FollowState::Empty => c,
        }
    }

    /// Which key this plugin claims this frame, if any.
    pub open spec fn spec_claims(self, sel: Option<ID>, w: World, i: UserInput) -> bool {
        match self {
            FollowState::Empty => spec_candidate(sel, w) is Some && i.spec_would_claim(Key::F),
            FollowState::Active(_) => i.spec_would_claim(Key::Return),
        }
    }

    /// Whether this frame offers a key binding, and so registers one OSD
    /// label: "follow <agent>" while idle over a followable selection,
    /// "stop following" while active.
    pub open spec fn spec_offers_binding(self, sel: Option<ID>, w: World) -> bool {
        match self {
            FollowState::Empty => spec_candidate(sel, w) is Some,
            FollowState::Active(_) => true,
        }
    }

    /// One frame of the follow plugin. Reads the selection and the model
    /// snapshot, may claim one key, may recenter the camera, and reports
    /// whether it wants to retain modal focus. It writes no rendering
    /// hints and never requests a selection recalculation, and says so.
    pub fn event(
        &mut self,
        input: &mut UserInput,
        canvas: &mut Canvas,
        selection: Option<ID>,
        world: &World,
        hints: &mut RenderingHints,
        recalc_selection: &mut bool,
    ) -> (active: bool)
        requires
            old(canvas).wf(),
            old(canvas).window_w >= 1,
            old(canvas).window_h >= 1,
            world.wf(),
        ensures
            *final(hints) == *old(hints),
            *final(recalc_selection) == *old(recalc_selection),
            *final(self) == old(self).spec_next(selection, *world, *old(input)),
            active == old(self).spec_active(selection, *world, *old(input)),
            *final(canvas) == old(self).spec_cam(*world, *old(canvas)),
            final(canvas).wf(),
            final(input).event == old(input).event,
            final(input).event_consumed == (old(input).event_consumed || old(self).spec_claims(
                selection,
                *world,
                *old(input),
            )),
            old(self).spec_offers_binding(selection, *world) ==> final(input).labels@.len() == old(
                input,
            ).labels@.len() + 1 && final(input).labels@.drop_last() =~= old(input).labels@,
            !old(self).spec_offers_binding(selection, *world) ==> final(input).labels@ =~= old(
                input,
            ).labels@,
            (*old(self)) is Empty && old(self).spec_offers_binding(selection, *world) ==> {
                let l = final(input).labels@.last();
                l.action@ == "follow"@ && l.subject == spec_selected_agent(selection)
            },
            (*old(self)) is Active ==> {
                let l = final(input).labels@.last();
                l.action@ == "stop following"@ && l.subject is None
            },
    {
        let mut became_active = false;
        if matches!(self, FollowState::Empty) {
            let agent = match selection {
                Some(id) => id.agent_id(),
                None => None,
            };
            if let Some(a) = agent {
                if let Some(trip) = world.agent_to_trip(a) {
                    let label = Label { action: follow_action(), subject: Some(a) };
                    if input.key_pressed(Key::F, label) {
                        *self = FollowState::Active(trip);
                        became_active = true;
                    }
                }
            }
            if became_active {
                return true;
            }
        }

        let mut quit = false;
        let mut still_active = false;
        if let FollowState::Active(trip) = self {
            match world.canonical_pt_of_trip(*trip) {
                Some(pt) => {
                    proof {
                        world.lemma_trip_pt_on_map(*trip);
                    }
                    canvas.center_on_map_pt(pt);
                },
                None => {
                    // The trip may be transiently off-map: leave the
                    // camera untouched, never treat absence as an error.
                },
            }
            let label = Label { action: stop_action(), subject: None };
            quit = input.key_pressed(Key::Return, label);
            still_active = true;
        }
        if quit {
            *self = FollowState::Empty;
        }
        still_active
    }
}

/// The verb of the follow binding's OSD label.
pub fn follow_action() -> (r: String)
    ensures
        r@ == "follow"@,
{
    let s: &str = "follow";
    s.to_owned()
}

/// The verb of the stop binding's OSD label.
pub fn stop_action() -> (r: String)
    ensures
        r@ == "stop following"@,
{
    let s: &str = "stop following";
    s.to_owned()
}

} // verus!
