use vstd::prelude::*;

use crate::canvas::{Canvas, MIN_ZOOM_FOR_MOUSEOVER};
use crate::follow::FollowState;
use crate::geom::Pt;
use crate::hints::RenderingHints;
use crate::input::{Key, UserInput};
use crate::objects::{Color, Entity, EventLoopMode, ID};
use crate::persist::EditorState;
use crate::selection::{mouseover_something, spec_mouseover};
use crate::world::World;

verus! {

/// Why startup can fail: no canonical point exists for the default
/// fallback entity, and there is no further fallback.
#[derive(Clone, Copy, PartialEq, Eq, Structural, Debug)]
pub enum InitError {
    NoCanonicalPoint,
}

/// Per-entity instructions handed to the external renderer.
#[derive(Clone, Copy, Debug)]
pub struct RenderOptions {
    pub color: Option<Color>,
    pub cam_zoom: i64,
    pub debug_mode: bool,
}

/// The UI event loop's own state: the camera, the composed plugin set,
/// and the current selection. Plugins are dispatched once per frame in
/// a fixed, explicit priority order — their registration order here —
/// and single-claim input resolves any contention: when several would
/// react to one key, the earliest-dispatched one claims it and the
/// rest observe nothing.
pub struct UI {
    pub canvas: Canvas,
    pub follow: FollowState,
    pub current_selection: Option<ID>,
}

/// The input as later consumers see it once the camera has claimed drag
/// and scroll events.
pub open spec fn spec_input_after_canvas(i: UserInput) -> UserInput {
    UserInput { event_consumed: i.event_consumed || Canvas::spec_consumes(i), ..i }
}

/// Whether startup applies the stored camera state: some state was
/// read, it names the active map, and its transform is compatible.
pub open spec fn spec_saved_applies(saved: Option<EditorState>, w: World) -> bool {
    saved matches Some(st) && st.spec_applies_to(w)
}

impl UI {
    pub open spec fn wf(self) -> bool {
        &&& self.canvas.wf()
        &&& self.canvas.window_w >= 1
        &&& self.canvas.window_h >= 1
    }

    /// The selection after the camera update, per the invocation policy:
    /// crossing the mouseover zoom threshold downward clears it; a mouse
    /// move while not dragging at or above the threshold recomputes it;
    /// otherwise it is untouched.
    pub open spec fn spec_selection_after_camera(
        self,
        i: UserInput,
        statics: Seq<Entity>,
        dynamics: Seq<Entity>,
    ) -> Option<ID> {
        let c0 = self.canvas;
        let c1 = c0.spec_after_event(i);
        let i1 = spec_input_after_canvas(i);
        let crossed_down = c0.cam_zoom >= MIN_ZOOM_FOR_MOUSEOVER && c1.cam_zoom
            < MIN_ZOOM_FOR_MOUSEOVER;
        if !c1.dragging && i1.spec_moved_mouse() is Some && c1.cam_zoom
            >= MIN_ZOOM_FOR_MOUSEOVER {
            spec_mouseover(
                statics,
                dynamics,
                c1.spec_cursor_to_map(Pt { x: c1.cursor_x, y: c1.cursor_y }),
            )
        } else if crossed_down {
            None
        } else {
            self.current_selection
        }
    }

    /// Builds the session's UI. Stored camera state is applied only when
    /// it names the active map and is compatible; otherwise startup
    /// focuses on the default entity's canonical point, and fails when
    /// no such point exists. Callers must not construct the UI before
    /// the viewport size is known.
    pub fn new(world: &World, canvas: Canvas, saved: Option<EditorState>) -> (r: Result<
        UI,
        InitError,
    >)
        requires
            canvas.wf(),
            canvas.window_w >= 1,
            canvas.window_h >= 1,
            world.wf(),
        ensures
            match r {
                Ok(ui) => {
                    &&& ui.wf()
                    &&& ui.follow == FollowState::Empty
                    &&& ui.current_selection is None
                    &&& (spec_saved_applies(saved, *world) ==> ui.canvas == (Canvas {
                        cam_x: saved->Some_0.cam_x,
                        cam_y: saved->Some_0.cam_y,
                        cam_zoom: saved->Some_0.cam_zoom,
                        ..canvas
                    }))
                    &&& (!spec_saved_applies(saved, *world) ==> world.spec_default_focus()
                        is Some && ui.canvas == canvas.spec_centered(
                        world.spec_default_focus()->Some_0,
                    ))
                },
                Err(e) => {
                    &&& e == InitError::NoCanonicalPoint
                    &&& !spec_saved_applies(saved, *world)
                    &&& world.spec_default_focus() is None
                },
            },
    {
        let mut ui = UI { canvas, follow: FollowState::new(), current_selection: None };
        let mut applied = false;
        if let Some(st) = &saved {
            if st.map_name == world.map_name && st.cam_x >= -crate::canvas::MAX_CAM && st.cam_x
                <= crate::canvas::MAX_CAM && st.cam_y >= -crate::canvas::MAX_CAM && st.cam_y
                <= crate::canvas::MAX_CAM && st.cam_zoom >= 0 && st.cam_zoom
                <= crate::canvas::MAX_ZOOM {
                ui.canvas.cam_x = st.cam_x;
                ui.canvas.cam_y = st.cam_y;
                ui.canvas.cam_zoom = st.cam_zoom;
                applied = true;
            }
        }
        if !applied {
            match world.default_focus_pt() {
                Some(p) => {
                    proof {
                        if world.building_pts@.len() > 0 {
                            assert(crate::world::pt_on_map(world.building_pts@[0]));
                        } else {
                            assert(crate::world::pt_on_map(world.lane_pts@[0]));
                        }
                    }
                    ui.canvas.center_on_map_pt(p);
                },
                None => {
                    return Err(InitError::NoCanonicalPoint);
                },
            }
        }
        Ok(ui)
    }

    /// One frame of the loop, in fixed order: camera update first,
    /// selection recompute or clear per policy, one dispatch to the
    /// composed plugin set, the reserved quit binding (checked after
    /// dispatch so a plugin may claim the same physical key first), and
    /// the frame's OSD. Returns the event-loop mode, the frame's
    /// rendering hints, and whether the reserved quit binding fired —
    /// on which the caller persists state and terminates.
    pub fn event(
        &mut self,
        input: &mut UserInput,
        world: &World,
        statics: &Vec<Entity>,
        dynamics: &Vec<Entity>,
    ) -> (r: (EventLoopMode, RenderingHints, bool))
        requires
            old(self).wf(),
            world.wf(),
        ensures
            ({
                let i0 = *old(input);
                let c1 = old(self).canvas.spec_after_event(i0);
                let i1 = spec_input_after_canvas(i0);
                let sel1 = old(self).spec_selection_after_camera(i0, statics@, dynamics@);
                let f0 = old(self).follow;
                let claimed = i1.event_consumed || f0.spec_claims(sel1, *world, i1);
                &&& final(self).wf()
                &&& final(self).canvas == f0.spec_cam(*world, c1)
                &&& final(self).follow == f0.spec_next(sel1, *world, i1)
                &&& final(self).current_selection == sel1
                &&& r.2 == (!claimed && i1.event == crate::input::InputEvent::KeyPress(
                    Key::Escape,
                ))
                &&& r.0 == EventLoopMode::InputOnly
                &&& r.1.mode == EventLoopMode::InputOnly
                &&& r.1.suppress_intersection_icon is None
                &&& r.1.color_overrides@ =~= Seq::<(ID, Color)>::empty()
                &&& r.1.hidden@ =~= Seq::<ID>::empty()
                &&& r.1.osd@.take(i0.labels@.len() as int) =~= i0.labels@
                &&& r.1.osd@.len() == i0.labels@.len() + (if f0.spec_offers_binding(
                    sel1,
                    *world,
                ) {
                    1int
                } else {
                    0int
                })
                &&& final(input).labels@ =~= Seq::<crate::objects::Label>::empty()
                &&& final(input).event == i0.event
                // crossing the threshold downward clears the selection
                &&& (old(self).canvas.cam_zoom >= MIN_ZOOM_FOR_MOUSEOVER && c1.cam_zoom
                    < MIN_ZOOM_FOR_MOUSEOVER ==> sel1 is None)
                // crossing upward never selects anything without a mouse move
                &&& (i1.spec_moved_mouse() is None && !(old(self).canvas.cam_zoom
                    >= MIN_ZOOM_FOR_MOUSEOVER && c1.cam_zoom < MIN_ZOOM_FOR_MOUSEOVER)
                    ==> sel1 == old(self).current_selection)
            }),
    {
        let mut hints = RenderingHints::new();

        // 1. Feed the raw event to the camera; drags and scrolls are
        // claimed here.
        let old_zoom = self.canvas.cam_zoom;
        self.canvas.handle_event(input);
        let new_zoom = self.canvas.cam_zoom;

        // 2. Selection policy: clear on crossing the threshold downward,
        // recompute on a mouse move while not dragging at high zoom.
        if old_zoom >= MIN_ZOOM_FOR_MOUSEOVER && new_zoom < MIN_ZOOM_FOR_MOUSEOVER {
            self.current_selection = None;
        }
        if !self.canvas.is_dragging() && input.get_moved_mouse().is_some() && new_zoom
            >= MIN_ZOOM_FOR_MOUSEOVER {
            let pt = self.canvas.get_cursor_in_map_space();
            self.current_selection = mouseover_something(statics, dynamics, pt);
        }

        // 3. Dispatch exactly once to the composed plugin set, in fixed
        // priority order. The follow plugin never requests a selection
        // recalculation, so the out-flag stays false.
        let mut recalculate_current_selection = false;
        let _active = self.follow.event(
            input,
            &mut self.canvas,
            self.current_selection,
            world,
            &mut hints,
            &mut recalculate_current_selection,
        );

        // 4. A plugin-triggered state change may invalidate the prior
        // mouseover; recompute immediately if requested.
        if recalculate_current_selection {
            if self.canvas.cam_zoom >= 1 {
                let pt = self.canvas.get_cursor_in_map_space();
                self.current_selection = mouseover_something(statics, dynamics, pt);
            }
        }

        // 5. The reserved quit binding, checked after plugin dispatch.
        let quit = input.unimportant_key_pressed(Key::Escape);

        // 6. The frame's OSD: every label registered this frame.
        input.populate_osd(&mut hints.osd);

        (hints.mode, hints, quit)
    }

    pub fn get_mut_canvas(&mut self) -> (r: &mut Canvas)
        ensures
            *r == old(self).canvas,
            *final(self) == (UI { canvas: *final(r), ..*old(self) }),
    {
        &mut self.canvas
    }

    /// The color the renderer should use for one entity: its registered
    /// override, if any.
    pub fn color_obj(&self, id: ID, hints: &RenderingHints) -> (r: Option<Color>)
        ensures
            r == hints.spec_color_of(id),
    {
        hints.get_color_override(id)
    }

    /// The frame's ordered draw directives: every static entity in draw
    /// order, then every dynamic entity, each with its color override,
    /// the camera zoom, and the debug-mode flag.
    pub fn draw_directives(
        &self,
        statics: &Vec<Entity>,
        dynamics: &Vec<Entity>,
        hints: &RenderingHints,
        debug_mode: bool,
    ) -> (r: Vec<(ID, RenderOptions)>)
        ensures
            r@.len() == statics@.len() + dynamics@.len(),
            forall|i: int|
                0 <= i < statics@.len() ==> #[trigger] r@[i] == (
                statics@[i].id,
                RenderOptions {
                    color: hints.spec_color_of(statics@[i].id),
                    cam_zoom: self.canvas.cam_zoom,
                    debug_mode,
                },
            ),
            forall|i: int|
                0 <= i < dynamics@.len() ==> #[trigger] r@[statics@.len() + i] == (
                dynamics@[i].id,
                RenderOptions {
                    color: hints.spec_color_of(dynamics@[i].id),
                    cam_zoom: self.canvas.cam_zoom,
                    debug_mode,
                },
            ),
    {
        let mut out: Vec<(ID, RenderOptions)> = Vec::new();
        let mut i: usize = 0;
        while i < statics.len()
            invariant
                0 <= i as int <= statics@.len(),
                out@.len() == i as int,
                forall|j: int|
                    0 <= j < i as int ==> #[trigger] out@[j] == (
                    statics@[j].id,
                    RenderOptions {
                        color: hints.spec_color_of(statics@[j].id),
                        cam_zoom: self.canvas.cam_zoom,
                        debug_mode,
                    },
                ),
            decreases statics@.len() - i as int,
        {
            let id = statics[i].id;
            let color = hints.get_color_override(id);
            out.push((id, RenderOptions { color, cam_zoom: self.canvas.cam_zoom, debug_mode }));
            i = i + 1;
        }
        let mut k: usize = 0;
        while k < dynamics.len()
            invariant
                0 <= k as int <= dynamics@.len(),
                out@.len() == statics@.len() + k as int,
                forall|j: int|
                    0 <= j < statics@.len() ==> #[trigger] out@[j] == (
                    statics@[j].id,
                    RenderOptions {
                        color: hints.spec_color_of(statics@[j].id),
                        cam_zoom: self.canvas.cam_zoom,
                        debug_mode,
                    },
                ),
                forall|j: int|
                    0 <= j < k as int ==> #[trigger] out@[statics@.len() + j] == (
                    dynamics@[j].id,
                    RenderOptions {
                        color: hints.spec_color_of(dynamics@[j].id),
                        cam_zoom: self.canvas.cam_zoom,
                        debug_mode,
                    },
                ),
            decreases dynamics@.len() - k as int,
        {
            let id = dynamics[k].id;
            let color = hints.get_color_override(id);
            out.push((id, RenderOptions { color, cam_zoom: self.canvas.cam_zoom, debug_mode }));
            k = k + 1;
        }
        out
    }

    /// The state persisted at shutdown: the active map's name plus the
    /// camera transform as it stands.
    pub fn current_editor_state(&self, world: &World) -> (st: EditorState)
        ensures
            st.map_name@ == world.map_name@,
            st.cam_x == self.canvas.cam_x,
            st.cam_y == self.canvas.cam_y,
            st.cam_zoom == self.canvas.cam_zoom,
    {
        EditorState {
            map_name: world.get_name().clone(),
            cam_x: self.canvas.cam_x,
            cam_y: self.canvas.cam_y,
            cam_zoom: self.canvas.cam_zoom,
        }
    }
}

} // verus!
