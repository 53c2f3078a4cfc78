use vstd::prelude::*;

use crate::geom::Pt;
use crate::input::{InputEvent, UserInput};

verus! {

/// Largest magnitude of a screen coordinate or viewport dimension.
pub const MAX_DIM: i64 = 1_000_000_000;

/// Largest map coordinate; map coordinates are never negative.
pub const MAX_COORD: i64 = 1_000_000_000;

/// Largest zoom factor, in integer zoom units.
pub const MAX_ZOOM: i64 = 1_000_000;

/// Largest magnitude the pan offset can reach: enough for any point at
/// any zoom to be centered in any viewport.
pub const MAX_CAM: i64 = 2_000_000_000_000_000;

/// Below this zoom the selection resolver is not consulted at all.
pub const MIN_ZOOM_FOR_MOUSEOVER: i64 = 4;

/// `a + b` clamped into `[lo, hi]`, as a spec-level value.
pub open spec fn spec_clamp_add(a: int, b: int, lo: int, hi: int) -> int {
    if a + b < lo {
        lo
    } else if a + b > hi {
        hi
    } else {
        a + b
    }
}

/// Saturating addition into `[lo, hi]`, overflow-free for bounds up to
/// the pan-offset range.
pub fn clamp_add(a: i64, b: i64, lo: i64, hi: i64) -> (r: i64)
    requires
        -MAX_CAM <= lo <= hi <= MAX_CAM,
        lo <= a <= hi,
    ensures
        r == spec_clamp_add(a as int, b as int, lo as int, hi as int),
        lo <= r <= hi,
{
    if b >= 0 {
        if b > hi - a {
            hi
        } else {
            a + b
        }
    } else {
        if b < lo - a {
            lo
        } else {
            a + b
        }
    }
}

/// `v` clamped into `[lo, hi]`, as a spec-level value.
pub open spec fn spec_clamp(v: int, lo: int, hi: int) -> int {
    if v < lo {
        lo
    } else if v > hi {
        hi
    } else {
        v
    }
}

/// `v` clamped into `[lo, hi]`.
pub fn clamp_val(v: i64, lo: i64, hi: i64) -> (r: i64)
    requires
        lo <= hi,
    ensures
        r == spec_clamp(v as int, lo as int, hi as int),
        lo <= r <= hi,
{
    if v < lo {
        lo
    } else if v > hi {
        hi
    } else {
        v
    }
}

/// The camera: pan offset and zoom factor in map space, the latest known
/// cursor position in screen space, the transient drag flag, and the
/// viewport size. A map point `m` appears on screen at `m * cam_zoom -
/// (cam_x, cam_y)`.
#[derive(Clone, Copy, PartialEq, Eq, Structural, Debug)]
pub struct Canvas {
    pub cam_x: i64,
    pub cam_y: i64,
    pub cam_zoom: i64,
    pub dragging: bool,
    pub cursor_x: i64,
    pub cursor_y: i64,
    pub window_w: i64,
    pub window_h: i64,
}

impl Canvas {
    /// The camera's invariant: zoom never negative and every field inside
    /// the range the coordinate arithmetic stays exact in.
    pub open spec fn wf(self) -> bool {
        &&& 0 <= self.cam_zoom <= MAX_ZOOM
        &&& -MAX_CAM <= self.cam_x <= MAX_CAM
        &&& -MAX_CAM <= self.cam_y <= MAX_CAM
        &&& -MAX_DIM <= self.cursor_x <= MAX_DIM
        &&& -MAX_DIM <= self.cursor_y <= MAX_DIM
        &&& 0 <= self.window_w <= MAX_DIM
        &&& 0 <= self.window_h <= MAX_DIM
    }

    pub fn new(window_w: i64, window_h: i64) -> (r: Canvas)
        requires
            0 <= window_w <= MAX_DIM,
            0 <= window_h <= MAX_DIM,
        ensures
            r.wf(),
            r.cam_x == 0 && r.cam_y == 0 && r.cam_zoom == 1,
            !r.dragging,
            r.cursor_x == 0 && r.cursor_y == 0,
            r.window_w == window_w && r.window_h == window_h,
    {
        Canvas {
            cam_x: 0,
            cam_y: 0,
            cam_zoom: 1,
            dragging: false,
            cursor_x: 0,
            cursor_y: 0,
            window_w,
            window_h,
        }
    }

    /// Whether the camera itself consumes this frame's raw event (drags
    /// pan, scrolls zoom; everything else is left for later consumers).
    pub open spec fn spec_consumes(i: UserInput) -> bool {
        !i.event_consumed && (i.event matches InputEvent::Drag(_, _)
            || i.event matches InputEvent::Scroll(_))
    }

    /// The camera after one raw event: drag pans, scroll zooms, a mouse
    /// move tracks the cursor and ends any drag; an already-consumed
    /// event changes nothing.
    pub open spec fn spec_after_event(self, i: UserInput) -> Canvas {
        if i.event_consumed {
            self
        } else {
            match i.event {
                InputEvent::Drag(dx, dy) => Canvas {
                    cam_x: spec_clamp_add(self.cam_x as int, dx as int, -MAX_CAM as int, MAX_CAM as int) as i64,
                    cam_y: spec_clamp_add(self.cam_y as int, dy as int, -MAX_CAM as int, MAX_CAM as int) as i64,
                    dragging: true,
                    ..self
                },
                InputEvent::Scroll(d) => Canvas {
                    cam_zoom: spec_clamp_add(self.cam_zoom as int, d as int, 0, MAX_ZOOM as int) as i64,
                    ..self
                },
                InputEvent::MouseMove(pt) => Canvas {
                    cursor_x: spec_clamp(pt.x as int, -MAX_DIM as int, MAX_DIM as int) as i64,
                    cursor_y: spec_clamp(pt.y as int, -MAX_DIM as int, MAX_DIM as int) as i64,
                    dragging: false,
                    ..self
                },
                _ => self,
            }
        }
    }

    /// Feeds one raw event to the camera, claiming drag and scroll events
    /// so later consumers do not reinterpret them.
    pub fn handle_event(&mut self, input: &mut UserInput)
        requires
            old(self).wf(),
        ensures
            *final(self) == old(self).spec_after_event(*old(input)),
            final(self).wf(),
            final(input).event == old(input).event,
            final(input).labels@ =~= old(input).labels@,
            final(input).event_consumed == (old(input).event_consumed
                || Canvas::spec_consumes(*old(input))),
    {
        if input.event_consumed {
            return;
        }
        match input.event {
            InputEvent::Drag(dx, dy) => {
                self.cam_x = clamp_add(self.cam_x, dx, -MAX_CAM, MAX_CAM);
                self.cam_y = clamp_add(self.cam_y, dy, -MAX_CAM, MAX_CAM);
                self.dragging = true;
                input.event_consumed = true;
            },
            InputEvent::Scroll(d) => {
                self.cam_zoom = clamp_add(self.cam_zoom, d, 0, MAX_ZOOM);
                input.event_consumed = true;
            },
            InputEvent::MouseMove(pt) => {
                self.cursor_x = clamp_val(pt.x, -MAX_DIM, MAX_DIM);
                self.cursor_y = clamp_val(pt.y, -MAX_DIM, MAX_DIM);
                self.dragging = false;
            },
            _ => {},
        }
    }

    pub fn is_dragging(&self) -> (r: bool)
        ensures
            r == self.dragging,
    {
        self.dragging
    }

    /// One coordinate of the inverse transform: un-pan, then un-zoom.
    /// Everything left of the map origin collapses onto it.
    pub open spec fn spec_to_map_coord(s: int, cam: int, zoom: int) -> int {
        if s + cam <= 0 {
            0
        } else {
            (s + cam) / zoom
        }
    }

    /// The map point under the screen point `pt`.
    pub open spec fn spec_cursor_to_map(self, pt: Pt) -> Pt {
        Pt {
            x: Canvas::spec_to_map_coord(pt.x as int, self.cam_x as int, self.cam_zoom as int) as i64,
            y: Canvas::spec_to_map_coord(pt.y as int, self.cam_y as int, self.cam_zoom as int) as i64,
        }
    }

    /// Applies the inverse affine transform (pan, then zoom) to a screen
    /// point.
    pub fn cursor_to_map_point(&self, pt: Pt) -> (r: Pt)
        requires
            self.wf(),
            self.cam_zoom >= 1,
            -MAX_DIM <= pt.x <= MAX_DIM,
            -MAX_DIM <= pt.y <= MAX_DIM,
        ensures
            r == self.spec_cursor_to_map(pt),
    {
        Pt {
            x: to_map_coord(pt.x, self.cam_x, self.cam_zoom),
            y: to_map_coord(pt.y, self.cam_y, self.cam_zoom),
        }
    }

    /// The map point currently under the cursor.
    pub fn get_cursor_in_map_space(&self) -> (r: Pt)
        requires
            self.wf(),
            self.cam_zoom >= 1,
        ensures
            r == self.spec_cursor_to_map(Pt { x: self.cursor_x, y: self.cursor_y }),
    {
        self.cursor_to_map_point(Pt { x: self.cursor_x, y: self.cursor_y })
    }

    /// The screen point at the middle of the viewport.
    pub open spec fn spec_viewport_center(self) -> Pt {
        Pt { x: (self.window_w as int / 2) as i64, y: (self.window_h as int / 2) as i64 }
    }

    pub fn viewport_center(&self) -> (r: Pt)
        requires
            self.wf(),
        ensures
            r == self.spec_viewport_center(),
    {
        Pt { x: half_nonneg(self.window_w), y: half_nonneg(self.window_h) }
    }

    /// The camera after recentring on `pt`: the pan offset that puts `pt`
    /// at the viewport center, with zoom untouched.
    pub open spec fn spec_centered(self, pt: Pt) -> Canvas {
        Canvas {
            cam_x: (pt.x as int * self.cam_zoom as int - self.window_w as int / 2) as i64,
            cam_y: (pt.y as int * self.cam_zoom as int - self.window_h as int / 2) as i64,
            ..self
        }
    }

    /// Recomputes the pan so `pt` maps to the viewport center, leaving
    /// zoom untouched. Callers must not center before the viewport size
    /// is known.
    pub fn center_on_map_pt(&mut self, pt: Pt)
        requires
            old(self).wf(),
            old(self).window_w >= 1,
            old(self).window_h >= 1,
            0 <= pt.x <= MAX_COORD,
            0 <= pt.y <= MAX_COORD,
        ensures
            *final(self) == old(self).spec_centered(pt),
            final(self).wf(),
    {
        proof {
            assert(0 <= pt.x as int * self.cam_zoom as int
                <= MAX_COORD as int * MAX_ZOOM as int) by (nonlinear_arith)
                requires
                    0 <= pt.x <= MAX_COORD,
                    0 <= self.cam_zoom <= MAX_ZOOM,
            ;
            assert(0 <= pt.y as int * self.cam_zoom as int
                <= MAX_COORD as int * MAX_ZOOM as int) by (nonlinear_arith)
                requires
                    0 <= pt.y <= MAX_COORD,
                    0 <= self.cam_zoom <= MAX_ZOOM,
            ;
        }
        let half_w = half_nonneg(self.window_w);
        let half_h = half_nonneg(self.window_h);
        self.cam_x = pt.x * self.cam_zoom - half_w;
        self.cam_y = pt.y * self.cam_zoom - half_h;
    }
}

/// `n / 2` for a nonnegative number.
pub fn half_nonneg(n: i64) -> (r: i64)
    requires
        n >= 0,
    ensures
        r == n as int / 2,
        0 <= r <= n,
{
    proof {
        vstd::arithmetic::div_mod::lemma_div_nonincreasing(n as int, 2);
        vstd::arithmetic::div_mod::lemma_div_pos_is_pos(n as int, 2);
    }
    ((n as u64) / 2u64) as i64
}

/// `(s + cam) / zoom`, clamped at the map origin from the left.
pub fn to_map_coord(s: i64, cam: i64, zoom: i64) -> (r: i64)
    requires
        -MAX_DIM <= s <= MAX_DIM,
        -MAX_CAM <= cam <= MAX_CAM,
        1 <= zoom <= MAX_ZOOM,
    ensures
        r == Canvas::spec_to_map_coord(s as int, cam as int, zoom as int),
{
    let n = s + cam;
    if n <= 0 {
        0
    } else {
        proof {
            vstd::arithmetic::div_mod::lemma_div_nonincreasing(n as int, zoom as int);
            vstd::arithmetic::div_mod::lemma_div_pos_is_pos(n as int, zoom as int);
        }
        ((n as u64) / (zoom as u64)) as i64
    }
}

/// After `center_on(p)`, converting the viewport center back to map space
/// returns exactly `p`: centering and the inverse transform cancel, for
/// every camera whose zoom is at least one unit.
pub proof fn lemma_center_then_cursor_round_trip(c: Canvas, p: Pt)
    requires
        c.wf(),
        c.cam_zoom >= 1,
        c.window_w >= 1,
        c.window_h >= 1,
        0 <= p.x <= MAX_COORD,
        0 <= p.y <= MAX_COORD,
    ensures
        c.spec_centered(p).spec_cursor_to_map(c.spec_centered(p).spec_viewport_center()) == p,
{
    let z = c.cam_zoom as int;
    assert(0 <= p.x as int * z <= MAX_COORD as int * MAX_ZOOM as int) by (nonlinear_arith)
        requires
            0 <= p.x <= MAX_COORD,
            1 <= z <= MAX_ZOOM,
    ;
    assert(0 <= p.y as int * z <= MAX_COORD as int * MAX_ZOOM as int) by (nonlinear_arith)
        requires
            0 <= p.y <= MAX_COORD,
            1 <= z <= MAX_ZOOM,
    ;
    let c2 = c.spec_centered(p);
    let ctr = c2.spec_viewport_center();
    assert(ctr.x as int + c2.cam_x as int == p.x as int * z);
    assert(ctr.y as int + c2.cam_y as int == p.y as int * z);
    vstd::arithmetic::div_mod::lemma_div_multiples_vanish(p.x as int, z);
    vstd::arithmetic::div_mod::lemma_div_multiples_vanish(p.y as int, z);
    assert(p.x as int * z == z * p.x as int) by (nonlinear_arith);
    assert(p.y as int * z == z * p.y as int) by (nonlinear_arith);
    if p.x as int * z <= 0 {
        assert(p.x as int * z == 0);
        assert(p.x == 0) by (nonlinear_arith)
            requires
                p.x as int * z == 0,
                z >= 1,
                p.x >= 0,
        ;
    }
    if p.y as int * z <= 0 {
        assert(p.y as int * z == 0);
        assert(p.y == 0) by (nonlinear_arith)
            requires
                p.y as int * z == 0,
                z >= 1,
                p.y >= 0,
        ;
    }
}

} // verus!
