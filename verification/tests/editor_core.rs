use editor_core::canvas::Canvas;
use editor_core::follow::FollowState;
use editor_core::geom::{Pt, Rect};
use editor_core::hints::RenderingHints;
use editor_core::input::{InputEvent, Key, UserInput};
use editor_core::instrument::{backtraces_json, capture_backtrace, BacktraceSet};
use editor_core::objects::{AgentID, BuildingID, CarID, Color, Entity, EventLoopMode, Label, LaneID, TripID, ID};
use editor_core::persist::{encode_editor_state, parse_editor_state, EditorState};
use editor_core::selection::mouseover_something;
use editor_core::ui::{InitError, UI};
use editor_core::world::World;

fn test_world(map_name: &str) -> World {
    World {
        map_name: map_name.to_string(),
        building_pts: vec![Pt { x: 10, y: 20 }],
        lane_pts: vec![Pt { x: 30, y: 40 }],
        agent_trips: vec![(AgentID::Car(CarID(1)), TripID(7))],
        trip_pts: vec![(TripID(7), Pt { x: 100, y: 200 })],
    }
}

fn label(text: &str) -> Label {
    Label { action: text.to_string(), subject: None }
}

#[test]
fn center_then_cursor_round_trips() {
    let mut c = Canvas::new(800, 600);
    c.cam_zoom = 3;
    let p = Pt { x: 1234, y: 987 };
    c.center_on_map_pt(p);
    assert_eq!(c.cam_zoom, 3);
    let center = c.viewport_center();
    assert_eq!(c.cursor_to_map_point(center), p);
}

#[test]
fn center_keeps_zoom_at_any_zoom() {
    for zoom in [1i64, 2, 4, 17, 1000] {
        let mut c = Canvas::new(1024, 768);
        c.cam_zoom = zoom;
        c.center_on_map_pt(Pt { x: 5000, y: 0 });
        assert_eq!(c.cam_zoom, zoom);
        assert_eq!(c.cursor_to_map_point(c.viewport_center()), Pt { x: 5000, y: 0 });
    }
}

#[test]
fn selection_is_deterministic() {
    let statics = vec![
        Entity { id: ID::Building(BuildingID(0)), hit: Rect { x1: 0, y1: 0, x2: 10, y2: 10 } },
        Entity { id: ID::Lane(LaneID(1)), hit: Rect { x1: 5, y1: 5, x2: 15, y2: 15 } },
    ];
    let dynamics = vec![
        Entity { id: ID::Car(CarID(9)), hit: Rect { x1: 6, y1: 6, x2: 9, y2: 9 } },
    ];
    let pt = Pt { x: 7, y: 7 };
    let first = mouseover_something(&statics, &dynamics, pt);
    let second = mouseover_something(&statics, &dynamics, pt);
    assert_eq!(first, second);
}

#[test]
fn dynamic_entity_beats_static_entity() {
    let statics = vec![
        Entity { id: ID::Building(BuildingID(0)), hit: Rect { x1: 0, y1: 0, x2: 10, y2: 10 } },
    ];
    let dynamics = vec![
        Entity { id: ID::Car(CarID(9)), hit: Rect { x1: 0, y1: 0, x2: 10, y2: 10 } },
    ];
    let r = mouseover_something(&statics, &dynamics, Pt { x: 3, y: 3 });
    assert_eq!(r, Some(ID::Car(CarID(9))));
}

#[test]
fn topmost_drawn_static_wins() {
    let statics = vec![
        Entity { id: ID::Building(BuildingID(0)), hit: Rect { x1: 0, y1: 0, x2: 10, y2: 10 } },
        Entity { id: ID::Lane(LaneID(1)), hit: Rect { x1: 0, y1: 0, x2: 10, y2: 10 } },
    ];
    let dynamics = vec![];
    let r = mouseover_something(&statics, &dynamics, Pt { x: 3, y: 3 });
    assert_eq!(r, Some(ID::Lane(LaneID(1))));
}

#[test]
fn no_hit_selects_nothing() {
    let statics = vec![
        Entity { id: ID::Building(BuildingID(0)), hit: Rect { x1: 0, y1: 0, x2: 10, y2: 10 } },
    ];
    let r = mouseover_something(&statics, &vec![], Pt { x: 50, y: 50 });
    assert_eq!(r, None);
}

fn fresh_ui(world: &World) -> UI {
    UI::new(world, Canvas::new(800, 600), None).unwrap()
}

#[test]
fn crossing_threshold_down_clears_selection() {
    let world = test_world("X");
    let mut ui = fresh_ui(&world);
    ui.canvas.cam_zoom = 5;
    ui.current_selection = Some(ID::Building(BuildingID(0)));
    let mut input = UserInput::new(InputEvent::Scroll(-3));
    ui.event(&mut input, &world, &vec![], &vec![]);
    assert_eq!(ui.canvas.cam_zoom, 2);
    assert_eq!(ui.current_selection, None);
}

#[test]
fn crossing_threshold_up_without_move_selects_nothing() {
    let world = test_world("X");
    let statics = vec![
        // The cursor (at the origin) sits inside this entity's region.
        Entity { id: ID::Building(BuildingID(0)), hit: Rect { x1: 0, y1: 0, x2: 500, y2: 500 } },
    ];
    let mut ui = fresh_ui(&world);
    ui.canvas.cam_zoom = 2;
    let mut input = UserInput::new(InputEvent::Scroll(5));
    ui.event(&mut input, &world, &statics, &vec![]);
    assert_eq!(ui.canvas.cam_zoom, 7);
    assert_eq!(ui.current_selection, None);
}

#[test]
fn mouse_move_at_high_zoom_selects() {
    let world = test_world("X");
    let statics = vec![
        Entity { id: ID::Building(BuildingID(0)), hit: Rect { x1: 0, y1: 0, x2: 500, y2: 500 } },
    ];
    let mut ui = fresh_ui(&world);
    ui.canvas.cam_x = 0;
    ui.canvas.cam_y = 0;
    ui.canvas.cam_zoom = 4;
    let mut input = UserInput::new(InputEvent::MouseMove(Pt { x: 40, y: 40 }));
    ui.event(&mut input, &world, &statics, &vec![]);
    assert_eq!(ui.current_selection, Some(ID::Building(BuildingID(0))));
}

#[test]
fn follow_starts_on_follow_key_and_centers_next_frame() {
    let world = test_world("X");
    let mut follow = FollowState::new();
    let mut canvas = Canvas::new(800, 600);
    let mut hints = RenderingHints::new();
    let mut recalc = false;
    let selection = Some(ID::Car(CarID(1)));

    let mut input = UserInput::new(InputEvent::KeyPress(Key::F));
    let active = follow.event(&mut input, &mut canvas, selection, &world, &mut hints, &mut recalc);
    assert!(active);
    assert_eq!(follow, FollowState::Active(TripID(7)));
    // The camera is untouched on the frame the follow starts.
    assert_eq!((canvas.cam_x, canvas.cam_y, canvas.cam_zoom), (0, 0, 1));

    // Next frame the simulation reports the trip's point: the camera
    // centers there, zoom unchanged.
    let mut input2 = UserInput::new(InputEvent::NoEvent);
    let active2 = follow.event(&mut input2, &mut canvas, None, &world, &mut hints, &mut recalc);
    assert!(active2);
    assert_eq!(canvas.cam_zoom, 1);
    assert_eq!(canvas.cursor_to_map_point(canvas.viewport_center()), Pt { x: 100, y: 200 });
}

#[test]
fn follow_needs_an_agent_with_a_trip() {
    let world = test_world("X");
    let mut follow = FollowState::new();
    let mut canvas = Canvas::new(800, 600);
    let mut hints = RenderingHints::new();
    let mut recalc = false;
    // A building is not a movable agent.
    let mut input = UserInput::new(InputEvent::KeyPress(Key::F));
    let active = follow.event(&mut input, &mut canvas, Some(ID::Building(BuildingID(0))), &world, &mut hints, &mut recalc);
    assert!(!active);
    assert_eq!(follow, FollowState::Empty);
    // An agent that carries no trip cannot be followed either.
    let mut input2 = UserInput::new(InputEvent::KeyPress(Key::F));
    let active2 = follow.event(&mut input2, &mut canvas, Some(ID::Car(CarID(2))), &world, &mut hints, &mut recalc);
    assert!(!active2);
    assert_eq!(follow, FollowState::Empty);
}

#[test]
fn follow_off_map_trip_leaves_camera_untouched() {
    let mut world = test_world("X");
    world.trip_pts.clear();
    let mut follow = FollowState::Active(TripID(7));
    let mut canvas = Canvas::new(800, 600);
    let mut hints = RenderingHints::new();
    let mut recalc = false;
    let mut input = UserInput::new(InputEvent::NoEvent);
    let active = follow.event(&mut input, &mut canvas, None, &world, &mut hints, &mut recalc);
    assert!(active);
    assert_eq!((canvas.cam_x, canvas.cam_y, canvas.cam_zoom), (0, 0, 1));
    assert_eq!(follow, FollowState::Active(TripID(7)));
}

#[test]
fn stop_key_reports_active_once_more() {
    let world = test_world("X");
    let mut follow = FollowState::Active(TripID(7));
    let mut canvas = Canvas::new(800, 600);
    let mut hints = RenderingHints::new();
    let mut recalc = false;

    let mut input = UserInput::new(InputEvent::KeyPress(Key::Return));
    let active = follow.event(&mut input, &mut canvas, None, &world, &mut hints, &mut recalc);
    assert!(active);
    assert_eq!(follow, FollowState::Empty);

    let mut input2 = UserInput::new(InputEvent::NoEvent);
    let active2 = follow.event(&mut input2, &mut canvas, None, &world, &mut hints, &mut recalc);
    assert!(!active2);
}

#[test]
fn a_key_is_reported_to_one_consumer_only() {
    let mut input = UserInput::new(InputEvent::KeyPress(Key::F));
    let first = input.key_pressed(Key::F, label("first"));
    let second = input.key_pressed(Key::F, label("second"));
    assert!(first);
    assert!(!second);
}

#[test]
fn an_unmatched_query_does_not_claim_the_key() {
    let mut input = UserInput::new(InputEvent::KeyPress(Key::Return));
    assert!(!input.key_pressed(Key::F, label("follow")));
    assert!(input.key_pressed(Key::Return, label("stop following")));
}

#[test]
fn osd_collects_labels_registered_this_frame() {
    let mut input = UserInput::new(InputEvent::KeyPress(Key::F));
    input.key_pressed(Key::F, label("follow"));
    input.key_pressed(Key::Return, label("stop following"));
    let mut osd: Vec<Label> = Vec::new();
    input.populate_osd(&mut osd);
    assert_eq!(osd.len(), 2);
    assert_eq!(osd[0].action, "follow");
    assert_eq!(osd[1].action, "stop following");
}

#[test]
fn quit_binding_fires_after_plugins() {
    let world = test_world("X");
    let mut ui = fresh_ui(&world);
    let mut input = UserInput::new(InputEvent::KeyPress(Key::Escape));
    let (mode, _hints, quit) = ui.event(&mut input, &world, &vec![], &vec![]);
    assert!(quit);
    assert_eq!(mode, EventLoopMode::InputOnly);
}

#[test]
fn active_plugin_consumes_its_key_before_quit_check() {
    let world = test_world("X");
    let mut ui = fresh_ui(&world);
    ui.follow = FollowState::Active(TripID(7));
    // The stop key is claimed by the follow plugin; it never reaches the
    // quit binding, and is gone for any later consumer of the frame.
    let mut input = UserInput::new(InputEvent::KeyPress(Key::Return));
    let (_, _, quit) = ui.event(&mut input, &world, &vec![], &vec![]);
    assert!(!quit);
    assert_eq!(ui.follow, FollowState::Empty);
}

#[test]
fn drag_pans_and_is_consumed() {
    let mut canvas = Canvas::new(800, 600);
    let mut input = UserInput::new(InputEvent::Drag(10, -5));
    canvas.handle_event(&mut input);
    assert!(canvas.is_dragging());
    assert_eq!((canvas.cam_x, canvas.cam_y), (10, -5));
    assert!(input.event_consumed);
}

#[test]
fn editor_state_encodes_to_exact_json() {
    let st = EditorState { map_name: "X".to_string(), cam_x: 5, cam_y: 6, cam_zoom: 2 };
    let bytes = encode_editor_state(&st);
    assert_eq!(bytes, b"{\"map_name\":\"X\",\"cam_x\":5,\"cam_y\":6,\"cam_zoom\":2}".to_vec());
    let neg = EditorState { map_name: "a b".to_string(), cam_x: -5, cam_y: 0, cam_zoom: 1 };
    let bytes2 = encode_editor_state(&neg);
    assert_eq!(bytes2, b"{\"map_name\":\"a b\",\"cam_x\":-5,\"cam_y\":0,\"cam_zoom\":1}".to_vec());
}

#[test]
fn editor_state_round_trips() {
    let st = EditorState { map_name: "X".to_string(), cam_x: 5, cam_y: 6, cam_zoom: 2 };
    let bytes = encode_editor_state(&st);
    let back = parse_editor_state(&bytes).unwrap();
    assert_eq!(back.map_name, "X");
    assert_eq!((back.cam_x, back.cam_y, back.cam_zoom), (5, 6, 2));
}

#[test]
fn parse_rejects_malformed_state() {
    assert!(parse_editor_state(&b"{}".to_vec()).is_none());
    assert!(parse_editor_state(&b"".to_vec()).is_none());
    assert!(
        parse_editor_state(&b"{\"map_name\":\"X\",\"cam_x\":-0,\"cam_y\":6,\"cam_zoom\":2}".to_vec())
            .is_none()
    );
    assert!(
        parse_editor_state(&b"{\"map_name\":\"X\",\"cam_x\":05,\"cam_y\":6,\"cam_zoom\":2}".to_vec())
            .is_none()
    );
    assert!(
        parse_editor_state(&b"{\"map_name\":\"X\",\"cam_x\":5,\"cam_y\":6,\"cam_zoom\":2} ".to_vec())
            .is_none()
    );
}

#[test]
fn saved_state_applies_only_to_matching_map() {
    let world_x = test_world("X");
    let saved = EditorState { map_name: "X".to_string(), cam_x: 5, cam_y: 6, cam_zoom: 2 };
    let ui = UI::new(&world_x, Canvas::new(800, 600), Some(saved)).unwrap();
    assert_eq!((ui.canvas.cam_x, ui.canvas.cam_y, ui.canvas.cam_zoom), (5, 6, 2));

    let world_y = test_world("Y");
    let saved2 = EditorState { map_name: "X".to_string(), cam_x: 5, cam_y: 6, cam_zoom: 2 };
    let ui2 = UI::new(&world_y, Canvas::new(800, 600), Some(saved2)).unwrap();
    // Fallback: centered on the first building's canonical point.
    assert_eq!(ui2.canvas.cursor_to_map_point(ui2.canvas.viewport_center()), Pt { x: 10, y: 20 });
    assert_eq!(ui2.canvas.cam_zoom, 1);
}

#[test]
fn startup_fails_without_any_canonical_point() {
    let world = World {
        map_name: "X".to_string(),
        building_pts: vec![],
        lane_pts: vec![],
        agent_trips: vec![],
        trip_pts: vec![],
    };
    let r = UI::new(&world, Canvas::new(800, 600), None);
    assert!(matches!(r, Err(InitError::NoCanonicalPoint)));
}

#[test]
fn startup_falls_back_to_first_lane() {
    let mut world = test_world("X");
    world.building_pts.clear();
    let ui = UI::new(&world, Canvas::new(800, 600), None).unwrap();
    assert_eq!(ui.canvas.cursor_to_map_point(ui.canvas.viewport_center()), Pt { x: 30, y: 40 });
}

#[test]
fn repeated_chains_are_recorded_once() {
    let mut set = BacktraceSet::new();
    let chain = vec![b"evt".to_vec(), b"a::b".to_vec()];
    set.insert(chain.clone());
    let once = backtraces_json(&set);
    set.insert(chain.clone());
    let twice = backtraces_json(&set);
    assert_eq!(once, twice);
    assert!(set.contains_chain(&chain));
    assert_eq!(once, b"[[\"evt\",\"a::b\"]]".to_vec());
}

#[test]
fn capture_twice_from_one_call_path_inserts_once() {
    let mut set = BacktraceSet::new();
    capture_backtrace(&mut set, "evt", "this_boundary_frame_never_occurs");
    let once = backtraces_json(&set);
    capture_backtrace(&mut set, "evt", "this_boundary_frame_never_occurs");
    let twice = backtraces_json(&set);
    assert_eq!(once, twice);
}

#[test]
fn json_escapes_delimiters() {
    let mut set = BacktraceSet::new();
    set.insert(vec![vec![34u8, 92u8, 7u8, 65u8]]);
    assert_eq!(backtraces_json(&set), b"[[\"\\\"\\\\?A\"]]".to_vec());
}

#[test]
fn color_overrides_first_registration_wins() {
    let mut hints = RenderingHints::new();
    let red = Color { r: 255, g: 0, b: 0, a: 255 };
    let blue = Color { r: 0, g: 0, b: 255, a: 255 };
    let id = ID::Lane(LaneID(3));
    hints.set_color_override(id, red);
    hints.set_color_override(id, blue);
    assert_eq!(hints.get_color_override(id), Some(red));
    assert_eq!(hints.get_color_override(ID::Lane(LaneID(4))), None);
}

#[test]
fn draw_directives_keep_draw_order() {
    let world = test_world("X");
    let ui = fresh_ui(&world);
    let statics = vec![
        Entity { id: ID::Building(BuildingID(0)), hit: Rect { x1: 0, y1: 0, x2: 1, y2: 1 } },
        Entity { id: ID::Lane(LaneID(1)), hit: Rect { x1: 0, y1: 0, x2: 1, y2: 1 } },
    ];
    let dynamics = vec![
        Entity { id: ID::Car(CarID(9)), hit: Rect { x1: 0, y1: 0, x2: 1, y2: 1 } },
    ];
    let mut hints = RenderingHints::new();
    let red = Color { r: 255, g: 0, b: 0, a: 255 };
    hints.set_color_override(ID::Car(CarID(9)), red);
    let directives = ui.draw_directives(&statics, &dynamics, &hints, false);
    assert_eq!(directives.len(), 3);
    assert_eq!(directives[0].0, ID::Building(BuildingID(0)));
    assert_eq!(directives[1].0, ID::Lane(LaneID(1)));
    assert_eq!(directives[2].0, ID::Car(CarID(9)));
    assert_eq!(directives[0].1.color, None);
    assert_eq!(directives[2].1.color, Some(red));
    assert_eq!(ui.color_obj(ID::Car(CarID(9)), &hints), Some(red));
}

#[test]
fn follow_label_names_the_agent() {
    let world = test_world("X");
    let mut follow = FollowState::new();
    let mut canvas = Canvas::new(800, 600);
    let mut hints = RenderingHints::new();
    let mut recalc = false;
    let mut input = UserInput::new(InputEvent::NoEvent);
    follow.event(&mut input, &mut canvas, Some(ID::Car(CarID(1))), &world, &mut hints, &mut recalc);
    assert_eq!(input.labels.len(), 1);
    assert_eq!(input.labels[0].action, "follow");
    assert_eq!(input.labels[0].subject, Some(AgentID::Car(CarID(1))));
}
