use std::collections::HashMap;

use directscreen_core::touch_router::{
    build_passthrough_frame_events, display_transform, first_missing_touch_axis,
    has_passthrough_active_touch, kind_to_phase, resolve_pointer_route, touch_axis_caps,
    InputRecord, PointerRoute, SlotState, TouchDisplayTransform, TouchPhase, TouchRouterConfig,
    TouchRouterError, ABS_MT_POSITION_X, ABS_MT_POSITION_Y, ABS_MT_SLOT, ABS_MT_TRACKING_ID,
    BTN_TOUCH, EV_ABS, EV_KEY, EV_SYN, SYN_REPORT, TOUCH_PACKET_DOWN, TOUCH_PACKET_MOVE,
    TOUCH_PACKET_UP,
};
use directscreen_core::touch_tracker::{TouchTracker, FrameOutput};

fn abs(code: u16, value: i32) -> InputRecord {
    InputRecord { event_type: EV_ABS, code, value }
}

fn syn() -> InputRecord {
    InputRecord { event_type: EV_SYN, code: SYN_REPORT, value: 0 }
}

fn feed(t: &mut TouchTracker, events: &[InputRecord], time_us: u64) -> bool {
    let mut end = false;
    for ev in events {
        end = t.on_event(*ev, time_us);
    }
    end
}

fn end_frame(t: &mut TouchTracker, hit: bool) -> FrameOutput {
    let hits = vec![hit; t.pending.len()];
    t.finish_frame(&hits)
}

#[test]
fn packet_kinds_map_to_phases() {
    assert_eq!(kind_to_phase(TOUCH_PACKET_DOWN), Some(TouchPhase::Down));
    assert_eq!(kind_to_phase(TOUCH_PACKET_MOVE), Some(TouchPhase::Move));
    assert_eq!(kind_to_phase(TOUCH_PACKET_UP), Some(TouchPhase::Up));
    assert_eq!(kind_to_phase(9), None);
}

#[test]
fn pointer_route_is_kept_from_down_to_up() {
    let mut routes: HashMap<i32, PointerRoute> = HashMap::new();
    assert_eq!(resolve_pointer_route(TOUCH_PACKET_DOWN, 4, true, &mut routes), PointerRoute::Ui);
    assert_eq!(resolve_pointer_route(TOUCH_PACKET_MOVE, 4, false, &mut routes), PointerRoute::Ui);
    assert_eq!(resolve_pointer_route(TOUCH_PACKET_UP, 4, false, &mut routes), PointerRoute::Ui);
    assert!(routes.is_empty());
    assert_eq!(
        resolve_pointer_route(TOUCH_PACKET_MOVE, 4, true, &mut routes),
        PointerRoute::PassThrough
    );
}

#[test]
fn passthrough_frame_announces_slot_and_drops_touch_keys() {
    let mut slots: HashMap<i32, SlotState> = HashMap::new();
    slots.insert(1, SlotState { active: true, pointer_id: 9, raw_x: 0, raw_y: 0 });
    let mut routes: HashMap<i32, PointerRoute> = HashMap::new();
    routes.insert(9, PointerRoute::PassThrough);
    let frame_routes: HashMap<i32, PointerRoute> = HashMap::new();
    let events = vec![
        abs(ABS_MT_SLOT, 1),
        abs(ABS_MT_POSITION_X, 100),
        abs(0x00, 5),
        InputRecord { event_type: EV_KEY, code: BTN_TOUCH, value: 1 },
        InputRecord { event_type: EV_KEY, code: 0x110, value: 1 },
    ];
    let out = build_passthrough_frame_events(&events, 0, &frame_routes, &slots, &routes);
    assert_eq!(
        out,
        vec![
            abs(ABS_MT_SLOT, 1),
            abs(ABS_MT_POSITION_X, 100),
            InputRecord { event_type: EV_KEY, code: 0x110, value: 1 },
        ]
    );
    assert!(has_passthrough_active_touch(&slots, &routes));
    routes.insert(9, PointerRoute::Ui);
    assert!(!has_passthrough_active_touch(&slots, &routes));
}

#[test]
fn touch_on_ui_is_routed_to_ui_and_hidden_from_system() {
    let mut t = TouchTracker::new();
    let end = feed(
        &mut t,
        &[abs(ABS_MT_TRACKING_ID, 7), abs(ABS_MT_POSITION_X, 50), abs(ABS_MT_POSITION_Y, 60)],
        10,
    );
    assert!(!end);
    assert!(t.on_event(syn(), 11));
    assert_eq!(t.pending.len(), 1);
    let (slot, p) = t.pending[0];
    assert_eq!(slot, 0);
    assert_eq!(p.kind, TOUCH_PACKET_DOWN);
    assert_eq!((p.pointer_id, p.raw_x, p.raw_y, p.event_time_us), (7, 50, 60, 10));
    let out = end_frame(&mut t, true);
    assert_eq!(out.routes, vec![Some(PointerRoute::Ui)]);
    assert!(out.passthrough.is_empty());
    assert!(t.pending.is_empty());
    assert!(t.frame_events.is_empty());

    feed(&mut t, &[abs(ABS_MT_TRACKING_ID, -1)], 20);
    assert!(t.on_event(syn(), 21));
    assert_eq!(t.pending[0].1.kind, TOUCH_PACKET_UP);
    let out = end_frame(&mut t, false);
    assert_eq!(out.routes, vec![Some(PointerRoute::Ui)]);
    assert!(out.passthrough.is_empty());
}

#[test]
fn touch_off_ui_passes_through_with_btn_touch() {
    let mut t = TouchTracker::new();
    feed(&mut t, &[abs(ABS_MT_TRACKING_ID, 3), abs(ABS_MT_POSITION_X, 5)], 1);
    t.on_event(syn(), 2);
    let out = end_frame(&mut t, false);
    assert_eq!(out.routes, vec![Some(PointerRoute::PassThrough)]);
    assert_eq!(
        out.passthrough,
        vec![
            abs(ABS_MT_SLOT, 0),
            abs(ABS_MT_TRACKING_ID, 3),
            abs(ABS_MT_POSITION_X, 5),
            InputRecord { event_type: EV_KEY, code: BTN_TOUCH, value: 1 },
        ]
    );
    assert!(t.btn_touch_down);

    feed(&mut t, &[abs(ABS_MT_POSITION_X, 8)], 3);
    t.on_event(syn(), 4);
    assert_eq!(t.pending[0].1.kind, TOUCH_PACKET_MOVE);
    let out = end_frame(&mut t, true);
    assert_eq!(out.routes, vec![Some(PointerRoute::PassThrough)]);
    assert_eq!(out.passthrough, vec![abs(ABS_MT_SLOT, 0), abs(ABS_MT_POSITION_X, 8)]);

    feed(&mut t, &[abs(ABS_MT_TRACKING_ID, -1)], 5);
    t.on_event(syn(), 6);
    let out = end_frame(&mut t, false);
    assert_eq!(
        out.passthrough,
        vec![
            abs(ABS_MT_SLOT, 0),
            abs(ABS_MT_TRACKING_ID, -1),
            InputRecord { event_type: EV_KEY, code: BTN_TOUCH, value: 0 },
        ]
    );
    assert!(!t.btn_touch_down);
}

#[test]
fn pending_touches_come_in_slot_order() {
    let mut t = TouchTracker::new();
    feed(
        &mut t,
        &[
            abs(ABS_MT_SLOT, 2),
            abs(ABS_MT_TRACKING_ID, 20),
            abs(ABS_MT_SLOT, 0),
            abs(ABS_MT_TRACKING_ID, 10),
            abs(ABS_MT_SLOT, 1),
            abs(ABS_MT_TRACKING_ID, 11),
        ],
        1,
    );
    t.on_event(syn(), 2);
    let slots: Vec<i32> = t.pending.iter().map(|e| e.0).collect();
    assert_eq!(slots, vec![0, 1, 2]);
    let ids: Vec<i32> = t.pending.iter().map(|e| e.1.pointer_id).collect();
    assert_eq!(ids, vec![10, 11, 20]);
    let out = t.finish_frame(&vec![true, false, true]);
    assert_eq!(
        out.routes,
        vec![Some(PointerRoute::Ui), Some(PointerRoute::PassThrough), Some(PointerRoute::Ui)]
    );
    assert_eq!(t.frame_start_slot, 1);
}

#[test]
fn position_update_keeps_pending_down() {
    let mut t = TouchTracker::new();
    feed(&mut t, &[abs(ABS_MT_TRACKING_ID, 1), abs(ABS_MT_POSITION_Y, 9)], 5);
    feed(&mut t, &[abs(ABS_MT_POSITION_X, 4)], 7);
    assert_eq!(t.pending.len(), 1);
    let p = t.pending[0].1;
    assert_eq!(p.kind, TOUCH_PACKET_DOWN);
    assert_eq!((p.raw_x, p.raw_y, p.event_time_us), (4, 9, 7));
}

#[test]
fn display_transform_checks_size_and_rotation() {
    assert_eq!(
        display_transform(1080, 2400, 1),
        Ok(TouchDisplayTransform { width: 1080, height: 2400, rotation: 1 })
    );
    assert_eq!(display_transform(0, 10, 0), Err(TouchRouterError::ScreenSizeInvalid));
    assert_eq!(display_transform(10, 10, 4), Err(TouchRouterError::RotationOutOfRange));
    assert_eq!(display_transform(u32::MAX, 10, 0).unwrap().width, i32::MAX);
    assert_eq!(TouchRouterError::RotationOutOfRange.message(), "rotation_must_be_0_3");
}

#[test]
fn router_config_rejects_blank_route_name() {
    let cfg = TouchRouterConfig {
        control_socket_path: "/tmp/c.sock".to_string(),
        data_socket_path: "/tmp/d.sock".to_string(),
        route_name: "  ".to_string(),
        device_path: "/dev/input/event0".to_string(),
        screen_width: 100,
        screen_height: 200,
        rotation: 0,
        quiet: true,
    };
    assert_eq!(cfg.validate(), Err(TouchRouterError::RouteNameEmpty));
    let ok = TouchRouterConfig { route_name: "overlay".to_string(), ..cfg };
    assert!(ok.validate().is_ok());
}

#[test]
fn axis_checks() {
    let all = vec![ABS_MT_SLOT, ABS_MT_POSITION_X, ABS_MT_POSITION_Y, ABS_MT_TRACKING_ID];
    assert_eq!(first_missing_touch_axis(&all), None);
    let some = vec![ABS_MT_POSITION_X, ABS_MT_TRACKING_ID];
    assert_eq!(first_missing_touch_axis(&some), Some(ABS_MT_POSITION_Y));
    assert!(touch_axis_caps((0, 0), (0, 100), (0, 9), (0, 65535)).is_none());
    let caps = touch_axis_caps((0, 1079), (0, 2399), (0, 9), (0, 65535)).unwrap();
    assert_eq!((caps.x_max, caps.y_max, caps.slot_max), (1079, 2399, 9));
}
