use directscreen_core::frames::checksum_enabled_from;
use directscreen_core::api::{Decision, Status};
use directscreen_core::engine::{DisplayState, RectRegion, RuntimeEngine, TouchEvent};
use directscreen_core::keyboard::{
    KEYBOARD_EVENT_KIND_BACKSPACE, KEYBOARD_EVENT_KIND_CHAR, KEYBOARD_EVENT_KIND_DONE,
};

fn region(region_id: i32, decision: Decision, x: f32, y: f32, w: f32, h: f32) -> RectRegion {
    RectRegion {
        region_id,
        decision,
        x: x.to_bits(),
        y: y.to_bits(),
        w: w.to_bits(),
        h: h.to_bits(),
    }
}

fn hits(engine: &RuntimeEngine, x: f32, y: f32) -> Vec<bool> {
    engine
        .regions()
        .iter()
        .map(|r| {
            let rx = f32::from_bits(r.x);
            let ry = f32::from_bits(r.y);
            let rw = f32::from_bits(r.w);
            let rh = f32::from_bits(r.h);
            x >= rx && x <= rx + rw && y >= ry && y <= ry + rh
        })
        .collect()
}

fn touch(pointer_id: i32, x: f32, y: f32) -> TouchEvent {
    TouchEvent { pointer_id, x: x.to_bits(), y: y.to_bits() }
}

fn display(width: u32, height: u32, refresh_hz: f32, density_dpi: u32, rotation: u32) -> DisplayState {
    DisplayState { width, height, refresh_hz: refresh_hz.to_bits(), density_dpi, rotation }
}

#[test]
fn route_prefers_last_added_region() {
    let mut engine = RuntimeEngine::default();
    engine.add_region_rect(region(1, Decision::Pass, 0.0, 0.0, 100.0, 100.0)).expect("region 1");
    engine.add_region_rect(region(2, Decision::Block, 10.0, 10.0, 20.0, 20.0)).expect("region 2");
    let h = hits(&engine, 15.0, 15.0);
    let res = engine.route_point(&h);
    assert_eq!(res.decision, Decision::Block);
    assert_eq!(res.region_id, 2);
}

#[test]
fn route_without_region_hit_uses_default_decision() {
    let mut engine = RuntimeEngine::default();
    engine.add_region_rect(region(4, Decision::Block, 0.0, 0.0, 10.0, 10.0)).expect("region");
    engine.set_default_decision(Decision::Block);
    let h = hits(&engine, 50.0, 50.0);
    let res = engine.route_point(&h);
    assert_eq!(res.decision, Decision::Block);
    assert_eq!(res.region_id, -1);
}

#[test]
fn region_with_bad_geometry_is_refused() {
    let mut engine = RuntimeEngine::default();
    assert_eq!(
        engine.add_region_rect(region(1, Decision::Pass, f32::NAN, 0.0, 1.0, 1.0)),
        Err(Status::InvalidArgument)
    );
    assert_eq!(
        engine.add_region_rect(region(1, Decision::Pass, 0.0, 0.0, 0.0, 1.0)),
        Err(Status::OutOfRange)
    );
    assert_eq!(engine.regions().len(), 0);
}

#[test]
fn touch_stream_locks_decision_until_up() {
    let mut engine = RuntimeEngine::default();
    engine.add_region_rect(region(9, Decision::Block, 0.0, 0.0, 100.0, 100.0)).expect("region");
    let h = hits(&engine, 10.0, 10.0);
    let down = engine.touch_down(touch(1, 10.0, 10.0), &h).expect("touch down");
    assert_eq!(down.decision, Decision::Block);
    assert_eq!(down.region_id, 9);

    engine.clear_regions();
    engine.add_region_rect(region(12, Decision::Pass, 0.0, 0.0, 100.0, 100.0)).expect("region2");

    let moved = engine.touch_move(touch(1, 20.0, 20.0)).expect("touch move");
    assert_eq!(moved.decision, Decision::Block);
    assert_eq!(moved.region_id, 9);

    let up = engine.touch_up(touch(1, 25.0, 25.0)).expect("touch up");
    assert_eq!(up.decision, Decision::Block);
    assert_eq!(up.region_id, 9);
    assert_eq!(engine.active_touch_count(), 0);
}

#[test]
fn touch_move_unknown_pointer_returns_error() {
    let mut engine = RuntimeEngine::default();
    let res = engine.touch_move(touch(3, 1.0, 1.0));
    assert_eq!(res, Err(Status::OutOfRange));
}

#[test]
fn touch_down_twice_and_seventeenth_pointer_are_refused() {
    let mut engine = RuntimeEngine::default();
    let h: Vec<bool> = Vec::new();
    for p in 0..16 {
        engine.touch_down(touch(p, 1.0, 1.0), &h).expect("down");
    }
    assert_eq!(engine.touch_down(touch(3, 1.0, 1.0), &h), Err(Status::InvalidArgument));
    assert_eq!(engine.touch_down(touch(16, 1.0, 1.0), &h), Err(Status::OutOfRange));
    assert_eq!(engine.touch_down(touch(-1, 1.0, 1.0), &h), Err(Status::OutOfRange));
    assert_eq!(engine.touch_down(touch(20, f32::INFINITY, 1.0), &h), Err(Status::InvalidArgument));
    assert_eq!(engine.active_touch_count(), 16);
    assert!(engine.touch_cancel(5).is_ok());
    assert_eq!(engine.touch_cancel(5), Err(Status::OutOfRange));
    assert_eq!(engine.touch_cancel(-2), Err(Status::OutOfRange));
    engine.clear_touches();
    assert_eq!(engine.active_touch_count(), 0);
}

#[test]
fn render_submit_increments_frame_seq_and_updates_stats() {
    let mut engine = RuntimeEngine::default();
    let first = engine.render_mut().submit_render_stats(7, 1, 2);
    assert_eq!(first.frame_seq, 1);
    assert_eq!(first.draw_calls, 7);
    assert_eq!(first.frost_passes, 1);
    assert_eq!(first.text_calls, 2);

    let second = engine.render_mut().submit_render_stats(12, 3, 4);
    assert_eq!(second.frame_seq, 2);
    assert_eq!(second.draw_calls, 12);
    assert_eq!(second.frost_passes, 3);
    assert_eq!(second.text_calls, 4);

    let got = engine.render().render_stats();
    assert_eq!(got, second);
}

const PIXELS: [u8; 16] = [
    255, 0, 0, 255, 0, 255, 0, 255, 0, 0, 255, 255, 255, 255, 255, 255,
];

#[test]
fn render_frame_submit_get_and_clear() {
    let mut engine = RuntimeEngine::default();
    let first = engine.render_mut().submit_render_frame_rgba_at(2, 2, &PIXELS, 0, 0).expect("submit first frame");
    assert_eq!(first.frame_seq, 1);
    assert_eq!(first.width, 2);
    assert_eq!(first.height, 2);
    assert_eq!(first.byte_len, 16);
    assert_ne!(first.checksum_fnv1a32, 0);
    assert_eq!(engine.render().render_frame_byte_len(), Some(16));

    let second = engine.render_mut().submit_render_frame_rgba_at(2, 2, &PIXELS, 0, 0).expect("submit second frame");
    assert_eq!(second.frame_seq, 2);

    let got = engine.render().render_frame_info().expect("frame info should exist");
    assert_eq!(got.frame_seq, 2);

    engine.render_mut().clear_render_frame();
    assert_eq!(engine.render().render_frame_info(), None);
    assert_eq!(engine.render().render_frame_byte_len(), None);
}

#[test]
fn render_frame_checksum_is_fnv1a_of_the_pixels() {
    let mut engine = RuntimeEngine::default();
    let info = engine.render_mut().submit_render_frame_rgba_at(1, 1, &[0x61, 0x62, 0x63, 0x64], 3, -4).expect("submit");
    // FNV-1a of "abcd".
    assert_eq!(info.checksum_fnv1a32, 0xce3479bd);
    assert_eq!(engine.render().render_frame_origin(), Some((3, -4)));
    let mut quiet = RuntimeEngine::new_with_checksum(false);
    let info = quiet.render_mut().submit_render_frame_rgba_at(1, 1, &[1, 2, 3, 4], 0, 0).expect("submit");
    assert_eq!(info.checksum_fnv1a32, 0);
}

#[test]
fn render_frame_rejects_invalid_length() {
    let mut engine = RuntimeEngine::default();
    let pixels = [1u8; 15];
    let out = engine.render_mut().submit_render_frame_rgba_at(2, 2, &pixels, 0, 0);
    assert_eq!(out, Err(Status::InvalidArgument));
    assert_eq!(engine.render_mut().submit_render_frame_rgba_at(0, 2, &pixels, 0, 0), Err(Status::InvalidArgument));
    assert_eq!(engine.render_mut().submit_render_frame_rgba_at(8192, 8192, &pixels, 0, 0), Err(Status::OutOfRange));
}

#[test]
fn render_present_updates_metadata_without_disk_io() {
    let mut engine = RuntimeEngine::default();
    let frame = engine.render_mut().submit_render_frame_rgba_at(2, 2, &PIXELS, 0, 0).expect("submit frame");
    let presented = engine.render_mut().render_present().expect("present frame");
    assert_eq!(presented.present_seq, 1);
    assert_eq!(presented.frame_seq, frame.frame_seq);
    assert_eq!(presented.width, 2);
    assert_eq!(presented.height, 2);
    assert_eq!(presented.byte_len, 16);

    let got = engine.render().render_present_get().expect("present state should exist");
    assert_eq!(got, presented);
}

#[test]
fn render_present_without_frame_returns_out_of_range() {
    let mut engine = RuntimeEngine::default();
    let out = engine.render_mut().render_present();
    assert_eq!(out, Err(Status::OutOfRange));
}

#[test]
fn render_frame_read_chunk_reads_partial_bytes() {
    let mut engine = RuntimeEngine::default();
    let pixels = (0u8..16u8).collect::<Vec<u8>>();
    let frame = engine.render_mut().submit_render_frame_rgba_at(2, 2, &pixels, 0, 0).expect("submit frame");

    let a = engine.render().render_frame_read_chunk(0, 6).expect("read first chunk");
    assert_eq!(a.frame_seq, frame.frame_seq);
    assert_eq!(a.total_bytes, 16);
    assert_eq!(a.offset, 0);
    assert_eq!(a.chunk_bytes, pixels[0..6].to_vec());

    let b = engine.render().render_frame_read_chunk(6, 6).expect("read second chunk");
    assert_eq!(b.offset, 6);
    assert_eq!(b.chunk_bytes, pixels[6..12].to_vec());

    let c = engine.render().render_frame_read_chunk(12, 16).expect("read last chunk");
    assert_eq!(c.offset, 12);
    assert_eq!(c.chunk_bytes, pixels[12..16].to_vec());
}

#[test]
fn render_frame_read_chunk_rejects_invalid_range() {
    let mut engine = RuntimeEngine::default();
    let pixels = vec![1u8; 16];
    engine.render_mut().submit_render_frame_rgba_at(2, 2, &pixels, 0, 0).expect("submit frame");
    assert_eq!(engine.render().render_frame_read_chunk(16, 1), Err(Status::OutOfRange));
    assert_eq!(engine.render().render_frame_read_chunk(0, 0), Err(Status::OutOfRange));
}

#[test]
fn wait_for_frame_wakes_on_new_frame() {
    let mut engine = RuntimeEngine::default();
    assert_eq!(engine.render().frame_after(0), None);
    let pixels = vec![255u8; 16];
    let frame = engine.render_mut().submit_render_frame_rgba_at(2, 2, &pixels, 0, 0).expect("submit frame");
    let waited = engine.render().frame_after(0).expect("new frame expected");
    assert_eq!(waited.frame_seq, frame.frame_seq);
    assert_eq!(engine.render().frame_after(frame.frame_seq), None);
}

#[test]
fn wait_for_frame_after_and_present_keeps_frame_consistent() {
    let mut engine = RuntimeEngine::default();
    // With no frame the wait ends on its timeout with nothing presented.
    assert_eq!(engine.render_mut().present_latest_if_newer(0), None);

    let pixels = vec![9u8; 16];
    let frame = engine.render_mut().submit_render_frame_rgba_at(2, 2, &pixels, 0, 0).expect("submit frame");

    let (waited_frame, waited_origin_x, waited_origin_y) =
        engine.render_mut().present_latest_if_newer(0).expect("frame expected");
    let waited_pixels = engine.render().render_frame_pixels().expect("frame pixels").clone();
    assert_eq!(waited_frame.frame_seq, frame.frame_seq);
    assert_eq!(waited_pixels.len(), frame.byte_len as usize);
    assert_eq!(waited_origin_x, 0);
    assert_eq!(waited_origin_y, 0);

    let present = engine.render().render_present_get().expect("present state exists");
    assert_eq!(present.frame_seq, waited_frame.frame_seq);
}

#[test]
fn wait_for_display_times_out_without_change() {
    let engine = RuntimeEngine::default();
    assert_eq!(engine.display_after(0), None);
}

#[test]
fn wait_for_display_wakes_on_change() {
    let mut engine = RuntimeEngine::default();
    let initial_seq = engine.display_signal_seq();
    engine.set_display_state(display(1200, 2400, 120.0, 420, 1)).expect("set display");
    let (seq, d) = engine.display_after(initial_seq).expect("display change expected");
    assert!(seq > initial_seq);
    assert_eq!(d.width, 1200);
    assert_eq!(d.height, 2400);
    assert_eq!(d.rotation, 1);
}

#[test]
fn display_state_validation() {
    let mut engine = RuntimeEngine::default();
    assert_eq!(engine.set_display_state(display(0, 10, 60.0, 420, 0)), Err(Status::InvalidArgument));
    assert_eq!(engine.set_display_state(display(10, 10, 0.0, 420, 0)), Err(Status::OutOfRange));
    assert_eq!(engine.set_display_state(display(10, 10, -60.0, 420, 0)), Err(Status::OutOfRange));
    assert_eq!(engine.set_display_state(display(10, 10, f32::NAN, 420, 0)), Err(Status::OutOfRange));
    assert_eq!(engine.set_display_state(display(10, 10, 60.0, 0, 0)), Err(Status::OutOfRange));
    assert_eq!(engine.set_display_state(display(10, 10, 60.0, 420, 4)), Err(Status::OutOfRange));
    assert_eq!(engine.display_signal_seq(), 0);
    // Setting the same parameters again is no change.
    let same = engine.display_state();
    engine.set_display_state(same).expect("same display");
    assert_eq!(engine.display_signal_seq(), 0);
    assert_eq!(f32::from_bits(same.refresh_hz), 60.0);
}

#[test]
fn display_change_clears_cached_render_frame() {
    let mut engine = RuntimeEngine::default();
    let pixels = vec![255u8; 16];
    engine.render_mut().submit_render_frame_rgba_at(2, 2, &pixels, 0, 0).expect("submit frame");
    assert!(engine.render().render_frame_info().is_some());
    engine.set_display_state(display(1200, 2400, 120.0, 420, 1)).expect("set display");
    assert_eq!(engine.render().render_frame_info(), None);
}

#[test]
fn keyboard_wait_wakes_on_new_event() {
    let mut engine = RuntimeEngine::default();
    assert_eq!(engine.keyboard().event_after(0), None);
    let event = engine.keyboard_mut().submit(KEYBOARD_EVENT_KIND_CHAR, 'A' as u32).expect("submit keyboard");
    let waited = engine.keyboard().event_after(0).expect("keyboard event expected");
    assert_eq!(waited.seq, event.seq);
    assert_eq!(waited.kind, KEYBOARD_EVENT_KIND_CHAR);
    assert_eq!(waited.codepoint, 'A' as u32);
    let second = engine.keyboard_mut().submit(KEYBOARD_EVENT_KIND_BACKSPACE, 0).expect("submit");
    assert_eq!(second.seq, event.seq + 1);
    assert_eq!(engine.keyboard().event_after(event.seq), Some(second));
}

#[test]
fn keyboard_queue_keeps_the_newest_events() {
    let mut engine = RuntimeEngine::default();
    for _ in 0..1030 {
        engine.keyboard_mut().submit(KEYBOARD_EVENT_KIND_CHAR, 'x' as u32).expect("submit");
    }
    let first = engine.keyboard().event_after(0).expect("kept event");
    assert_eq!(first.seq, 7);
}

#[test]
fn keyboard_event_validation_rejects_invalid_codepoint() {
    let mut engine = RuntimeEngine::default();
    assert_eq!(engine.keyboard_mut().submit(KEYBOARD_EVENT_KIND_CHAR, 0xD800), Err(Status::InvalidArgument));
    assert_eq!(engine.keyboard_mut().submit(KEYBOARD_EVENT_KIND_DONE, 1), Err(Status::InvalidArgument));
    assert_eq!(engine.keyboard_mut().submit(99, 0), Err(Status::InvalidArgument));
}

#[test]
fn render_dump_ppm_writes_file() {
    let mut engine = RuntimeEngine::default();
    let pixels = vec![
        255u8, 0u8, 0u8, 255u8, 0u8, 255u8, 0u8, 255u8, 0u8, 0u8, 255u8, 255u8, 255u8, 255u8, 255u8, 255u8,
    ];
    let frame = engine.render_mut().submit_render_frame_rgba_at(2, 2, &pixels, 0, 0).expect("submit frame");
    let (name, bytes) = engine.render_mut().render_dump_ppm().expect("dump ppm");
    assert_eq!(name, format!("frame_dump_00000001_frame_{:08}.ppm", frame.frame_seq));
    let mut expected = b"P6\n2 2\n255\n".to_vec();
    expected.extend_from_slice(&[255, 0, 0, 0, 255, 0, 0, 0, 255, 255, 255, 255]);
    assert_eq!(bytes, expected);
    let (second, _) = engine.render_mut().render_dump_ppm().expect("second dump");
    assert!(second.starts_with("frame_dump_00000002_"));
}

#[test]
fn render_dump_without_frame_is_out_of_range() {
    let mut engine = RuntimeEngine::default();
    assert_eq!(engine.render_mut().render_dump_ppm(), Err(Status::OutOfRange));
}

#[test]
fn checksum_switch_words() {
    assert!(checksum_enabled_from(None));
    assert!(checksum_enabled_from(Some("1")));
    assert!(checksum_enabled_from(Some("yes")));
    assert!(!checksum_enabled_from(Some(" OFF ")));
    assert!(!checksum_enabled_from(Some("False")));
    assert!(!checksum_enabled_from(Some("0")));
    assert!(!checksum_enabled_from(Some("no")));
}

#[test]
fn touch_up_gives_down_route_after_region_changes() {
    let mut engine = RuntimeEngine::default();
    engine.add_region_rect(region(4, Decision::Block, 0.0, 0.0, 50.0, 50.0)).expect("region");
    let h = hits(&engine, 5.0, 5.0);
    let down = engine.touch_down(touch(2, 5.0, 5.0), &h).expect("down");
    let other_h = hits(&engine, 80.0, 80.0);
    engine.touch_down(touch(3, 80.0, 80.0), &other_h).expect("other down");
    engine.clear_regions();
    engine.set_default_decision(Decision::Pass);
    engine.add_region_rect(region(7, Decision::Pass, 0.0, 0.0, 100.0, 100.0)).expect("region2");
    engine.touch_up(touch(3, 80.0, 80.0)).expect("other up");
    assert_eq!(engine.active_touch_count(), 1);
    let up = engine.touch_up(touch(2, 6.0, 6.0)).expect("up");
    assert_eq!(up, down);
    assert_eq!(up.region_id, 4);
    assert_eq!(engine.active_touch_count(), 0);
    assert_eq!(engine.touch_move(touch(2, 6.0, 6.0)), Err(Status::OutOfRange));
    assert_eq!(engine.touch_up(touch(2, 6.0, 6.0)), Err(Status::OutOfRange));
}
