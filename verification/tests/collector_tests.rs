use session_pipeline::collector::{
    drain_window, FrameRecord, FrameSource, InputCollector, InputState, MockCapture,
    MockInputCollector,
};
use session_pipeline::events::{
    make_key_event, make_mouse_button_event, make_mouse_move_event, InputEventKind, MouseButton,
};
use session_pipeline::gui::{
    is_tmp_name, map_package_status, map_status, select_sessions, zip_entry_name,
    GuiPackageStatus, GuiPackageStatusDto, GuiStatus, GuiStatusDto,
};
use session_pipeline::keys::{build_key_specs, keyboard_key_name};
use session_pipeline::polling::PollingCollector;
use session_pipeline::rawdecode::{decode_keyboard, decode_mouse, event_passes_gate, sign_extend16};
use session_pipeline::snapshot::{normalize_milli, CursorProvider};

#[test]
fn key_state_tracks_down_keys() {
    let mut state = InputState::new();
    let down = make_key_event(10, "W", true);
    let up = make_key_event(20, "W", false);

    state.apply_event(&down);
    assert!(state.contains("W"));

    state.apply_event(&up);
    assert!(!state.contains("W"));
}

#[test]
fn key_state_tracks_mouse_buttons_as_virtual_keys() {
    let mut state = InputState::new();
    state.apply_event(&make_mouse_button_event(10, MouseButton::Right, true));
    assert!(state.contains("MouseRight"));
    state.apply_event(&make_mouse_button_event(20, MouseButton::Right, false));
    assert!(!state.contains("MouseRight"));
}

#[test]
fn mock_collector_drains_by_window() {
    let events = vec![
        make_key_event(10, "A", true),
        make_key_event(20, "A", false),
        make_key_event(250, "B", true),
    ];
    let mut collector = MockInputCollector::new(events);
    let first = collector.drain_events(0, 200).unwrap();
    assert_eq!(first.len(), 2);
    assert!(first.iter().all(|e| e.qpc_ts < 200));
    let second = collector.drain_events(200, 400).unwrap();
    assert_eq!(second.len(), 1);
    assert_eq!(second[0].qpc_ts, 250);
}

#[test]
fn mock_collector_discards_stale_events() {
    let events = vec![make_key_event(10, "A", true), make_key_event(150, "B", true)];
    let mut collector = MockInputCollector::new(events);
    let out = collector.drain_events(100, 200).unwrap();
    assert_eq!(out.len(), 1);
    assert_eq!(out[0].qpc_ts, 150);
}

#[test]
fn drain_window_keeps_later_events_buffered() {
    let mut buffer = vec![
        make_key_event(5, "A", true),
        make_key_event(50, "B", true),
        make_key_event(300, "C", true),
    ];
    let out = drain_window(&mut buffer, 10, 200);
    assert_eq!(out.len(), 1);
    assert_eq!(out[0].qpc_ts, 50);
    assert_eq!(buffer.len(), 1);
    assert_eq!(buffer[0].qpc_ts, 300);
}

#[test]
fn drain_output_is_ordered_within_window() {
    let events = vec![
        make_mouse_move_event(11, 1, 1),
        make_mouse_move_event(12, 2, 2),
        make_mouse_move_event(13, 3, 3),
    ];
    let mut collector = MockInputCollector::new(events);
    let out = collector.drain_events(0, 100).unwrap();
    let stamps: Vec<u64> = out.iter().map(|e| e.qpc_ts).collect();
    let mut sorted = stamps.clone();
    sorted.sort();
    assert_eq!(stamps, sorted);
    assert!(stamps.iter().all(|t| *t < 100));
}

#[test]
fn mock_capture_replays_then_ends() {
    let frames = vec![
        FrameRecord { step_index: 0, qpc_ts: 10, is_foreground: true, pixels: vec![1, 2, 3, 4] },
        FrameRecord { step_index: 1, qpc_ts: 20, is_foreground: false, pixels: vec![5, 6, 7, 8] },
    ];
    let mut capture = MockCapture::new(frames);
    let f0 = capture.next_frame().unwrap();
    assert_eq!(f0.step_index, 0);
    assert_eq!(f0.pixels, vec![1, 2, 3, 4]);
    let f1 = capture.next_frame().unwrap();
    assert_eq!(f1.qpc_ts, 20);
    assert!(!f1.is_foreground);
    assert!(capture.next_frame().is_err());
}

#[test]
fn key_table_maps_known_codes() {
    assert_eq!(keyboard_key_name(0x41), Some("A"));
    assert_eq!(keyboard_key_name(0x5A), Some("Z"));
    assert_eq!(keyboard_key_name(0x39), Some("nine"));
    assert_eq!(keyboard_key_name(0x70), Some("One"));
    assert_eq!(keyboard_key_name(0x7B), Some("Twelve"));
    assert_eq!(keyboard_key_name(0x10), Some("Shift"));
    assert_eq!(keyboard_key_name(0x20), Some("Space"));
    assert_eq!(keyboard_key_name(0x26), Some("Up"));
    assert_eq!(keyboard_key_name(0x30), None);
    assert_eq!(keyboard_key_name(0xAB), None);
}

#[test]
fn raw_keyboard_decoding() {
    let down = decode_keyboard(0x57, 0, 42).unwrap();
    assert_eq!(down.qpc_ts, 42);
    assert!(matches!(&down.kind, InputEventKind::KeyDown { key } if key == "W"));
    let up = decode_keyboard(0x57, 1, 43).unwrap();
    assert!(matches!(&up.kind, InputEventKind::KeyUp { key } if key == "W"));
    assert!(decode_keyboard(0xFF, 0, 44).is_none());
    assert!(decode_keyboard(0x07, 0, 45).is_none());
}

#[test]
fn raw_mouse_decoding() {
    // left press and a wheel tick of -120 in one message
    let events = decode_mouse(0, 0, 0x0001 | 0x0400, 0xFF88, 9);
    assert_eq!(events.len(), 2);
    assert!(matches!(
        events[0].kind,
        InputEventKind::MouseButton { button: MouseButton::Left, is_down: true }
    ));
    assert!(matches!(events[1].kind, InputEventKind::MouseWheel { delta: -120 }));

    // motion comes first when both axes moved
    let events = decode_mouse(3, -2, 0, 0, 10);
    assert_eq!(events.len(), 1);
    assert!(matches!(events[0].kind, InputEventKind::MouseMove { dx: 3, dy: -2 }));

    // the data bit picks the second extended button
    let events = decode_mouse(0, 0, 0x0040, 0x0002, 11);
    assert!(matches!(
        events[0].kind,
        InputEventKind::MouseButton { button: MouseButton::X2, is_down: true }
    ));
    let events = decode_mouse(0, 0, 0x0040, 0x0001, 12);
    assert!(matches!(
        events[0].kind,
        InputEventKind::MouseButton { button: MouseButton::X1, is_down: true }
    ));
}

#[test]
fn wheel_field_sign_extends() {
    assert_eq!(sign_extend16(120), 120);
    assert_eq!(sign_extend16(0xFF88), -120);
    assert_eq!(sign_extend16(0x8000), -32768);
}

#[test]
fn polling_key_transitions() {
    let mut collector = PollingCollector::new(None);
    let n = collector.keys.len();
    let name0 = collector.keys[0].1;

    // key 0 reported down: a press is reported and remembered
    let mut readings = vec![0u16; n];
    readings[0] = 0x8000;
    let out = collector.sample(&readings, &vec![0u16; 5], None, 0, 200, true, true);
    assert_eq!(out.len(), 1);
    assert_eq!(out[0].qpc_ts, 199);
    assert!(matches!(&out[0].kind, InputEventKind::KeyDown { key } if key == name0));

    // now released: a release is reported
    let readings = vec![0u16; n];
    let out = collector.sample(&readings, &vec![0u16; 5], None, 200, 400, true, true);
    assert_eq!(out.len(), 1);
    assert!(matches!(&out[0].kind, InputEventKind::KeyUp { key } if key == name0));

    // a tap between polls reports a press and a release
    let mut readings = vec![0u16; n];
    readings[1] = 0x0001;
    let out = collector.sample(&readings, &vec![0u16; 5], None, 400, 600, true, true);
    assert_eq!(out.len(), 2);
    assert!(matches!(out[0].kind, InputEventKind::KeyDown { .. }));
    assert!(matches!(out[1].kind, InputEventKind::KeyUp { .. }));
}

#[test]
fn polling_mouse_and_cursor() {
    let mut collector = PollingCollector::new(Some((100, 100)));
    let n = collector.keys.len();
    let mut mouse = vec![0u16; 5];
    mouse[0] = 0x8000;
    let out = collector.sample(&vec![0u16; n], &mouse, Some((103, 99)), 0, 200, false, true);
    assert_eq!(out.len(), 2);
    assert!(matches!(
        out[0].kind,
        InputEventKind::MouseButton { button: MouseButton::Left, is_down: true }
    ));
    assert!(matches!(out[1].kind, InputEventKind::MouseMove { dx: 3, dy: -1 }));
}

#[test]
fn status_events_map_field_for_field() {
    let dto = map_status(GuiStatus::Frame { step_index: 3, qpc_ts: 99, is_foreground: true });
    assert!(matches!(
        dto,
        GuiStatusDto::Frame { step_index: 3, qpc_ts: 99, is_foreground: true }
    ));
    let dto = map_status(GuiStatus::Error { message: "boom".to_string() });
    assert!(matches!(dto, GuiStatusDto::Error { message } if message == "boom"));
    let dto = map_package_status(GuiPackageStatus::Finished {
        output_zip: "out.zip".to_string(),
        deleted: false,
    });
    assert!(matches!(
        dto,
        GuiPackageStatusDto::Finished { output_zip, deleted: false } if output_zip == "out.zip"
    ));
}

#[test]
fn packaging_name_rules() {
    assert!(is_tmp_name("run.tmp"));
    assert!(!is_tmp_name("run"));
    assert!(!is_tmp_name("tmp"));

    let available = vec!["a".to_string(), "b.tmp".to_string(), "c".to_string()];
    let picked = select_sessions(&available, &Vec::new());
    assert_eq!(picked, vec!["a".to_string(), "c".to_string()]);

    let requested = vec!["b.tmp".to_string()];
    let picked = select_sessions(&available, &requested);
    assert_eq!(picked, vec!["b.tmp".to_string()]);

    assert_eq!(zip_entry_name("a\\b/c.txt"), "a/b/c.txt");
    assert_eq!(zip_entry_name("plain.txt"), "plain.txt");
}

#[test]
fn cursor_probe_normalizes_and_gates() {
    assert_eq!(normalize_milli(150, 100, 300), 250);
    assert_eq!(normalize_milli(100, 100, 300), 0);
    assert_eq!(normalize_milli(300, 100, 300), 1000);
    assert_eq!(normalize_milli(50, 100, 300), 0);
    assert_eq!(normalize_milli(400, 100, 300), 1000);
    assert_eq!(normalize_milli(5, 10, 10), 0);

    let inside = CursorProvider::probed(true, 200, 150, 100, 100, 300, 200);
    assert!(inside.visible);
    assert_eq!(inside.x_milli, 500);
    assert_eq!(inside.y_milli, 500);

    let outside = CursorProvider::probed(true, 400, 150, 100, 100, 300, 200);
    assert!(!outside.visible);

    let hidden = CursorProvider::probed(false, 200, 150, 100, 100, 300, 200);
    assert!(!hidden.visible);

    let neutral = CursorProvider::neutral();
    assert!(!neutral.visible);
    assert_eq!(neutral.x_milli, 500);
    assert_eq!(neutral.y_milli, 500);
}

#[test]
fn foreground_gate_decides_by_target() {
    assert!(event_passes_gate(None, 42));
    assert!(event_passes_gate(Some(42), 42));
    assert!(!event_passes_gate(Some(42), 43));
}

#[test]
fn mock_drain_exact_two_window_replay() {
    let events = vec![make_key_event(10, "W", true), make_key_event(20, "W", false)];
    let mut collector = MockInputCollector::new(events);
    let first = collector.drain_events(0, 15).unwrap();
    assert_eq!(first.len(), 1);
    assert_eq!(first[0].qpc_ts, 10);
    assert!(matches!(&first[0].kind, InputEventKind::KeyDown { key } if key == "W"));
    let second = collector.drain_events(15, 200).unwrap();
    assert_eq!(second.len(), 1);
    assert_eq!(second[0].qpc_ts, 20);
    assert!(matches!(&second[0].kind, InputEventKind::KeyUp { key } if key == "W"));
    let third = collector.drain_events(200, 400).unwrap();
    assert!(third.is_empty());
}

#[test]
fn key_spec_list_is_complete_and_distinct() {
    let specs = build_key_specs();
    assert_eq!(specs.len(), 58);
    // probe order: letters, digits, function keys, then the named extras
    assert_eq!(specs[0], (0x41, "A"));
    assert_eq!(specs[25], (0x5A, "Z"));
    assert_eq!(specs[26], (0x31, "one"));
    assert_eq!(specs[35], (0x70, "One"));
    assert_eq!(specs[47], (0x10, "Shift"));
    assert_eq!(specs[57], (0x27, "Right"));
    for i in 0..specs.len() {
        assert_eq!(keyboard_key_name(specs[i].0), Some(specs[i].1));
        for j in 0..i {
            assert_ne!(specs[i].0, specs[j].0);
        }
    }
    for vk in 0u16..0x200 {
        if keyboard_key_name(vk).is_some() {
            assert!(specs.iter().any(|p| p.0 == vk));
        }
    }
}
