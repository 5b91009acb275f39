use session_pipeline::aggregate::aggregate_window;
use session_pipeline::compiled::aggregate_window_with_compiled;
use session_pipeline::events::{make_key_event, make_mouse_button_event, make_mouse_move_event, make_mouse_wheel_event, MouseButton};
use session_pipeline::held::AggregatorState;
use session_pipeline::snapshot::CursorProvider;

fn hidden_cursor() -> CursorProvider {
    CursorProvider { visible: false, x_milli: 0, y_milli: 0 }
}

#[test]
fn single_keypress_snapshot() {
    let events = vec![make_key_event(10, "W", true), make_key_event(20, "W", false)];
    let mut state = AggregatorState::new();
    let cursor = hidden_cursor();
    let window = aggregate_window_with_compiled(&events, 0, 200, 0, true, &cursor, &mut state);
    let s = &window.snapshot;
    assert!(s.held_keys.is_empty());
    assert_eq!(s.key_presses.len(), 1);
    assert_eq!(s.key_presses[0].key, "W");
    assert_eq!(s.key_presses[0].down_ts, 10);
    assert_eq!(s.key_presses[0].up_ts, 20);
    assert_eq!(s.mouse_dx_total, 0);
    assert_eq!(s.mouse_dy_total, 0);
    assert_eq!(s.mouse_wheel_total, 0);
    assert_eq!(s.mouse_clicks.left, 0);
    assert!(window.compiled_action.starts_with("<|action_start|>"));
    assert!(window.compiled_action.contains("W"));
}

#[test]
fn single_keypress_compiled_exact() {
    let events = vec![make_key_event(10, "W", true), make_key_event(20, "W", false)];
    let mut state = AggregatorState::new();
    let cursor = hidden_cursor();
    let window = aggregate_window_with_compiled(&events, 0, 200, 0, true, &cursor, &mut state);
    assert_eq!(window.compiled_action, "<|action_start|>press=W@10-20<|action_end|>");
}

#[test]
fn cross_window_hold() {
    let mut state = AggregatorState::new();
    let cursor = hidden_cursor();
    let first = vec![make_key_event(50, "Shift", true)];
    let w0 = aggregate_window_with_compiled(&first, 0, 200, 0, true, &cursor, &mut state);
    assert_eq!(w0.snapshot.held_keys, vec!["Shift".to_string()]);
    assert!(w0.snapshot.key_presses.is_empty());

    let second = vec![make_key_event(250, "Shift", false)];
    let w1 = aggregate_window_with_compiled(&second, 200, 400, 1, true, &cursor, &mut state);
    assert!(w1.snapshot.held_keys.is_empty());
    assert_eq!(w1.snapshot.key_presses.len(), 1);
    assert_eq!(w1.snapshot.key_presses[0].key, "Shift");
    assert_eq!(w1.snapshot.key_presses[0].down_ts, 50);
    assert_eq!(w1.snapshot.key_presses[0].up_ts, 250);
}

#[test]
fn mouse_accumulation() {
    let events = vec![
        make_mouse_move_event(10, 3, -1),
        make_mouse_move_event(20, 2, 0),
        make_mouse_move_event(30, 0, 5),
    ];
    let mut state = AggregatorState::new();
    let cursor = hidden_cursor();
    let snapshot = aggregate_window(&events, 0, 200, 0, true, &cursor, &mut state);
    assert_eq!(snapshot.mouse_dx_total, 5);
    assert_eq!(snapshot.mouse_dy_total, 4);
}

#[test]
fn wheel_accumulation() {
    let events = vec![make_mouse_wheel_event(10, 120), make_mouse_wheel_event(20, -240)];
    let mut state = AggregatorState::new();
    let cursor = hidden_cursor();
    let snapshot = aggregate_window(&events, 0, 200, 0, true, &cursor, &mut state);
    assert_eq!(snapshot.mouse_wheel_total, -120);
}

#[test]
fn empty_window_compiled_is_bare_delimiters() {
    let events = Vec::new();
    let mut state = AggregatorState::new();
    let cursor = hidden_cursor();
    let window = aggregate_window_with_compiled(&events, 0, 200, 0, true, &cursor, &mut state);
    assert_eq!(window.compiled_action, "<|action_start|><|action_end|>");
}

#[test]
fn held_keys_come_out_sorted() {
    let events = vec![make_key_event(10, "B", true), make_key_event(20, "A", true)];
    let mut state = AggregatorState::new();
    let cursor = hidden_cursor();
    let window = aggregate_window_with_compiled(&events, 0, 200, 0, true, &cursor, &mut state);
    assert_eq!(window.snapshot.held_keys, vec!["A".to_string(), "B".to_string()]);
    assert!(window.compiled_action.contains("held=A+B"));
}

#[test]
fn unmatched_up_is_discarded() {
    let events = vec![make_key_event(10, "Q", false)];
    let mut state = AggregatorState::new();
    let cursor = hidden_cursor();
    let snapshot = aggregate_window(&events, 0, 200, 0, true, &cursor, &mut state);
    assert!(snapshot.key_presses.is_empty());
    assert!(snapshot.held_keys.is_empty());
}

#[test]
fn repeat_down_collapses_into_one_press() {
    let events = vec![
        make_key_event(10, "W", true),
        make_key_event(15, "W", true),
        make_key_event(20, "W", false),
    ];
    let mut state = AggregatorState::new();
    let cursor = hidden_cursor();
    let snapshot = aggregate_window(&events, 0, 200, 0, true, &cursor, &mut state);
    assert_eq!(snapshot.key_presses.len(), 1);
    assert_eq!(snapshot.key_presses[0].down_ts, 10);
    assert_eq!(snapshot.key_presses[0].up_ts, 20);
}

#[test]
fn click_counted_and_press_recorded() {
    let events = vec![
        make_mouse_button_event(10, MouseButton::Left, true),
        make_mouse_button_event(20, MouseButton::Left, false),
    ];
    let mut state = AggregatorState::new();
    let cursor = hidden_cursor();
    let window = aggregate_window_with_compiled(&events, 0, 200, 0, true, &cursor, &mut state);
    assert_eq!(window.snapshot.mouse_clicks.left, 1);
    assert_eq!(window.snapshot.key_presses.len(), 1);
    assert_eq!(window.snapshot.key_presses[0].key, "MouseLeft");
    assert_eq!(
        window.compiled_action,
        "<|action_start|>press=MouseLeft@10-20 click=MouseLeft*1<|action_end|>"
    );
}

#[test]
fn visible_cursor_renders_three_decimals() {
    let events = Vec::new();
    let mut state = AggregatorState::new();
    let cursor = CursorProvider { visible: true, x_milli: 500, y_milli: 250 };
    let window = aggregate_window_with_compiled(&events, 0, 200, 0, true, &cursor, &mut state);
    assert_eq!(window.compiled_action, "<|action_start|>cursor=0.500,0.250<|action_end|>");
}

#[test]
fn motion_and_wheel_render_signed() {
    let events = vec![make_mouse_move_event(10, 5, -4), make_mouse_wheel_event(20, -120)];
    let mut state = AggregatorState::new();
    let cursor = hidden_cursor();
    let window = aggregate_window_with_compiled(&events, 0, 200, 0, true, &cursor, &mut state);
    assert_eq!(window.compiled_action, "<|action_start|>move=5,-4 wheel=-120<|action_end|>");
}

#[test]
fn aggregation_is_deterministic() {
    let events = vec![
        make_key_event(10, "W", true),
        make_mouse_move_event(15, 2, 3),
        make_key_event(20, "W", false),
    ];
    let cursor = CursorProvider { visible: true, x_milli: 123, y_milli: 456 };
    let mut state1 = AggregatorState::new();
    let mut state2 = AggregatorState::new();
    let w1 = aggregate_window_with_compiled(&events, 0, 200, 3, true, &cursor, &mut state1);
    let w2 = aggregate_window_with_compiled(&events, 0, 200, 3, true, &cursor, &mut state2);
    assert_eq!(w1.compiled_action, w2.compiled_action);
    assert_eq!(w1.snapshot.held_keys, w2.snapshot.held_keys);
    assert_eq!(w1.snapshot.key_presses.len(), w2.snapshot.key_presses.len());
    assert_eq!(w1.snapshot.mouse_dx_total, w2.snapshot.mouse_dx_total);
    assert_eq!(state1.held_key_names(), state2.held_key_names());
}
