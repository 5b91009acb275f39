use session_pipeline::compiled::aggregate_window_with_compiled;
use session_pipeline::errors::SessionError;
use session_pipeline::events::{make_key_event, InputEvent, InputEventKind};
use session_pipeline::held::AggregatorState;
use session_pipeline::snapshot::CursorProvider;
use session_pipeline::writer::{frame_byte_count, JsonlWriter, SessionWriterCore, SessionWriters};

#[test]
fn writes_action_and_compiled_lines() {
    let events = vec![InputEvent {
        qpc_ts: 10,
        kind: InputEventKind::KeyDown { key: "W".to_string() },
    }];
    let cursor = CursorProvider { visible: false, x_milli: 0, y_milli: 0 };
    let mut state = AggregatorState::new();
    let window = aggregate_window_with_compiled(&events, 0, 200, 0, true, &cursor, &mut state);

    let mut writers = SessionWriters::new(10, 1000);
    writers.write_window(&window);
    let SessionWriters { actions, compiled } = writers;
    let actions_out = actions.into_inner().join("\n");
    let compiled_out = compiled.into_inner().join("\n");

    assert!(actions_out.contains("\"step_index\""));
    assert!(compiled_out.contains("<|action_start|>"));
}

#[test]
fn frame_byte_count_matches_bgra() {
    assert_eq!(frame_byte_count(1280, 720), 1280 * 720 * 4);
    assert_eq!(frame_byte_count(1, 1), 4);
}

#[test]
fn flush_due_on_every_nth_line() {
    let mut w = JsonlWriter::new(2, 1_000_000_000);
    let first = w.write_line("one");
    assert!(!first);
    let second = w.write_line("two");
    assert!(second);
}

#[test]
fn take_buffered_hands_lines_over_once() {
    let mut w = JsonlWriter::new(10, 1000);
    w.write_line("alpha");
    w.write_line("beta");
    let taken = w.take_buffered();
    assert_eq!(taken, vec!["alpha".to_string(), "beta".to_string()]);
    let again = w.take_buffered();
    assert!(again.is_empty());
    assert_eq!(w.line_count, 2);
}

#[test]
fn write_step_rejects_wrong_frame_size() {
    let events = Vec::new();
    let cursor = CursorProvider { visible: false, x_milli: 0, y_milli: 0 };
    let mut state = AggregatorState::new();
    let window = aggregate_window_with_compiled(&events, 0, 200, 0, true, &cursor, &mut state);

    let mut core = SessionWriterCore::new(2, 2, 10, 1000);
    let bad = core.write_step(&window, 15, "<|thought_start|><|thought_end|>");
    assert_eq!(bad, Err(SessionError::ConfigInvalid));
    assert_eq!(core.frames_written, 0);
    assert_eq!(core.actions.line_count, 0);

    let good = core.write_step(&window, 16, "<|thought_start|><|thought_end|>");
    assert_eq!(good, Ok(()));
    assert_eq!(core.frames_written, 1);
    assert_eq!(core.actions.line_count, 1);
    assert_eq!(core.compiled.line_count, 1);
    assert_eq!(core.thoughts.line_count, 1);
}

#[test]
fn snapshot_json_line_parses() {
    let events = vec![make_key_event(10, "W", true), make_key_event(20, "W", false)];
    let cursor = CursorProvider { visible: false, x_milli: 0, y_milli: 0 };
    let mut state = AggregatorState::new();
    let window = aggregate_window_with_compiled(&events, 0, 200, 7, true, &cursor, &mut state);

    let mut writers = SessionWriters::new(10, 1000);
    writers.write_window(&window);
    let line = writers.actions.into_inner().remove(0);
    let v: serde_json::Value = serde_json::from_str(&line).unwrap();
    assert_eq!(v["step_index"], 7);
    assert_eq!(v["qpc_ts"], 0);
    assert_eq!(v["is_foreground"], true);
    assert_eq!(v["key_presses"][0]["key"], "W");
    assert_eq!(v["key_presses"][0]["down_ts"], 10);
    assert_eq!(v["key_presses"][0]["up_ts"], 20);
    assert_eq!(v["mouse_clicks"]["left"], 0);
    assert_eq!(v["cursor"]["visible"], false);
}

#[test]
fn json_escapes_awkward_key_names() {
    let key = "a\"b\\c\nd";
    let events = vec![make_key_event(10, key, true), make_key_event(20, key, false)];
    let cursor = CursorProvider { visible: false, x_milli: 0, y_milli: 0 };
    let mut state = AggregatorState::new();
    let window = aggregate_window_with_compiled(&events, 0, 200, 0, true, &cursor, &mut state);

    let mut writers = SessionWriters::new(10, 1000);
    writers.write_window(&window);
    let line = writers.actions.into_inner().remove(0);
    let v: serde_json::Value = serde_json::from_str(&line).unwrap();
    assert_eq!(v["key_presses"][0]["key"], key);
}

#[test]
fn encoder_args_are_canonical() {
    let config = session_pipeline::writer::default_ffmpeg_config("ffmpeg", "out/video.mp4");
    let args = session_pipeline::writer::encoder_args(&config);
    assert_eq!(
        args,
        vec![
            "-y", "-f", "rawvideo", "-pix_fmt", "bgra", "-s", "1280x720", "-r", "5", "-i", "-",
            "-c:v", "libx264", "-crf", "20", "-g", "10", "-pix_fmt", "yuv420p", "out/video.mp4",
        ]
    );
}

#[test]
fn flush_due_on_elapsed_time_bound() {
    let mut w = JsonlWriter::new(1000, 0);
    let flushed = w.write_line("only");
    assert!(flushed);
}
