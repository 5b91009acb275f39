use session_pipeline::errors::SessionError;
use session_pipeline::events::make_key_event;
use session_pipeline::pipeline::{
    default_session_name, dataset_root_check, finalize_outcome, format_thought_line,
    session_creation_check, step_window, tmp_session_name, PipelineConfig, SessionPipeline,
};
use session_pipeline::snapshot::CursorProvider;

#[test]
fn thought_empty_input_wraps_to_bare_delimiters() {
    assert_eq!(format_thought_line(""), "<|thought_start|><|thought_end|>");
}

#[test]
fn thought_wrapped_input_passes_through() {
    let wrapped = "<|thought_start|>plan <|thought_end|>";
    assert_eq!(format_thought_line(wrapped), wrapped);
}

#[test]
fn thought_plain_input_gets_wrapped() {
    assert_eq!(
        format_thought_line("open the menu"),
        "<|thought_start|>open the menu <|thought_end|>"
    );
}

#[test]
fn thought_with_only_one_delimiter_gets_wrapped() {
    assert_eq!(
        format_thought_line("<|thought_start|>half"),
        "<|thought_start|><|thought_start|>half <|thought_end|>"
    );
}

#[test]
fn session_collision_is_config_error() {
    assert_eq!(session_creation_check(true, true), Err(SessionError::ConfigInvalid));
    assert_eq!(session_creation_check(false, false), Err(SessionError::ConfigInvalid));
    assert_eq!(session_creation_check(true, false), Ok(()));
}

#[test]
fn missing_dataset_root_is_config_error() {
    assert_eq!(dataset_root_check(false), Err(SessionError::ConfigInvalid));
    assert_eq!(dataset_root_check(true), Ok(()));
}

#[test]
fn default_session_name_pads_run_id() {
    assert_eq!(default_session_name("sess", 7), "sess_run007");
    assert_eq!(default_session_name("sess", 42), "sess_run042");
    assert_eq!(default_session_name("sess", 1234), "sess_run1234");
}

#[test]
fn tmp_name_appends_suffix() {
    assert_eq!(tmp_session_name("night"), "night.tmp");
}

#[test]
fn step_window_bounds() {
    assert_eq!(step_window(1000, 2, 50), Some((1100, 1150)));
    assert_eq!(step_window(0, 0, 10), Some((0, 10)));
    assert_eq!(step_window(u64::MAX, 1, 1), None);
}

#[test]
fn finalize_needs_clean_encoder_exit() {
    let ok = finalize_outcome(true, "sessions/demo");
    assert_eq!(ok.unwrap().root_dir, "sessions/demo");
    let bad = finalize_outcome(false, "sessions/demo");
    assert_eq!(bad.unwrap_err(), SessionError::EncoderExit);
}

fn tiny_config() -> PipelineConfig {
    PipelineConfig {
        dataset_root: "data".to_string(),
        session_name: "demo".to_string(),
        ffmpeg_path: "ffmpeg".to_string(),
        record_width: 1,
        record_height: 1,
        fps: 5,
    }
}

#[test]
fn process_window_appends_one_line_per_stream() {
    let mut pipeline = SessionPipeline::new(&tiny_config(), 10, 1000);
    let events = vec![make_key_event(10, "W", true), make_key_event(20, "W", false)];
    let cursor = CursorProvider { visible: false, x_milli: 0, y_milli: 0 };
    let frame = vec![0u8; 4];
    let r = pipeline.process_window(&events, 0, 200, 0, true, &cursor, frame.len(), Some("hello"));
    assert_eq!(r, Ok(()));
    assert_eq!(pipeline.writer.frames_written, 1);
    let actions = pipeline.writer.actions.take_buffered();
    let compiled = pipeline.writer.compiled.take_buffered();
    let thoughts = pipeline.writer.thoughts.take_buffered();
    assert_eq!(actions.len(), 1);
    assert!(actions[0].contains("\"key\":\"W\""));
    assert_eq!(compiled[0], "<|action_start|>press=W@10-20<|action_end|>");
    assert_eq!(thoughts[0], "<|thought_start|>hello <|thought_end|>");
}

#[test]
fn process_window_rejects_wrong_frame_before_any_change() {
    let mut pipeline = SessionPipeline::new(&tiny_config(), 10, 1000);
    let events = vec![make_key_event(10, "W", true)];
    let cursor = CursorProvider { visible: false, x_milli: 0, y_milli: 0 };
    let r = pipeline.process_window(&events, 0, 200, 0, true, &cursor, 3, None);
    assert_eq!(r, Err(SessionError::ConfigInvalid));
    assert_eq!(pipeline.writer.frames_written, 0);
    assert!(pipeline.state.held_key_names().is_empty());
}

#[test]
fn streams_stay_in_lockstep_across_steps() {
    let mut pipeline = SessionPipeline::new(&tiny_config(), 10, 1000);
    let cursor = CursorProvider { visible: false, x_milli: 0, y_milli: 0 };
    let frame = vec![0u8; 4];
    for step in 0..3u64 {
        let events = vec![make_key_event(step * 200 + 10, "A", true)];
        let start = step * 200;
        let r = pipeline
            .process_window(&events, start, start + 200, step, true, &cursor, frame.len(), None);
        assert_eq!(r, Ok(()));
    }
    assert_eq!(pipeline.writer.frames_written, 3);
    assert_eq!(pipeline.writer.actions.take_buffered().len(), 3);
    assert_eq!(pipeline.writer.compiled.take_buffered().len(), 3);
    assert_eq!(pipeline.writer.thoughts.take_buffered().len(), 3);
}
