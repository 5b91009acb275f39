//! The session pipeline core: thought-line formatting, session naming and
//! collision rules, step-window scheduling, and the per-step transition that
//! drives the aggregator and the writer in lockstep. The file system, the
//! encoder child and the worker threads stay outside; they hand in plain
//! values and carry the decisions out.

use vstd::prelude::*;
use crate::aggregate::{spec_agg_snapshot, spec_agg_held_after, sum_dx, sum_dy, sum_wheel};
use crate::compiled::{spec_compiled, aggregate_window_with_compiled};
use crate::errors::SessionError;
use crate::events::{InputEvent, events_view};
use crate::held::AggregatorState;
use crate::json::json_of_snapshot;
use crate::snapshot::CursorProvider;
use crate::strutil::{has_substring, contains_sub, pad3, u64_to_pad3};
use crate::writer::SessionWriterCore;

verus! {

/// What the pipeline needs to know to open a session.
#[derive(Clone, Debug)]
pub struct PipelineConfig {
    pub dataset_root: String,
    pub session_name: String,
    pub ffmpeg_path: String,
    pub record_width: u32,
    pub record_height: u32,
    pub fps: u32,
}

/// The finished session's place on disk.
#[derive(Clone, Debug)]
pub struct SessionLayout {
    pub root_dir: String,
}

/// The thought line a step records.
///
/// Empty input yields the bare delimiters; input already carrying both
/// delimiters passes through verbatim; anything else is wrapped.
pub open spec fn spec_format_thought(content: Seq<char>) -> Seq<char> {
    if content.len() == 0 {
        "<|thought_start|><|thought_end|>"@
    } else if has_substring(content, "<|thought_start|>"@) && has_substring(
        content,
        "<|thought_end|>"@,
    ) {
        content
    } else {
        "<|thought_start|>"@ + content + " <|thought_end|>"@
    }
}

/// Formats one thought line.
pub fn format_thought_line(content: &str) -> (r: String)
    ensures
        r@ == spec_format_thought(content@),
{
    if content.is_empty() {
        "<|thought_start|><|thought_end|>".to_owned()
    } else if contains_sub(content, "<|thought_start|>") && contains_sub(
        content,
        "<|thought_end|>",
    ) {
        content.to_owned()
    } else {
        let mut s = "<|thought_start|>".to_owned();
        s.append(content);
        s.append(" <|thought_end|>");
        proof {
            assert(s@ =~= spec_format_thought(content@));
        }
        s
    }
}

/// The default session name: the given clock text and a run counter padded
/// to three places.
pub open spec fn spec_default_session_name(now: Seq<char>, run_id: u32) -> Seq<char> {
    now + "_run"@ + pad3(run_id as nat)
}

/// Builds the default session name.
pub fn default_session_name(now: &str, run_id: u32) -> (r: String)
    ensures
        r@ == spec_default_session_name(now@, run_id),
{
    let mut s = now.to_owned();
    s.append("_run");
    let padded = u64_to_pad3(run_id as u64);
    s.append(padded.as_str());
    proof {
        assert(s@ =~= spec_default_session_name(now@, run_id));
    }
    s
}

/// The name a session directory bears while it is being written.
pub open spec fn spec_tmp_name(name: Seq<char>) -> Seq<char> {
    name + ".tmp"@
}

/// Builds the in-progress name of a session directory.
pub fn tmp_session_name(name: &str) -> (r: String)
    ensures
        r@ == spec_tmp_name(name@),
{
    let mut s = name.to_owned();
    s.append(".tmp");
    s
}

/// Relies on std::path::Path::exists: whether the path points at anything on
/// disk at the moment of the probe.
#[verifier::external_body]
fn path_exists(p: &str) -> bool {
    std::path::Path::new(p).exists()
}

/// The rule on dataset roots: an existing root passes, a missing one is a
/// configuration error.
pub fn dataset_root_check(root_exists: bool) -> (r: Result<(), SessionError>)
    ensures
        r == Ok::<(), SessionError>(()) <==> root_exists,
        !root_exists ==> r == Err::<(), SessionError>(SessionError::ConfigInvalid),
{
    if root_exists {
        Ok(())
    } else {
        Err(SessionError::ConfigInvalid)
    }
}

/// Probes the dataset root on disk. Whatever the probe says, the result is
/// either a pass or the configuration error.
pub fn ensure_dataset_root(path: &str) -> (r: Result<(), SessionError>)
    ensures
        r == Ok::<(), SessionError>(()) || r == Err::<(), SessionError>(
            SessionError::ConfigInvalid,
        ),
{
    let e = path_exists(path);
    dataset_root_check(e)
}

/// The collision rule for opening a session: the dataset root must exist and
/// the final session directory must not; either failure is a configuration
/// error before anything is written.
pub fn session_creation_check(root_exists: bool, final_dir_exists: bool) -> (r: Result<
    (),
    SessionError,
>)
    ensures
        r == Ok::<(), SessionError>(()) <==> (root_exists && !final_dir_exists),
        !(root_exists && !final_dir_exists) ==> r == Err::<(), SessionError>(
            SessionError::ConfigInvalid,
        ),
{
    if !root_exists {
        Err(SessionError::ConfigInvalid)
    } else if final_dir_exists {
        Err(SessionError::ConfigInvalid)
    } else {
        Ok(())
    }
}

/// Probes the disk and applies the collision rule for the given root and
/// final session directory path.
pub fn check_session_paths(dataset_root: &str, final_dir: &str) -> (r: Result<(), SessionError>)
    ensures
        r == Ok::<(), SessionError>(()) || r == Err::<(), SessionError>(
            SessionError::ConfigInvalid,
        ),
{
    let root_exists = path_exists(dataset_root);
    let final_exists = path_exists(final_dir);
    session_creation_check(root_exists, final_exists)
}

/// The finalize rule: only a clean encoder exit yields the finished layout,
/// whose root is the final directory; any other exit is the encoder error,
/// and the in-progress directory is left standing.
pub fn finalize_outcome(encoder_exit_ok: bool, final_dir: &str) -> (r: Result<
    SessionLayout,
    SessionError,
>)
    ensures
        encoder_exit_ok <==> (r matches Ok(_)),
        r matches Ok(l) ==> l.root_dir@ == final_dir@,
        !encoder_exit_ok ==> r == Err::<SessionLayout, SessionError>(SessionError::EncoderExit),
{
    if encoder_exit_ok {
        Ok(SessionLayout { root_dir: final_dir.to_owned() })
    } else {
        Err(SessionError::EncoderExit)
    }
}

/// The half-open window of one step: `[t0 + i*step, t0 + (i+1)*step)`, or
/// nothing where the ticks outgrow the counter.
pub fn step_window(t0: u64, step_index: u64, step_ticks: u64) -> (r: Option<(u64, u64)>)
    ensures
        r matches Some(w) ==> {
            &&& w.0 == t0 + step_index * step_ticks
            &&& w.1 == w.0 + step_ticks
        },
        r is Some <==> t0 + step_index * step_ticks + step_ticks <= u64::MAX,
{
    match step_index.checked_mul(step_ticks) {
        Some(offset) => match t0.checked_add(offset) {
            Some(start) => match start.checked_add(step_ticks) {
                Some(end) => Some((start, end)),
                None => None,
            },
            None => None,
        },
        None => {
            proof {
                assert(step_index * step_ticks + t0 + step_ticks > u64::MAX);
            }
            None
        },
    }
}

/// The session pipeline's verified core: the aggregator state and the writer
/// sequencer, advanced one step at a time.
pub struct SessionPipeline {
    pub writer: SessionWriterCore,
    pub state: AggregatorState,
}

impl SessionPipeline {
    pub open spec fn wf(&self) -> bool {
        self.writer.wf() && self.state.wf()
    }

    /// How many full steps this pipeline has written.
    pub open spec fn steps_written(&self) -> u64 {
        self.writer.frames_written_spec()
    }

    /// A fresh pipeline for the configured frame size and flush policy.
    pub fn new(config: &PipelineConfig, flush_every_lines: u64, flush_every_ms: u64) -> (r:
        SessionPipeline)
        ensures
            r.wf(),
            r.steps_written() == 0u64,
            r.writer.frame_bytes_spec() == crate::writer::spec_frame_bytes(
                config.record_width,
                config.record_height,
            ),
            r.state@ == Seq::<(Seq<char>, u64)>::empty(),
    {
        SessionPipeline {
            writer: SessionWriterCore::new(
                config.record_width,
                config.record_height,
                flush_every_lines,
                flush_every_ms,
            ),
            state: AggregatorState::new(),
        }
    }

    /// One step: folds the window's events through the aggregator, formats
    /// the thought line, and appends the snapshot line, the compiled line and
    /// the thought line as one transition. A frame buffer of the wrong size
    /// aborts the step before anything, state included, is touched.
    pub fn process_window(
        &mut self,
        events: &Vec<InputEvent>,
        window_start: u64,
        window_end: u64,
        step_index: u64,
        is_foreground: bool,
        cursor: &CursorProvider,
        frame_len: usize,
        thought_content: Option<&str>,
    ) -> (r: Result<(), SessionError>)
        requires
            old(self).wf(),
            old(self).steps_written() < u64::MAX,
            events@.len() <= 0x1_0000_0000,
        ensures
            final(self).wf(),
            final(self).writer.frame_bytes_spec() == old(self).writer.frame_bytes_spec(),
            frame_len != old(self).writer.frame_bytes_spec() ==> {
                &&& r == Err::<(), SessionError>(SessionError::ConfigInvalid)
                &&& *final(self) == *old(self)
            },
            frame_len == old(self).writer.frame_bytes_spec() ==> {
                let snap = spec_agg_snapshot(
                    events_view(events@),
                    window_start,
                    step_index,
                    is_foreground,
                    *cursor,
                    old(self).state@,
                );
                let thought = spec_format_thought(
                    match thought_content {
                        Some(t) => t@,
                        None => Seq::empty(),
                    },
                );
                &&& r == Ok::<(), SessionError>(())
                &&& final(self).steps_written() == old(self).steps_written() + 1
                &&& final(self).state@ == spec_agg_held_after(
                    events_view(events@),
                    old(self).state@,
                )
                &&& final(self).writer.actions.history() == old(
                    self,
                ).writer.actions.history() + seq![json_of_snapshot(snap)]
                &&& final(self).writer.compiled.history() == old(
                    self,
                ).writer.compiled.history() + seq![spec_compiled(snap)]
                &&& final(self).writer.thoughts.history() == old(
                    self,
                ).writer.thoughts.history() + seq![thought]
                &&& snap.mouse_dx_total == sum_dx(events_view(events@))
                &&& snap.mouse_dy_total == sum_dy(events_view(events@))
                &&& snap.mouse_wheel_total == sum_wheel(events_view(events@))
            },
    {
        if frame_len != self.writer.frame_bytes {
            return Err(SessionError::ConfigInvalid);
        }
        let aggregated = aggregate_window_with_compiled(
            events,
            window_start,
            window_end,
            step_index,
            is_foreground,
            cursor,
            &mut self.state,
        );
        let thought_line = match thought_content {
            Some(t) => format_thought_line(t),
            None => format_thought_line(""),
        };
        proof {
            reveal_strlit("");
        }
        let res = self.writer.write_step(&aggregated, frame_len, thought_line.as_str());
        proof {
            assert(res == Ok::<(), SessionError>(()));
        }
        Ok(())
    }
}

} // verus!
