//! The writer bookkeeping: bounded-latency line writers and the step
//! sequencer that keeps every output stream in step-index lockstep.
//!
//! The writers model each text stream as the sequence of lines ever written;
//! the process edge takes the buffered lines out and puts them on disk. The
//! flush pacing (every N lines, or after a time bound) is decided here; only
//! the clock reading comes from outside.

use vstd::prelude::*;
use crate::clock::{instant_now, elapsed_ms};
use crate::errors::SessionError;
use crate::json::{json_of_snapshot, render_snapshot_json};
use crate::snapshot::{ActionSnapshot, AggregatedWindow};
use crate::strutil::{dec_digits, names_view, u64_to_dec};

verus! {

/// The fixed-quality encoder configuration.
#[derive(Clone, Debug)]
pub struct FfmpegConfig {
    pub ffmpeg_path: String,
    pub output_path: String,
    pub width: u32,
    pub height: u32,
    pub fps: u32,
    pub crf: u32,
    pub gop: u32,
}

/// The default encoder settings for the given paths.
pub fn default_ffmpeg_config(ffmpeg_path: &str, output_path: &str) -> (r: FfmpegConfig)
    ensures
        r.ffmpeg_path@ == ffmpeg_path@,
        r.output_path@ == output_path@,
        r.width == 1280u32,
        r.height == 720u32,
        r.fps == 5u32,
        r.crf == 20u32,
        r.gop == 10u32,
{
    FfmpegConfig {
        ffmpeg_path: ffmpeg_path.to_owned(),
        output_path: output_path.to_owned(),
        width: 1280,
        height: 720,
        fps: 5,
        crf: 20,
        gop: 10,
    }
}

/// The exact argument list the encoder child is spawned with: raw BGRA video
/// on its standard input at the configured size and rate, H.264 output at
/// the configured quality.
pub open spec fn spec_encoder_args(c: &FfmpegConfig) -> Seq<Seq<char>> {
    seq![
        "-y"@,
        "-f"@,
        "rawvideo"@,
        "-pix_fmt"@,
        "bgra"@,
        "-s"@,
        dec_digits(c.width as nat) + "x"@ + dec_digits(c.height as nat),
        "-r"@,
        dec_digits(c.fps as nat),
        "-i"@,
        "-"@,
        "-c:v"@,
        "libx264"@,
        "-crf"@,
        dec_digits(c.crf as nat),
        "-g"@,
        dec_digits(c.gop as nat),
        "-pix_fmt"@,
        "yuv420p"@,
        c.output_path@,
    ]
}

/// Builds the encoder's argument list.
pub fn encoder_args(c: &FfmpegConfig) -> (r: Vec<String>)
    ensures
        names_view(r@) == spec_encoder_args(c),
{
    let mut out: Vec<String> = Vec::new();
    out.push("-y".to_owned());
    out.push("-f".to_owned());
    out.push("rawvideo".to_owned());
    out.push("-pix_fmt".to_owned());
    out.push("bgra".to_owned());
    out.push("-s".to_owned());
    let mut dims = u64_to_dec(c.width as u64);
    dims.append("x");
    let h = u64_to_dec(c.height as u64);
    dims.append(h.as_str());
    out.push(dims);
    out.push("-r".to_owned());
    out.push(u64_to_dec(c.fps as u64));
    out.push("-i".to_owned());
    out.push("-".to_owned());
    out.push("-c:v".to_owned());
    out.push("libx264".to_owned());
    out.push("-crf".to_owned());
    out.push(u64_to_dec(c.crf as u64));
    out.push("-g".to_owned());
    out.push(u64_to_dec(c.gop as u64));
    out.push("-pix_fmt".to_owned());
    out.push("yuv420p".to_owned());
    out.push(c.output_path.clone());
    proof {
        assert(names_view(out@) =~= spec_encoder_args(c));
    }
    out
}

/// The exact byte count of one frame: width by height, four bytes per pixel,
/// saturated at the machine's limit.
pub open spec fn spec_frame_bytes(width: u32, height: u32) -> int {
    if width * height * 4 <= usize::MAX {
        width * height * 4
    } else {
        usize::MAX as int
    }
}

/// Computes the frame byte count.
pub fn frame_byte_count(width: u32, height: u32) -> (r: usize)
    ensures
        r == spec_frame_bytes(width, height),
{
    proof {
        assert((width as int) * (height as int) * 4 < 0x10000000000000000000000000000000) by (nonlinear_arith)
            requires
                width as int <= 0xffffffff,
                height as int <= 0xffffffff,
        ;
    }
    let wide: u128 = (width as u128) * (height as u128) * 4;
    if wide <= usize::MAX as u128 {
        wide as usize
    } else {
        usize::MAX
    }
}

/// The flush policy: a flush is due on every N-th line, or when the time
/// bound has elapsed.
pub open spec fn spec_flush_due(
    line_count: u64,
    every_lines: u64,
    elapsed: u64,
    every_ms: u64,
) -> bool {
    (every_lines >= 1 && line_count % every_lines == 0) || elapsed >= every_ms
}

/// Decides whether a flush is due.
pub fn flush_due(line_count: u64, every_lines: u64, elapsed: u64, every_ms: u64) -> (r: bool)
    ensures
        r == spec_flush_due(line_count, every_lines, elapsed, every_ms),
{
    (every_lines >= 1 && line_count % every_lines == 0) || elapsed >= every_ms
}

/// A bounded-latency append writer for one text stream. Its abstract content
/// is the sequence of lines ever written; lines wait in a buffer until the
/// process edge takes them out.
pub struct JsonlWriter {
    pub buffered: Vec<String>,
    pub history: Ghost<Seq<Seq<char>>>,
    pub taken: Ghost<Seq<Seq<char>>>,
    pub line_count: u64,
    pub flush_every_lines: u64,
    pub flush_every_ms: u64,
    pub last_flush: std::time::Instant,
}

impl JsonlWriter {
    /// Every line ever written to this stream, in order.
    pub open spec fn history(&self) -> Seq<Seq<char>> {
        self.history@
    }

    /// The prefix already taken out to the operating system.
    pub open spec fn taken(&self) -> Seq<Seq<char>> {
        self.taken@
    }

    /// The lines still waiting in the buffer.
    pub open spec fn buffered_lines(&self) -> Seq<Seq<char>> {
        names_view(self.buffered@)
    }

    pub open spec fn line_count_spec(&self) -> u64 {
        self.line_count
    }

    pub open spec fn flush_every_lines_spec(&self) -> u64 {
        self.flush_every_lines
    }

    pub open spec fn flush_every_ms_spec(&self) -> u64 {
        self.flush_every_ms
    }

    /// The content is the taken prefix followed by the buffer, and the line
    /// counter counts it.
    pub open spec fn wf(&self) -> bool {
        &&& self.history@ == self.taken@ + names_view(self.buffered@)
        &&& self.line_count as int == self.history@.len()
        &&& self.flush_every_lines >= 1
    }

    /// A fresh stream. A zero line bound is raised to one, as a flush on
    /// every line.
    pub fn new(flush_every_lines: u64, flush_every_ms: u64) -> (r: JsonlWriter)
        ensures
            r.wf(),
            r.history() == Seq::<Seq<char>>::empty(),
            r.taken() == Seq::<Seq<char>>::empty(),
            r.line_count_spec() == 0u64,
            r.flush_every_lines_spec() == (if flush_every_lines >= 1 {
                flush_every_lines as int
            } else {
                1int
            }),
            r.flush_every_ms_spec() == flush_every_ms,
    {
        let every = if flush_every_lines >= 1 {
            flush_every_lines
        } else {
            1
        };
        let r = JsonlWriter {
            buffered: Vec::new(),
            history: Ghost(Seq::empty()),
            taken: Ghost(Seq::empty()),
            line_count: 0,
            flush_every_lines: every,
            flush_every_ms,
            last_flush: instant_now(),
        };
        proof {
            assert(names_view(r.buffered@) =~= Seq::<Seq<char>>::empty());
            assert(r.history@ =~= r.taken@ + names_view(r.buffered@));
        }
        r
    }

    /// Appends one line. Returns whether a flush is now due; it always is on
    /// every N-th line, and may also be when the time bound has passed.
    pub fn write_line(&mut self, line: &str) -> (flushed: bool)
        requires
            old(self).wf(),
            old(self).line_count_spec() < u64::MAX,
        ensures
            final(self).wf(),
            final(self).history() == old(self).history() + seq![line@],
            final(self).taken() == old(self).taken(),
            final(self).line_count_spec() == old(self).line_count_spec() + 1,
            final(self).flush_every_lines_spec() == old(self).flush_every_lines_spec(),
            final(self).flush_every_ms_spec() == old(self).flush_every_ms_spec(),
            (final(self).line_count_spec() % final(self).flush_every_lines_spec() == 0)
                ==> flushed,
    {
        let ghost h0 = self.history@;
        self.buffered.push(line.to_owned());
        proof {
            self.history@ = h0 + seq![line@];
        }
        self.line_count = self.line_count + 1;
        proof {
            assert(names_view(self.buffered@) =~= names_view(old(self).buffered@) + seq![line@]);
            assert(self.history@ =~= self.taken@ + names_view(self.buffered@));
        }
        let e = elapsed_ms(&self.last_flush);
        let due = flush_due(self.line_count, self.flush_every_lines, e, self.flush_every_ms);
        if due {
            self.last_flush = instant_now();
        }
        due
    }

    /// Appends one snapshot as its JSON line. Returns the flush signal.
    pub fn write_json(&mut self, snapshot: &ActionSnapshot) -> (flushed: bool)
        requires
            old(self).wf(),
            old(self).line_count_spec() < u64::MAX,
        ensures
            final(self).wf(),
            final(self).history() == old(self).history() + seq![json_of_snapshot(snapshot@)],
            final(self).taken() == old(self).taken(),
            final(self).line_count_spec() == old(self).line_count_spec() + 1,
            final(self).flush_every_lines_spec() == old(self).flush_every_lines_spec(),
            final(self).flush_every_ms_spec() == old(self).flush_every_ms_spec(),
            (final(self).line_count_spec() % final(self).flush_every_lines_spec() == 0)
                ==> flushed,
    {
        let rendered = render_snapshot_json(snapshot);
        self.write_line(rendered.as_str())
    }

    /// Takes the buffered lines out for the process edge to append to disk.
    pub fn take_buffered(&mut self) -> (r: Vec<String>)
        requires
            old(self).wf(),
        ensures
            final(self).wf(),
            names_view(r@) == old(self).buffered_lines(),
            final(self).history() == old(self).history(),
            final(self).taken() == old(self).history(),
            final(self).buffered_lines() == Seq::<Seq<char>>::empty(),
            final(self).line_count_spec() == old(self).line_count_spec(),
            final(self).flush_every_lines_spec() == old(self).flush_every_lines_spec(),
            final(self).flush_every_ms_spec() == old(self).flush_every_ms_spec(),
    {
        let mut out: Vec<String> = Vec::new();
        core::mem::swap(&mut out, &mut self.buffered);
        proof {
            self.taken@ = self.taken@ + names_view(out@);
            assert(names_view(self.buffered@) =~= Seq::<Seq<char>>::empty());
            assert(self.history@ =~= self.taken@ + names_view(self.buffered@));
        }
        out
    }

    /// Restarts the time bound, as after an explicit flush at the edge; the
    /// abstract content is untouched, durability being the edge's work.
    pub fn flush(&mut self)
        requires
            old(self).wf(),
        ensures
            final(self).wf(),
            final(self).history() == old(self).history(),
            final(self).taken() == old(self).taken(),
            final(self).buffered_lines() == old(self).buffered_lines(),
            final(self).line_count_spec() == old(self).line_count_spec(),
            final(self).flush_every_lines_spec() == old(self).flush_every_lines_spec(),
            final(self).flush_every_ms_spec() == old(self).flush_every_ms_spec(),
    {
        self.last_flush = instant_now();
    }

    /// Gives the stream's remaining buffered lines up.
    pub fn into_inner(self) -> (r: Vec<String>)
        ensures
            names_view(r@) == self.buffered_lines(),
    {
        self.buffered
    }
}

/// The paired per-window streams: one JSON object per window in `actions`,
/// one compiled text line per window in `compiled`.
pub struct SessionWriters {
    pub actions: JsonlWriter,
    pub compiled: JsonlWriter,
}

impl SessionWriters {
    pub open spec fn wf(&self) -> bool {
        self.actions.wf() && self.compiled.wf()
    }

    /// Fresh paired streams with one shared flush policy.
    pub fn new(flush_every_lines: u64, flush_every_ms: u64) -> (r: SessionWriters)
        ensures
            r.wf(),
            r.actions.history() == Seq::<Seq<char>>::empty(),
            r.compiled.history() == Seq::<Seq<char>>::empty(),
            r.actions.line_count_spec() == 0u64,
            r.compiled.line_count_spec() == 0u64,
    {
        SessionWriters {
            actions: JsonlWriter::new(flush_every_lines, flush_every_ms),
            compiled: JsonlWriter::new(flush_every_lines, flush_every_ms),
        }
    }

    /// Appends one aggregated window to both streams.
    pub fn write_window(&mut self, window: &AggregatedWindow)
        requires
            old(self).wf(),
            old(self).actions.line_count_spec() < u64::MAX,
            old(self).compiled.line_count_spec() < u64::MAX,
        ensures
            final(self).wf(),
            final(self).actions.history() == old(self).actions.history() + seq![
                json_of_snapshot(window.snapshot@),
            ],
            final(self).compiled.history() == old(self).compiled.history() + seq![
                window.compiled_action@,
            ],
            final(self).actions.line_count_spec() == old(self).actions.line_count_spec() + 1,
            final(self).compiled.line_count_spec() == old(self).compiled.line_count_spec() + 1,
    {
        self.actions.write_json(&window.snapshot);
        self.compiled.write_line(window.compiled_action.as_str());
    }
}

/// Appends one snapshot to a stream as JSON; the free-function face of
/// `write_json`.
pub fn write_snapshot(writer: &mut JsonlWriter, snapshot: &ActionSnapshot) -> (flushed: bool)
    requires
        old(writer).wf(),
        old(writer).line_count_spec() < u64::MAX,
    ensures
        final(writer).wf(),
        final(writer).history() == old(writer).history() + seq![json_of_snapshot(snapshot@)],
        final(writer).line_count_spec() == old(writer).line_count_spec() + 1,
{
    writer.write_json(snapshot)
}

/// The per-step sequencer over the three text streams and the frame stream.
/// Its invariant is the step-atomicity of the outputs: at every moment the
/// three line counts and the frame count agree.
pub struct SessionWriterCore {
    pub actions: JsonlWriter,
    pub compiled: JsonlWriter,
    pub thoughts: JsonlWriter,
    pub frame_bytes: usize,
    pub frames_written: u64,
}

impl SessionWriterCore {
    /// The size one frame must have.
    pub open spec fn frame_bytes_spec(&self) -> usize {
        self.frame_bytes
    }

    /// How many full steps have been written.
    pub open spec fn frames_written_spec(&self) -> u64 {
        self.frames_written
    }

    /// Step atomicity: all three streams and the frame counter are in
    /// lockstep.
    pub open spec fn wf(&self) -> bool {
        &&& self.actions.wf()
        &&& self.compiled.wf()
        &&& self.thoughts.wf()
        &&& self.actions.line_count_spec() == self.frames_written
        &&& self.compiled.line_count_spec() == self.frames_written
        &&& self.thoughts.line_count_spec() == self.frames_written
        &&& self.actions.history().len() == self.frames_written
        &&& self.compiled.history().len() == self.frames_written
        &&& self.thoughts.history().len() == self.frames_written
    }

    /// A fresh sequencer for frames of the given dimensions.
    pub fn new(width: u32, height: u32, flush_every_lines: u64, flush_every_ms: u64) -> (r:
        SessionWriterCore)
        ensures
            r.wf(),
            r.frames_written_spec() == 0u64,
            r.frame_bytes_spec() == spec_frame_bytes(width, height),
            r.actions.history() == Seq::<Seq<char>>::empty(),
            r.compiled.history() == Seq::<Seq<char>>::empty(),
            r.thoughts.history() == Seq::<Seq<char>>::empty(),
    {
        SessionWriterCore {
            actions: JsonlWriter::new(flush_every_lines, flush_every_ms),
            compiled: JsonlWriter::new(flush_every_lines, flush_every_ms),
            thoughts: JsonlWriter::new(flush_every_lines, flush_every_ms),
            frame_bytes: frame_byte_count(width, height),
            frames_written: 0,
        }
    }

    /// Appends one full step to every stream, or nothing at all: a frame
    /// buffer of the wrong size is rejected before any append.
    pub fn write_step(
        &mut self,
        window: &AggregatedWindow,
        frame_len: usize,
        thought_line: &str,
    ) -> (r: Result<(), SessionError>)
        requires
            old(self).wf(),
            old(self).frames_written_spec() < u64::MAX,
        ensures
            final(self).wf(),
            frame_len != old(self).frame_bytes_spec() ==> {
                &&& r == Err::<(), SessionError>(SessionError::ConfigInvalid)
                &&& *final(self) == *old(self)
            },
            frame_len == old(self).frame_bytes_spec() ==> {
                &&& r == Ok::<(), SessionError>(())
                &&& final(self).frames_written_spec() == old(self).frames_written_spec() + 1
                &&& final(self).actions.history() == old(self).actions.history() + seq![
                    json_of_snapshot(window.snapshot@),
                ]
                &&& final(self).compiled.history() == old(self).compiled.history() + seq![
                    window.compiled_action@,
                ]
                &&& final(self).thoughts.history() == old(self).thoughts.history() + seq![
                    thought_line@,
                ]
            },
            final(self).frame_bytes_spec() == old(self).frame_bytes_spec(),
    {
        if frame_len != self.frame_bytes {
            return Err(SessionError::ConfigInvalid);
        }
        self.actions.write_json(&window.snapshot);
        self.compiled.write_line(window.compiled_action.as_str());
        self.thoughts.write_line(thought_line);
        self.frames_written = self.frames_written + 1;
        Ok(())
    }
}

/// Step atomicity: the three text streams and the frame counter always
/// agree, line for line and frame for frame.
pub proof fn lemma_step_atomicity(w: &SessionWriterCore)
    requires
        w.wf(),
    ensures
        w.actions.history().len() == w.frames_written_spec(),
        w.compiled.history().len() == w.frames_written_spec(),
        w.thoughts.history().len() == w.frames_written_spec(),
        w.actions.line_count_spec() == w.compiled.line_count_spec(),
        w.compiled.line_count_spec() == w.thoughts.line_count_spec(),
{
}

} // verus!
