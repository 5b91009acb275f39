//! The input-collector and frame-source interfaces with their deterministic
//! replay implementations, the windowed drain they share, and the plain
//! key-state tracker.

use vstd::prelude::*;
use crate::errors::SessionError;
use crate::events::{InputEvent, InputEventKind, EventV, EventKindV, QpcTimestamp, events_view, mouse_button_name, spec_mouse_button_name};
use crate::strutil::{names_view, str_eq};

verus! {

/// Timestamps never decrease along the sequence.
pub open spec fn events_sorted(s: Seq<EventV>) -> bool {
    forall|i: int, j: int| 0 <= i < j < s.len() ==> s[i].qpc_ts <= s[j].qpc_ts
}

/// Every timestamp falls in the half-open window.
pub open spec fn events_in_window(s: Seq<EventV>, start: u64, end: u64) -> bool {
    forall|i: int| 0 <= i < s.len() ==> start <= #[trigger] s[i].qpc_ts < end
}

/// A time-ordered source of input events, drained one window at a time.
///
/// Every drain hands out events in non-decreasing timestamp order, all
/// falling inside the requested window: events from before the window are
/// discarded, events at or past its end wait for the next call.
pub trait InputCollector: Sized {
    /// The implementation's own invariant.
    spec fn wf(&self) -> bool;

    fn drain_events(&mut self, start: QpcTimestamp, end: QpcTimestamp) -> (r: Result<
        Vec<InputEvent>,
        SessionError,
    >)
        requires
            old(self).wf(),
            start <= end,
        ensures
            final(self).wf(),
            r matches Ok(evs) ==> events_sorted(events_view(evs@)) && events_in_window(
                events_view(evs@),
                start,
                end,
            ),
    ;
}

/// The first position at or past `from` whose timestamp reaches `bound`.
fn lower_split(events: &Vec<InputEvent>, from: usize, bound: u64) -> (k: usize)
    requires
        from <= events@.len(),
    ensures
        from <= k <= events@.len(),
        forall|i: int| from <= i < k ==> #[trigger] events_view(events@)[i].qpc_ts < bound,
        k < events@.len() ==> events_view(events@)[k as int].qpc_ts >= bound,
{
    let n = events.len();
    let mut k = from;
    while k < n
        invariant
            from <= k <= n,
            n == events@.len(),
            forall|i: int| from <= i < k ==> #[trigger] events_view(events@)[i].qpc_ts < bound,
        decreases n - k,
    {
        if events[k].qpc_ts >= bound {
            return k;
        }
        k = k + 1;
    }
    k
}

/// Clones one event payload.
fn clone_kind(kind: &InputEventKind) -> (r: InputEventKind)
    ensures
        r@ == kind@,
{
    match kind {
        InputEventKind::KeyDown { key } => InputEventKind::KeyDown { key: key.clone() },
        InputEventKind::KeyUp { key } => InputEventKind::KeyUp { key: key.clone() },
        InputEventKind::MouseButton { button, is_down } => InputEventKind::MouseButton {
            button: *button,
            is_down: *is_down,
        },
        InputEventKind::MouseMove { dx, dy } => InputEventKind::MouseMove { dx: *dx, dy: *dy },
        InputEventKind::MouseWheel { delta } => InputEventKind::MouseWheel { delta: *delta },
    }
}

/// Copies the events in positions `[a, b)`.
fn copy_event_range(events: &Vec<InputEvent>, a: usize, b: usize) -> (r: Vec<InputEvent>)
    requires
        a <= b <= events@.len(),
    ensures
        events_view(r@) == events_view(events@).subrange(a as int, b as int),
{
    let mut out: Vec<InputEvent> = Vec::new();
    let mut i = a;
    while i < b
        invariant
            a <= i <= b <= events@.len(),
            events_view(out@) =~= events_view(events@).subrange(a as int, i as int),
        decreases b - i,
    {
        let ev = InputEvent { qpc_ts: events[i].qpc_ts, kind: clone_kind(&events[i].kind) };
        let ghost before = events_view(out@);
        out.push(ev);
        proof {
            assert(events_view(out@) =~= before.push(ev@));
            assert(ev@ == events_view(events@)[i as int]);
            assert(events_view(out@) =~= events_view(events@).subrange(a as int, i as int + 1));
        }
        i = i + 1;
    }
    proof {
        assert(events_view(out@) =~= events_view(events@).subrange(a as int, b as int));
    }
    out
}

/// Splits the window's events out of a sorted buffer: what came before the
/// window is dropped, what falls inside is returned, what comes at or after
/// its end stays buffered.
pub fn drain_window(buffer: &mut Vec<InputEvent>, start: u64, end: u64) -> (r: Vec<InputEvent>)
    requires
        start <= end,
        events_sorted(events_view(old(buffer)@)),
    ensures
        events_sorted(events_view(final(buffer)@)),
        events_sorted(events_view(r@)),
        events_in_window(events_view(r@), start, end),
        ({
            let b0 = events_view(old(buffer)@);
            let rv = events_view(r@);
            let b1 = events_view(final(buffer)@);
            exists|k1: int, k2: int|
                {
                    &&& 0 <= k1 <= k2 <= b0.len()
                    &&& rv == #[trigger] b0.subrange(k1, k2)
                    &&& b1 == b0.subrange(k2, b0.len() as int)
                    &&& (forall|i: int| 0 <= i < k1 ==> #[trigger] b0[i].qpc_ts < start)
                    &&& (forall|i: int| k1 <= i < k2 ==> start <= #[trigger] b0[i].qpc_ts < end)
                    &&& (forall|i: int| k2 <= i < b0.len() ==> #[trigger] b0[i].qpc_ts >= end)
                }
        }),
{
    let ghost b0 = events_view(buffer@);
    let k1 = lower_split(buffer, 0, start);
    let k2 = lower_split(buffer, k1, end);
    let out = copy_event_range(buffer, k1, k2);
    let mut tail = buffer.split_off(k2);
    core::mem::swap(buffer, &mut tail);
    proof {
        let rv = events_view(out@);
        let b1 = events_view(buffer@);
        assert(b1 =~= b0.subrange(k2 as int, b0.len() as int));
        // events in the returned range lie inside the window
        assert forall|i: int| k1 <= i < k2 implies start <= #[trigger] b0[i].qpc_ts < end by {
            assert(b0[k1 as int].qpc_ts >= start);
            assert(b0[k1 as int].qpc_ts <= b0[i].qpc_ts);
        }
        // events kept back lie at or past the end
        assert forall|i: int| k2 <= i < b0.len() implies #[trigger] b0[i].qpc_ts >= end by {
            assert(b0[k2 as int].qpc_ts >= end);
            assert(b0[k2 as int].qpc_ts <= b0[i].qpc_ts);
        }
        assert(events_sorted(rv)) by {
            assert forall|i: int, j: int| 0 <= i < j < rv.len() implies rv[i].qpc_ts
                <= rv[j].qpc_ts by {
                assert(rv[i] == b0[k1 + i] && rv[j] == b0[k1 + j]);
            }
        }
        assert(events_sorted(b1)) by {
            assert forall|i: int, j: int| 0 <= i < j < b1.len() implies b1[i].qpc_ts
                <= b1[j].qpc_ts by {
                assert(b1[i] == b0[k2 + i] && b1[j] == b0[k2 + j]);
            }
        }
        assert(events_in_window(rv, start, end)) by {
            assert forall|i: int| 0 <= i < rv.len() implies start <= #[trigger] rv[i].qpc_ts
                < end by {
                assert(rv[i] == b0[k1 + i]);
            }
        }
        assert({
            &&& 0 <= k1 as int <= k2 as int <= b0.len()
            &&& rv == b0.subrange(k1 as int, k2 as int)
            &&& b1 == b0.subrange(k2 as int, b0.len() as int)
            &&& (forall|i: int| 0 <= i < k1 ==> #[trigger] b0[i].qpc_ts < start)
            &&& (forall|i: int| k1 <= i < k2 ==> start <= #[trigger] b0[i].qpc_ts < end)
            &&& (forall|i: int| k2 <= i < b0.len() ==> #[trigger] b0[i].qpc_ts >= end)
        });
    }
    out
}

/// A deterministic replay collector over a pre-recorded, time-ordered event
/// list.
pub struct MockInputCollector {
    pub events: Vec<InputEvent>,
    pub index: usize,
}

impl MockInputCollector {
    /// The remaining (not yet drained) recording.
    pub open spec fn remaining(&self) -> Seq<EventV> {
        events_view(self.events@).subrange(self.index as int, self.events@.len() as int)
    }

    /// A replay collector over a recording whose timestamps never decrease.
    pub fn new(events: Vec<InputEvent>) -> (r: MockInputCollector)
        requires
            events_sorted(events_view(events@)),
        ensures
            r.wf(),
            r.remaining() == events_view(events@),
    {
        let r = MockInputCollector { events, index: 0 };
        proof {
            assert(r.remaining() =~= events_view(r.events@));
        }
        r
    }
}

impl InputCollector for MockInputCollector {
    open spec fn wf(&self) -> bool {
        self.index <= self.events@.len() && events_sorted(events_view(self.events@))
    }

    /// The replay drain always succeeds and splits the remaining recording
    /// exactly: what precedes the window is skipped for good, what falls
    /// inside comes out in order, what follows stays for the next call.
    fn drain_events(&mut self, start: QpcTimestamp, end: QpcTimestamp) -> (r: Result<
        Vec<InputEvent>,
        SessionError,
    >)
        ensures
            r is Ok,
            final(self).events == old(self).events,
            ({
                let rem = old(self).remaining();
                r matches Ok(evs) ==> exists|k1: int, k2: int|
                    {
                        &&& 0 <= k1 <= k2 <= rem.len()
                        &&& events_view(evs@) == #[trigger] rem.subrange(k1, k2)
                        &&& final(self).remaining() == rem.subrange(k2, rem.len() as int)
                        &&& (forall|i: int| 0 <= i < k1 ==> #[trigger] rem[i].qpc_ts < start)
                        &&& (forall|i: int|
                            k1 <= i < k2 ==> start <= #[trigger] rem[i].qpc_ts < end)
                        &&& (forall|i: int|
                            k2 <= i < rem.len() ==> #[trigger] rem[i].qpc_ts >= end)
                    }
            }),
    {
        let ghost all = events_view(self.events@);
        let ghost idx0 = self.index as int;
        let ghost rem = old(self).remaining();
        let k1 = lower_split(&self.events, self.index, start);
        let k2 = lower_split(&self.events, k1, end);
        let out = copy_event_range(&self.events, k1, k2);
        self.index = k2;
        proof {
            let rv = events_view(out@);
            assert forall|i: int| k1 <= i < k2 implies start <= #[trigger] all[i].qpc_ts
                < end by {
                assert(all[k1 as int].qpc_ts >= start);
                assert(all[k1 as int].qpc_ts <= all[i].qpc_ts);
            }
            assert(events_sorted(rv)) by {
                assert forall|i: int, j: int| 0 <= i < j < rv.len() implies rv[i].qpc_ts
                    <= rv[j].qpc_ts by {
                    assert(rv[i] == all[k1 + i] && rv[j] == all[k1 + j]);
                }
            }
            assert(events_in_window(rv, start, end)) by {
                assert forall|i: int| 0 <= i < rv.len() implies start <= #[trigger] rv[i].qpc_ts
                    < end by {
                    assert(rv[i] == all[k1 + i]);
                }
            }
            // the split of the remaining recording, in its own coordinates
            let w1 = k1 as int - idx0;
            let w2 = k2 as int - idx0;
            assert(rem == all.subrange(idx0, all.len() as int));
            assert forall|i: int| 0 <= i < rem.len() implies rem[i] == all[idx0 + i] by {}
            assert(rv =~= rem.subrange(w1, w2));
            assert(self.remaining() =~= rem.subrange(w2, rem.len() as int));
            assert forall|i: int| 0 <= i < w1 implies #[trigger] rem[i].qpc_ts < start by {
                assert(rem[i] == all[idx0 + i]);
            }
            assert forall|i: int| w1 <= i < w2 implies start <= #[trigger] rem[i].qpc_ts
                < end by {
                assert(rem[i] == all[idx0 + i]);
            }
            assert forall|i: int| w2 <= i < rem.len() implies #[trigger] rem[i].qpc_ts >= end by {
                assert(rem[i] == all[idx0 + i]);
                assert(all[k2 as int].qpc_ts >= end);
                assert(all[k2 as int].qpc_ts <= all[idx0 + i].qpc_ts);
            }
            assert({
                &&& 0 <= w1 <= w2 <= rem.len()
                &&& rv == rem.subrange(w1, w2)
                &&& self.remaining() == rem.subrange(w2, rem.len() as int)
                &&& (forall|i: int| 0 <= i < w1 ==> #[trigger] rem[i].qpc_ts < start)
                &&& (forall|i: int| w1 <= i < w2 ==> start <= #[trigger] rem[i].qpc_ts < end)
                &&& (forall|i: int| w2 <= i < rem.len() ==> #[trigger] rem[i].qpc_ts >= end)
            });
        }
        Ok(out)
    }
}

/// One captured frame: raw pixel bytes with the step header.
#[derive(Clone, Debug)]
pub struct FrameRecord {
    pub step_index: u64,
    pub qpc_ts: u64,
    pub is_foreground: bool,
    pub pixels: Vec<u8>,
}

/// A source of one frame per step.
pub trait FrameSource: Sized {
    /// The implementation's own invariant.
    spec fn wf(&self) -> bool;

    fn next_frame(&mut self) -> (r: Result<FrameRecord, SessionError>)
        requires
            old(self).wf(),
        ensures
            final(self).wf(),
    ;
}

/// Copies a pixel buffer byte for byte.
fn copy_bytes(v: &Vec<u8>) -> (r: Vec<u8>)
    ensures
        r@ == v@,
{
    let mut out: Vec<u8> = Vec::new();
    let n = v.len();
    let mut i: usize = 0;
    while i < n
        invariant
            n == v@.len(),
            i <= n,
            out@ =~= v@.take(i as int),
        decreases n - i,
    {
        out.push(v[i]);
        i = i + 1;
    }
    proof {
        assert(v@.take(n as int) =~= v@);
    }
    out
}

/// A deterministic replay frame source over a pre-recorded list; it fails
/// with the end-of-stream condition once the recording is exhausted.
pub struct MockCapture {
    pub frames: Vec<FrameRecord>,
    pub index: usize,
}

impl MockCapture {
    /// How many frames are still to come.
    pub open spec fn remaining_count(&self) -> int {
        self.frames@.len() - self.index
    }

    /// The frame the next call will produce, if one is left.
    pub open spec fn next_record(&self) -> FrameRecord {
        self.frames@[self.index as int]
    }

    /// A replay source over the given recording.
    pub fn new(frames: Vec<FrameRecord>) -> (r: MockCapture)
        ensures
            r.wf(),
            r.remaining_count() == frames@.len(),
            r.frames@ == frames@,
    {
        MockCapture { frames, index: 0 }
    }
}

impl FrameSource for MockCapture {
    open spec fn wf(&self) -> bool {
        self.index <= self.frames@.len()
    }

    /// The replay source hands the next recorded frame out, advancing only
    /// its cursor, and ends with the input-output error once the recording
    /// is exhausted.
    fn next_frame(&mut self) -> (r: Result<FrameRecord, SessionError>)
        ensures
            final(self).frames == old(self).frames,
            old(self).remaining_count() > 0 ==> ({
                let rec = old(self).next_record();
                &&& r matches Ok(f) && f.step_index == rec.step_index && f.qpc_ts == rec.qpc_ts
                    && f.is_foreground == rec.is_foreground && f.pixels@ == rec.pixels@
                &&& final(self).index == old(self).index + 1
            }),
            old(self).remaining_count() == 0 ==> r == Err::<FrameRecord, SessionError>(
                SessionError::Io,
            ) && *final(self) == *old(self),
    {
        if self.index >= self.frames.len() {
            return Err(SessionError::Io);
        }
        let idx = self.index;
        let src = &self.frames[idx];
        let frame = FrameRecord {
            step_index: src.step_index,
            qpc_ts: src.qpc_ts,
            is_foreground: src.is_foreground,
            pixels: copy_bytes(&src.pixels),
        };
        self.index = self.index + 1;
        Ok(frame)
    }
}

/// The plain set of keys currently down, fed event by event.
pub struct InputState {
    pub down_keys: Vec<String>,
}

/// What one event does to the set of down keys.
pub open spec fn spec_apply_key_state(keys: Set<Seq<char>>, ev: EventV) -> Set<Seq<char>> {
    match ev.kind {
        EventKindV::KeyDown { key } => keys.insert(key),
        EventKindV::KeyUp { key } => keys.remove(key),
        EventKindV::MouseButton { button, is_down } => {
            let name = spec_mouse_button_name(button);
            if is_down {
                keys.insert(name)
            } else {
                keys.remove(name)
            }
        },
        _ => keys,
    }
}

impl InputState {
    /// The set of keys currently down.
    pub open spec fn keys(&self) -> Set<Seq<char>> {
        names_view(self.down_keys@).to_set()
    }

    /// No key is listed twice.
    pub open spec fn wf(&self) -> bool {
        forall|i: int, j: int|
            0 <= i < j < self.down_keys@.len() ==> names_view(self.down_keys@)[i] != names_view(
                self.down_keys@,
            )[j]
    }

    /// An empty state.
    pub fn new() -> (r: InputState)
        ensures
            r.wf(),
            r.keys() == Set::<Seq<char>>::empty(),
    {
        let r = InputState { down_keys: Vec::new() };
        proof {
            assert(r.keys() =~= Set::<Seq<char>>::empty());
        }
        r
    }

    /// The index of a key, if it is down.
    fn find(&self, key: &str) -> (r: Option<usize>)
        ensures
            match r {
                Some(i) => i < self.down_keys@.len() && names_view(self.down_keys@)[i as int]
                    == key@,
                None => !self.keys().contains(key@),
            },
    {
        let n = self.down_keys.len();
        let mut i: usize = 0;
        while i < n
            invariant
                n == self.down_keys@.len(),
                i <= n,
                forall|j: int| 0 <= j < i ==> names_view(self.down_keys@)[j] != key@,
            decreases n - i,
        {
            if str_eq(self.down_keys[i].as_str(), key) {
                return Some(i);
            }
            i = i + 1;
        }
        proof {
            assert(!names_view(self.down_keys@).contains(key@));
        }
        None
    }

    /// Whether the key is currently down.
    pub fn contains(&self, key: &str) -> (r: bool)
        ensures
            r == self.keys().contains(key@),
    {
        match self.find(key) {
            Some(_) => {
                proof {
                    assert(names_view(self.down_keys@).contains(key@));
                }
                true
            },
            None => false,
        }
    }

    /// Marks a key down.
    fn press(&mut self, key: &str)
        requires
            old(self).wf(),
        ensures
            final(self).wf(),
            final(self).keys() == old(self).keys().insert(key@),
    {
        match self.find(key) {
            Some(_) => {
                proof {
                    assert(names_view(self.down_keys@).contains(key@));
                    assert(self.keys() =~= old(self).keys().insert(key@));
                }
            },
            None => {
                let ghost before = names_view(self.down_keys@);
                self.down_keys.push(key.to_owned());
                proof {
                    let pushed = names_view(self.down_keys@);
                    assert(pushed =~= before.push(key@));
                    assert(!before.contains(key@)) by {
                        if before.contains(key@) {
                            assert(old(self).keys().contains(key@));
                        }
                    }
                    assert forall|i: int, j: int|
                        0 <= i < j < pushed.len() implies pushed[i] != pushed[j] by {
                        if j + 1 == pushed.len() {
                            assert(pushed[i] == before[i]);
                        }
                    }
                    assert forall|x: Seq<char>|
                        pushed.contains(x) implies (before.contains(x) || x == key@) by {
                        let m = choose|m: int| 0 <= m < pushed.len() && pushed[m] == x;
                        if m < before.len() {
                            assert(before[m] == x);
                        }
                    }
                    assert forall|x: Seq<char>|
                        before.contains(x) || x == key@ implies pushed.contains(x) by {
                        if before.contains(x) {
                            let m = choose|m: int| 0 <= m < before.len() && before[m] == x;
                            assert(pushed[m] == x);
                        } else {
                            assert(pushed[pushed.len() - 1] == x);
                        }
                    }
                    assert(self.keys() =~= old(self).keys().insert(key@));
                }
            },
        }
    }

    /// Marks a key up.
    fn release(&mut self, key: &str)
        requires
            old(self).wf(),
        ensures
            final(self).wf(),
            final(self).keys() == old(self).keys().remove(key@),
    {
        match self.find(key) {
            Some(i) => {
                let ghost before = names_view(self.down_keys@);
                self.down_keys.remove(i);
                proof {
                    assert(names_view(self.down_keys@) =~= before.subrange(0, i as int)
                        + before.subrange(i as int + 1, before.len() as int));
                    let after = names_view(self.down_keys@);
                    assert forall|x: Seq<char>| after.contains(x) implies (before.contains(x)
                        && x != key@) by {
                        let m = choose|m: int| 0 <= m < after.len() && after[m] == x;
                        let m0 = if m < i { m } else { m + 1 };
                        assert(before[m0] == x);
                        if x == key@ {
                            assert(before[i as int] == key@);
                            assert(m0 != i);
                        }
                    }
                    assert forall|x: Seq<char>|
                        before.contains(x) && x != key@ implies after.contains(x) by {
                        let m0 = choose|m0: int| 0 <= m0 < before.len() && before[m0] == x;
                        assert(m0 != i);
                        let m = if m0 < i { m0 } else { m0 - 1 };
                        assert(after[m] == x);
                    }
                    assert(self.keys() =~= old(self).keys().remove(key@));
                    assert forall|a: int, b: int|
                        0 <= a < b < self.down_keys@.len() implies after[a] != after[b] by {
                        let a0 = if a < i { a } else { a + 1 };
                        let b0 = if b < i { b } else { b + 1 };
                        assert(before[a0] == after[a] && before[b0] == after[b]);
                    }
                }
            },
            None => {
                proof {
                    assert(!names_view(self.down_keys@).contains(key@)) by {
                        if names_view(self.down_keys@).contains(key@) {
                            assert(self.keys().contains(key@));
                        }
                    }
                    assert(self.keys() =~= old(self).keys().remove(key@));
                }
            },
        }
    }

    /// Feeds one event through the tracker.
    pub fn apply_event(&mut self, event: &InputEvent)
        requires
            old(self).wf(),
        ensures
            final(self).wf(),
            final(self).keys() == spec_apply_key_state(old(self).keys(), event@),
    {
        match &event.kind {
            InputEventKind::KeyDown { key } => {
                self.press(key.as_str());
            },
            InputEventKind::KeyUp { key } => {
                self.release(key.as_str());
            },
            InputEventKind::MouseButton { button, is_down } => {
                let name = mouse_button_name(*button);
                if *is_down {
                    self.press(name);
                } else {
                    self.release(name);
                }
            },
            _ => {},
        }
    }
}

} // verus!
