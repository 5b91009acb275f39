//! The polling collector's decision core: given the raw key-state readings a
//! poll gathered, it derives the events of the sampled window and the next
//! poll state. The OS probe that gathers the readings stays outside; every
//! reading is decided here, deterministically.

use vstd::prelude::*;
use crate::events::{InputEvent, EventV, EventKindV, MouseButton, events_view, make_key_event, make_mouse_button_event, make_mouse_move_event, spec_mouse_button_name};
use crate::keys::{build_key_specs, key_specs_view, spec_key_spec_list};

verus! {

/// Whether a raw reading reports the key as currently down.
pub open spec fn spec_reading_down(reading: u16) -> bool {
    reading & 0x8000 != 0
}

/// Whether a raw reading reports a press since the previous poll.
pub open spec fn spec_reading_pressed_since(reading: u16) -> bool {
    reading & 0x0001 != 0
}

/// Splits one raw reading into its two flags.
pub fn read_key_flags(reading: u16) -> (r: (bool, bool))
    ensures
        r.0 == spec_reading_down(reading),
        r.1 == spec_reading_pressed_since(reading),
{
    ((reading & 0x8000) != 0, (reading & 0x0001) != 0)
}

/// The events one polled key contributes: a key reported down keeps
/// reporting a press; a key that was tapped between polls reports a press
/// and a release; a key that was down and no longer is reports a release.
pub open spec fn spec_key_poll_events(
    name: Seq<char>,
    prev: bool,
    reading: u16,
    enabled: bool,
    ts: u64,
) -> Seq<EventV> {
    if !enabled {
        Seq::empty()
    } else if spec_reading_down(reading) {
        seq![EventV { qpc_ts: ts, kind: EventKindV::KeyDown { key: name } }]
    } else if spec_reading_pressed_since(reading) {
        seq![
            EventV { qpc_ts: ts, kind: EventKindV::KeyDown { key: name } },
            EventV { qpc_ts: ts, kind: EventKindV::KeyUp { key: name } },
        ]
    } else if prev {
        seq![EventV { qpc_ts: ts, kind: EventKindV::KeyUp { key: name } }]
    } else {
        Seq::empty()
    }
}

/// The keyboard events of a whole poll, key after key in the fixed order.
pub open spec fn spec_poll_keys_upto(
    names: Seq<Seq<char>>,
    prevs: Seq<bool>,
    readings: Seq<u16>,
    enabled: bool,
    ts: u64,
    n: int,
) -> Seq<EventV>
    decreases n,
{
    if n <= 0 {
        Seq::empty()
    } else {
        spec_poll_keys_upto(names, prevs, readings, enabled, ts, n - 1) + spec_key_poll_events(
            names[n - 1],
            prevs[n - 1],
            readings[n - 1],
            enabled,
            ts,
        )
    }
}

/// The events one polled mouse button contributes: a transition whenever the
/// reading disagrees with the remembered state.
pub open spec fn spec_button_poll_events(
    button: MouseButton,
    prev: bool,
    reading: u16,
    enabled: bool,
    ts: u64,
) -> Seq<EventV> {
    if spec_reading_down(reading) != prev && enabled {
        seq![
            EventV {
                qpc_ts: ts,
                kind: EventKindV::MouseButton { button, is_down: spec_reading_down(reading) },
            },
        ]
    } else {
        Seq::empty()
    }
}

/// The button a polling slot watches, in the fixed order.
pub open spec fn spec_poll_button(i: int) -> MouseButton {
    if i == 0 {
        MouseButton::Left
    } else if i == 1 {
        MouseButton::Right
    } else if i == 2 {
        MouseButton::Middle
    } else if i == 3 {
        MouseButton::X1
    } else {
        MouseButton::X2
    }
}

/// The mouse-button events of a whole poll.
pub open spec fn spec_poll_buttons_upto(
    prevs: Seq<bool>,
    readings: Seq<u16>,
    enabled: bool,
    ts: u64,
    n: int,
) -> Seq<EventV>
    decreases n,
{
    if n <= 0 {
        Seq::empty()
    } else {
        spec_poll_buttons_upto(prevs, readings, enabled, ts, n - 1) + spec_button_poll_events(
            spec_poll_button(n - 1),
            prevs[n - 1],
            readings[n - 1],
            enabled,
            ts,
        )
    }
}

/// The cursor-motion event of a poll: the wrapped difference against the
/// previous position, when it moved and mouse sampling is on.
pub open spec fn spec_cursor_poll_events(
    last: Option<(i32, i32)>,
    now: Option<(i32, i32)>,
    enabled: bool,
    ts: u64,
) -> Seq<EventV> {
    match (last, now) {
        (Some(prev), Some(point)) => {
            let dx = vstd::wrapping::i32_specs::wrapping_sub(point.0, prev.0);
            let dy = vstd::wrapping::i32_specs::wrapping_sub(point.1, prev.1);
            if enabled && (dx != 0 || dy != 0) {
                seq![
                    EventV {
                        qpc_ts: ts,
                        kind: EventKindV::MouseMove { dx: dx as int, dy: dy as int },
                    },
                ]
            } else {
                Seq::empty()
            }
        },
        _ => Seq::empty(),
    }
}

/// The timestamp a poll stamps its events with: the last tick inside the
/// window.
pub open spec fn spec_poll_ts(window_start: u64, window_end: u64) -> u64 {
    if window_end > window_start {
        (window_end - 1) as u64
    } else {
        window_end
    }
}

/// A polling collector's remembered state: one slot per watched key, five
/// for the mouse buttons, and the last cursor position.
pub struct PollingCollector {
    pub keys: Vec<(u16, &'static str)>,
    pub key_state: Vec<bool>,
    pub mouse_state: Vec<bool>,
    pub last_cursor: Option<(i32, i32)>,
}

impl PollingCollector {
    pub open spec fn wf(&self) -> bool {
        self.key_state@.len() == self.keys@.len() && self.mouse_state@.len() == 5
    }

    /// The names of the watched keys, in polling order.
    pub open spec fn key_names(&self) -> Seq<Seq<char>> {
        self.keys@.map_values(|p: (u16, &'static str)| p.1@)
    }

    /// A fresh collector watching the whole key table, all keys up, with the
    /// given starting cursor position.
    pub fn new(initial_cursor: Option<(i32, i32)>) -> (r: PollingCollector)
        ensures
            r.wf(),
            key_specs_view(r.keys@) == spec_key_spec_list(),
            r.keys@.len() == 58,
            forall|i: int| 0 <= i < r.key_state@.len() ==> !r.key_state@[i],
            forall|i: int| 0 <= i < 5 ==> !r.mouse_state@[i],
            r.last_cursor == initial_cursor,
    {
        let keys = build_key_specs();
        let n = keys.len();
        let mut key_state: Vec<bool> = Vec::new();
        let mut i: usize = 0;
        while i < n
            invariant
                i <= n,
                key_state@.len() == i,
                forall|j: int| 0 <= j < i ==> !key_state@[j],
            decreases n - i,
        {
            key_state.push(false);
            i = i + 1;
        }
        let mut mouse_state: Vec<bool> = Vec::new();
        let mut m: usize = 0;
        while m < 5
            invariant
                m <= 5,
                mouse_state@.len() == m,
                forall|j: int| 0 <= j < m ==> !mouse_state@[j],
            decreases 5 - m,
        {
            mouse_state.push(false);
            m = m + 1;
        }
        PollingCollector { keys, key_state, mouse_state, last_cursor: initial_cursor }
    }

    /// Derives the window's events from the readings of one poll and
    /// advances the remembered state: keyboard keys first in polling order,
    /// then the mouse buttons in the fixed order, then cursor motion. The
    /// remembered state follows the readings whether or not the
    /// corresponding event class is enabled.
    #[verifier::rlimit(30)]
    pub fn sample(
        &mut self,
        key_readings: &Vec<u16>,
        mouse_readings: &Vec<u16>,
        cursor: Option<(i32, i32)>,
        window_start: u64,
        window_end: u64,
        keyboard_enabled: bool,
        mouse_enabled: bool,
    ) -> (r: Vec<InputEvent>)
        requires
            old(self).wf(),
            key_readings@.len() == old(self).keys@.len(),
            mouse_readings@.len() == 5,
        ensures
            final(self).wf(),
            final(self).keys == old(self).keys,
            ({
                let ts = spec_poll_ts(window_start, window_end);
                let keyboard = spec_poll_keys_upto(
                    old(self).key_names(),
                    old(self).key_state@,
                    key_readings@,
                    keyboard_enabled,
                    ts,
                    old(self).keys@.len() as int,
                );
                let buttons = spec_poll_buttons_upto(
                    old(self).mouse_state@,
                    mouse_readings@,
                    mouse_enabled,
                    ts,
                    5,
                );
                let motion = spec_cursor_poll_events(
                    old(self).last_cursor,
                    cursor,
                    mouse_enabled,
                    ts,
                );
                &&& events_view(r@) == keyboard + buttons + motion
                &&& (forall|i: int|
                    0 <= i < final(self).key_state@.len() ==> final(self).key_state@[i]
                        == spec_reading_down(#[trigger] key_readings@[i]))
                &&& (forall|i: int|
                    0 <= i < 5 ==> final(self).mouse_state@[i] == spec_reading_down(
                        #[trigger] mouse_readings@[i],
                    ))
                &&& final(self).last_cursor == (if cursor is Some {
                    cursor
                } else {
                    old(self).last_cursor
                })
            }),
    {
        let ts = if window_end > window_start {
            window_end - 1
        } else {
            window_end
        };
        let ghost names = self.key_names();
        let ghost prevs = self.key_state@;
        let n = self.keys.len();
        let mut out: Vec<InputEvent> = Vec::new();
        let mut i: usize = 0;
        while i < n
            invariant
                n == self.keys@.len(),
                i <= n,
                self.wf(),
                self.keys == old(self).keys,
                key_readings@.len() == n,
                mouse_readings@.len() == 5,
                names == old(self).key_names(),
                prevs == old(self).key_state@,
                ts == spec_poll_ts(window_start, window_end),
                self.mouse_state@ == old(self).mouse_state@,
                self.last_cursor == old(self).last_cursor,
                forall|j: int| i <= j < n ==> self.key_state@[j] == prevs[j],
                forall|j: int|
                    0 <= j < i ==> self.key_state@[j] == spec_reading_down(
                        #[trigger] key_readings@[j],
                    ),
                events_view(out@) =~= spec_poll_keys_upto(
                    names,
                    prevs,
                    key_readings@,
                    keyboard_enabled,
                    ts,
                    i as int,
                ),
            decreases n - i,
        {
            let reading = key_readings[i];
            let (down, pressed_since) = read_key_flags(reading);
            let prev = self.key_state[i];
            self.key_state.set(i, down);
            let name = self.keys[i].1;
            let ghost before = events_view(out@);
            if keyboard_enabled {
                if down {
                    out.push(make_key_event(ts, name, true));
                } else if pressed_since {
                    out.push(make_key_event(ts, name, true));
                    out.push(make_key_event(ts, name, false));
                } else if prev {
                    out.push(make_key_event(ts, name, false));
                }
            }
            proof {
                assert(prev == prevs[i as int]);
                assert(name@ == names[i as int]);
                assert(events_view(out@) =~= before + spec_key_poll_events(
                    names[i as int],
                    prevs[i as int],
                    key_readings@[i as int],
                    keyboard_enabled,
                    ts,
                ));
            }
            i = i + 1;
        }
        let ghost keyboard = spec_poll_keys_upto(
            names,
            prevs,
            key_readings@,
            keyboard_enabled,
            ts,
            n as int,
        );
        let ghost bprevs = self.mouse_state@;
        let mut b: usize = 0;
        while b < 5
            invariant
                b <= 5,
                self.wf(),
                self.keys == old(self).keys,
                mouse_readings@.len() == 5,
                bprevs == old(self).mouse_state@,
                ts == spec_poll_ts(window_start, window_end),
                self.key_state@ == final_key_state(old(self).key_state@, key_readings@),
                self.last_cursor == old(self).last_cursor,
                forall|j: int| b <= j < 5 ==> self.mouse_state@[j] == bprevs[j],
                forall|j: int|
                    0 <= j < b ==> self.mouse_state@[j] == spec_reading_down(
                        #[trigger] mouse_readings@[j],
                    ),
                events_view(out@) =~= keyboard + spec_poll_buttons_upto(
                    bprevs,
                    mouse_readings@,
                    mouse_enabled,
                    ts,
                    b as int,
                ),
            decreases 5 - b,
        {
            let reading = mouse_readings[b];
            let (down, _) = read_key_flags(reading);
            let prev = self.mouse_state[b];
            let button = if b == 0 {
                MouseButton::Left
            } else if b == 1 {
                MouseButton::Right
            } else if b == 2 {
                MouseButton::Middle
            } else if b == 3 {
                MouseButton::X1
            } else {
                MouseButton::X2
            };
            let ghost before = events_view(out@);
            if down != prev {
                self.mouse_state.set(b, down);
                if mouse_enabled {
                    out.push(make_mouse_button_event(ts, button, down));
                }
            }
            proof {
                assert(button == spec_poll_button(b as int));
                assert(self.mouse_state@[b as int] == spec_reading_down(
                    mouse_readings@[b as int],
                ));
                assert(events_view(out@) =~= before + spec_button_poll_events(
                    spec_poll_button(b as int),
                    bprevs[b as int],
                    mouse_readings@[b as int],
                    mouse_enabled,
                    ts,
                ));
            }
            b = b + 1;
        }
        let ghost buttons = spec_poll_buttons_upto(bprevs, mouse_readings@, mouse_enabled, ts, 5);
        if let Some(point) = cursor {
            if let Some(prev) = self.last_cursor {
                let dx = point.0.wrapping_sub(prev.0);
                let dy = point.1.wrapping_sub(prev.1);
                let ghost before = events_view(out@);
                if mouse_enabled && (dx != 0 || dy != 0) {
                    out.push(make_mouse_move_event(ts, dx, dy));
                }
                proof {
                    assert(events_view(out@) =~= before + spec_cursor_poll_events(
                        old(self).last_cursor,
                        cursor,
                        mouse_enabled,
                        ts,
                    ));
                }
            }
            self.last_cursor = Some(point);
        }
        proof {
            assert(events_view(out@) =~= keyboard + buttons + spec_cursor_poll_events(
                old(self).last_cursor,
                cursor,
                mouse_enabled,
                ts,
            ));
        }
        out
    }
}

/// The key state a poll leaves behind: the down flag of every reading.
pub open spec fn final_key_state(prev: Seq<bool>, readings: Seq<u16>) -> Seq<bool> {
    Seq::new(prev.len(), |i: int| spec_reading_down(readings[i]))
}

} // verus!
