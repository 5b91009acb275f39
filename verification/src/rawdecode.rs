//! Decoding raw OS input payloads into events: virtual keys with their break
//! flag, packed mouse button transition flags, and the sign-extended wheel
//! field. The OS message pump hands the raw fields in; everything decided
//! about them is decided here.

use vstd::prelude::*;
use crate::events::{InputEvent, InputEventKind, EventV, EventKindV, MouseButton, events_view, make_key_event, make_mouse_button_event, make_mouse_move_event, make_mouse_wheel_event};
use crate::keys::{keyboard_key_name, spec_keyboard_key_name};

verus! {

/// The key-break flag: set on a release, clear on a press.
pub const KEY_BREAK_FLAG: u16 = 0x0001;

/// The synthetic virtual-key code the OS uses as a filler; always dropped.
pub const SYNTHETIC_VKEY: u16 = 0x00FF;

pub const LEFT_DOWN_FLAG: u16 = 0x0001;

pub const LEFT_UP_FLAG: u16 = 0x0002;

pub const RIGHT_DOWN_FLAG: u16 = 0x0004;

pub const RIGHT_UP_FLAG: u16 = 0x0008;

pub const MIDDLE_DOWN_FLAG: u16 = 0x0010;

pub const MIDDLE_UP_FLAG: u16 = 0x0020;

pub const X_DOWN_FLAG: u16 = 0x0040;

pub const X_UP_FLAG: u16 = 0x0080;

pub const WHEEL_FLAG: u16 = 0x0400;

/// The bit in the button data naming the second extended button.
pub const XBUTTON2_BIT: u16 = 0x0002;

/// What a raw keyboard payload decodes to: nothing for the synthetic code or
/// a code outside the table, else a key transition by the break flag.
pub open spec fn spec_decode_keyboard(vkey: u16, flags: u16, ts: u64) -> Option<EventV> {
    if vkey == SYNTHETIC_VKEY {
        None
    } else {
        match spec_keyboard_key_name(vkey) {
            Some(name) => Some(
                EventV {
                    qpc_ts: ts,
                    kind: if flags & KEY_BREAK_FLAG == 0 {
                        EventKindV::KeyDown { key: name }
                    } else {
                        EventKindV::KeyUp { key: name }
                    },
                },
            ),
            None => None,
        }
    }
}

/// Decodes one raw keyboard payload.
pub fn decode_keyboard(vkey: u16, flags: u16, ts: u64) -> (r: Option<InputEvent>)
    ensures
        match r {
            Some(ev) => spec_decode_keyboard(vkey, flags, ts) == Some(ev@),
            None => spec_decode_keyboard(vkey, flags, ts) is None,
        },
{
    if vkey == SYNTHETIC_VKEY {
        return None;
    }
    match keyboard_key_name(vkey) {
        Some(name) => {
            let is_down = flags & KEY_BREAK_FLAG == 0;
            Some(make_key_event(ts, name, is_down))
        },
        None => None,
    }
}

/// One mouse button transition event, by flag.
pub open spec fn spec_button_event(
    flags: u16,
    mask: u16,
    button: MouseButton,
    is_down: bool,
    ts: u64,
) -> Seq<EventV> {
    if flags & mask != 0 {
        seq![EventV { qpc_ts: ts, kind: EventKindV::MouseButton { button, is_down } }]
    } else {
        Seq::empty()
    }
}

/// One extended-button transition, its button picked by the data bit.
pub open spec fn spec_x_button_event(
    flags: u16,
    mask: u16,
    button_data: u16,
    is_down: bool,
    ts: u64,
) -> Seq<EventV> {
    if flags & mask != 0 {
        let button = if button_data & XBUTTON2_BIT != 0 {
            MouseButton::X2
        } else {
            MouseButton::X1
        };
        seq![EventV { qpc_ts: ts, kind: EventKindV::MouseButton { button, is_down } }]
    } else {
        Seq::empty()
    }
}

/// The wheel field read as a signed 16-bit quantity.
pub open spec fn spec_sign_extend16(v: u16) -> int {
    if v >= 0x8000 {
        v - 0x10000
    } else {
        v as int
    }
}

/// Sign-extends the 16-bit wheel field.
pub fn sign_extend16(v: u16) -> (r: i32)
    ensures
        r as int == spec_sign_extend16(v),
{
    if v >= 0x8000 {
        (v as i32) - 0x10000
    } else {
        v as i32
    }
}

/// What a raw mouse payload decodes to: relative motion when either axis
/// moved, then every flagged button transition in the fixed flag order, then
/// the wheel rotation when flagged.
pub open spec fn spec_decode_mouse(
    last_x: i32,
    last_y: i32,
    button_flags: u16,
    button_data: u16,
    ts: u64,
) -> Seq<EventV> {
    (if last_x != 0 || last_y != 0 {
        seq![
            EventV {
                qpc_ts: ts,
                kind: EventKindV::MouseMove { dx: last_x as int, dy: last_y as int },
            },
        ]
    } else {
        Seq::empty()
    }) + spec_button_event(button_flags, LEFT_DOWN_FLAG, MouseButton::Left, true, ts)
        + spec_button_event(button_flags, LEFT_UP_FLAG, MouseButton::Left, false, ts)
        + spec_button_event(button_flags, RIGHT_DOWN_FLAG, MouseButton::Right, true, ts)
        + spec_button_event(button_flags, RIGHT_UP_FLAG, MouseButton::Right, false, ts)
        + spec_button_event(button_flags, MIDDLE_DOWN_FLAG, MouseButton::Middle, true, ts)
        + spec_button_event(button_flags, MIDDLE_UP_FLAG, MouseButton::Middle, false, ts)
        + spec_x_button_event(button_flags, X_DOWN_FLAG, button_data, true, ts)
        + spec_x_button_event(button_flags, X_UP_FLAG, button_data, false, ts)
        + (if button_flags & WHEEL_FLAG != 0 {
        seq![
            EventV {
                qpc_ts: ts,
                kind: EventKindV::MouseWheel { delta: spec_sign_extend16(button_data) },
            },
        ]
    } else {
        Seq::empty()
    })
}

/// Appends one flagged button transition.
fn push_button_event(
    out: &mut Vec<InputEvent>,
    flags: u16,
    mask: u16,
    button: MouseButton,
    is_down: bool,
    ts: u64,
)
    ensures
        events_view(final(out)@) == events_view(old(out)@) + spec_button_event(
            flags,
            mask,
            button,
            is_down,
            ts,
        ),
{
    let ghost before = events_view(out@);
    if flags & mask != 0 {
        let ev = make_mouse_button_event(ts, button, is_down);
        out.push(ev);
        proof {
            assert(events_view(out@) =~= before + spec_button_event(
                flags,
                mask,
                button,
                is_down,
                ts,
            ));
        }
    } else {
        proof {
            assert(events_view(out@) =~= before + spec_button_event(
                flags,
                mask,
                button,
                is_down,
                ts,
            ));
        }
    }
}

/// Appends one flagged extended-button transition.
fn push_x_button_event(out: &mut Vec<InputEvent>, flags: u16, mask: u16, button_data: u16, is_down:
    bool, ts: u64)
    ensures
        events_view(final(out)@) == events_view(old(out)@) + spec_x_button_event(
            flags,
            mask,
            button_data,
            is_down,
            ts,
        ),
{
    let ghost before = events_view(out@);
    if flags & mask != 0 {
        let button = if button_data & XBUTTON2_BIT != 0 {
            MouseButton::X2
        } else {
            MouseButton::X1
        };
        let ev = make_mouse_button_event(ts, button, is_down);
        out.push(ev);
        proof {
            assert(events_view(out@) =~= before + spec_x_button_event(
                flags,
                mask,
                button_data,
                is_down,
                ts,
            ));
        }
    } else {
        proof {
            assert(events_view(out@) =~= before + spec_x_button_event(
                flags,
                mask,
                button_data,
                is_down,
                ts,
            ));
        }
    }
}

/// Decodes one raw mouse payload into its events, in the fixed order.
#[verifier::rlimit(30)]
pub fn decode_mouse(last_x: i32, last_y: i32, button_flags: u16, button_data: u16, ts: u64) -> (r:
    Vec<InputEvent>)
    ensures
        events_view(r@) == spec_decode_mouse(last_x, last_y, button_flags, button_data, ts),
{
    let ghost target = spec_decode_mouse(last_x, last_y, button_flags, button_data, ts);
    let mut out: Vec<InputEvent> = Vec::new();
    if last_x != 0 || last_y != 0 {
        let ev = make_mouse_move_event(ts, last_x, last_y);
        out.push(ev);
    }
    let ghost seg_move = if last_x != 0 || last_y != 0 {
        seq![
            EventV {
                qpc_ts: ts,
                kind: EventKindV::MouseMove { dx: last_x as int, dy: last_y as int },
            },
        ]
    } else {
        Seq::<EventV>::empty()
    };
    proof {
        assert(events_view(out@) =~= seg_move);
    }
    push_button_event(&mut out, button_flags, LEFT_DOWN_FLAG, MouseButton::Left, true, ts);
    push_button_event(&mut out, button_flags, LEFT_UP_FLAG, MouseButton::Left, false, ts);
    push_button_event(&mut out, button_flags, RIGHT_DOWN_FLAG, MouseButton::Right, true, ts);
    push_button_event(&mut out, button_flags, RIGHT_UP_FLAG, MouseButton::Right, false, ts);
    push_button_event(&mut out, button_flags, MIDDLE_DOWN_FLAG, MouseButton::Middle, true, ts);
    push_button_event(&mut out, button_flags, MIDDLE_UP_FLAG, MouseButton::Middle, false, ts);
    push_x_button_event(&mut out, button_flags, X_DOWN_FLAG, button_data, true, ts);
    push_x_button_event(&mut out, button_flags, X_UP_FLAG, button_data, false, ts);
    if button_flags & WHEEL_FLAG != 0 {
        let delta = sign_extend16(button_data);
        let ghost before = events_view(out@);
        let ev = make_mouse_wheel_event(ts, delta);
        out.push(ev);
        proof {
            assert(events_view(out@) =~= before + seq![
                EventV {
                    qpc_ts: ts,
                    kind: EventKindV::MouseWheel { delta: spec_sign_extend16(button_data) },
                },
            ]);
        }
    }
    proof {
        assert(events_view(out@) =~= target);
    }
    out
}

/// The foreground gate of a targeted collector: with a target window set, an
/// event passes only while that window is the foreground one.
pub open spec fn spec_event_passes_gate(target: Option<i64>, foreground: i64) -> bool {
    match target {
        Some(t) => t == foreground,
        None => true,
    }
}

/// Decides the foreground gate for one delivery.
pub fn event_passes_gate(target: Option<i64>, foreground: i64) -> (r: bool)
    ensures
        r == spec_event_passes_gate(target, foreground),
{
    match target {
        Some(t) => t == foreground,
        None => true,
    }
}

} // verus!
