//! The raw input event model: timestamps, event kinds, and constructors.

use vstd::prelude::*;

verus! {

/// One tick of the high-resolution monotonic counter; every event carries
/// exactly one such tick.
pub type QpcTimestamp = u64;

/// Zero-based index of a fixed-duration step within a session.
pub type StepIndex = u64;

/// A physical mouse button, in the fixed order used by every canonical
/// rendering: Left, Right, Middle, X1, X2.
#[derive(Clone, Copy, PartialEq, Eq, Structural, Debug)]
pub enum MouseButton {
    Left,
    Right,
    Middle,
    X1,
    X2,
}

/// The payload of one input event.
#[derive(Clone, Debug)]
pub enum InputEventKind {
    KeyDown { key: String },
    KeyUp { key: String },
    MouseButton { button: MouseButton, is_down: bool },
    MouseMove { dx: i32, dy: i32 },
    MouseWheel { delta: i32 },
}

/// One timestamped input event.
#[derive(Clone, Debug)]
pub struct InputEvent {
    pub qpc_ts: QpcTimestamp,
    pub kind: InputEventKind,
}

/// Mathematical image of an event payload: keys become character sequences.
pub enum EventKindV {
    KeyDown { key: Seq<char> },
    KeyUp { key: Seq<char> },
    MouseButton { button: MouseButton, is_down: bool },
    MouseMove { dx: int, dy: int },
    MouseWheel { delta: int },
}

/// Mathematical image of one event.
pub struct EventV {
    pub qpc_ts: u64,
    pub kind: EventKindV,
}

impl View for InputEventKind {
    type V = EventKindV;

    open spec fn view(&self) -> EventKindV {
        match self {
            InputEventKind::KeyDown { key } => EventKindV::KeyDown { key: key@ },
            InputEventKind::KeyUp { key } => EventKindV::KeyUp { key: key@ },
            InputEventKind::MouseButton { button, is_down } => EventKindV::MouseButton {
                button: *button,
                is_down: *is_down,
            },
            InputEventKind::MouseMove { dx, dy } => EventKindV::MouseMove {
                dx: *dx as int,
                dy: *dy as int,
            },
            InputEventKind::MouseWheel { delta } => EventKindV::MouseWheel {
                delta: *delta as int,
            },
        }
    }
}

impl View for InputEvent {
    type V = EventV;

    open spec fn view(&self) -> EventV {
        EventV { qpc_ts: self.qpc_ts, kind: self.kind@ }
    }
}

/// The image of a whole event slice.
pub open spec fn events_view(s: Seq<InputEvent>) -> Seq<EventV> {
    s.map_values(|e: InputEvent| e@)
}

/// The symbolic name a mouse button is tracked under, as a virtual key beside
/// the keyboard keys.
pub fn mouse_button_name(button: MouseButton) -> (r: &'static str)
    ensures
        r@ == spec_mouse_button_name(button),
{
    match button {
        MouseButton::Left => "MouseLeft",
        MouseButton::Right => "MouseRight",
        MouseButton::Middle => "MouseMiddle",
        MouseButton::X1 => "MouseX1",
        MouseButton::X2 => "MouseX2",
    }
}

pub open spec fn spec_mouse_button_name(button: MouseButton) -> Seq<char> {
    match button {
        MouseButton::Left => "MouseLeft"@,
        MouseButton::Right => "MouseRight"@,
        MouseButton::Middle => "MouseMiddle"@,
        MouseButton::X1 => "MouseX1"@,
        MouseButton::X2 => "MouseX2"@,
    }
}

/// Builds a key transition event from a symbolic key name.
pub fn make_key_event(qpc_ts: QpcTimestamp, key: &str, is_down: bool) -> (r: InputEvent)
    ensures
        r.qpc_ts == qpc_ts,
        is_down ==> r@.kind == (EventKindV::KeyDown { key: key@ }),
        !is_down ==> r@.kind == (EventKindV::KeyUp { key: key@ }),
{
    let kind = if is_down {
        InputEventKind::KeyDown { key: key.to_owned() }
    } else {
        InputEventKind::KeyUp { key: key.to_owned() }
    };
    InputEvent { qpc_ts, kind }
}

/// Builds a mouse button transition event.
pub fn make_mouse_button_event(qpc_ts: QpcTimestamp, button: MouseButton, is_down: bool) -> (r:
    InputEvent)
    ensures
        r.qpc_ts == qpc_ts,
        r@.kind == (EventKindV::MouseButton { button, is_down }),
{
    InputEvent { qpc_ts, kind: InputEventKind::MouseButton { button, is_down } }
}

/// Builds a relative mouse motion event.
pub fn make_mouse_move_event(qpc_ts: QpcTimestamp, dx: i32, dy: i32) -> (r: InputEvent)
    ensures
        r.qpc_ts == qpc_ts,
        r@.kind == (EventKindV::MouseMove { dx: dx as int, dy: dy as int }),
{
    InputEvent { qpc_ts, kind: InputEventKind::MouseMove { dx, dy } }
}

/// Builds a wheel rotation event; positive deltas scroll up.
pub fn make_mouse_wheel_event(qpc_ts: QpcTimestamp, delta: i32) -> (r: InputEvent)
    ensures
        r.qpc_ts == qpc_ts,
        r@.kind == (EventKindV::MouseWheel { delta: delta as int }),
{
    InputEvent { qpc_ts, kind: InputEventKind::MouseWheel { delta } }
}

} // verus!
