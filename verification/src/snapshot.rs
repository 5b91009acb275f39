//! The per-step snapshot model: completed key presses, click counters, the
//! cursor reading, and the assembled `ActionSnapshot`.

use vstd::prelude::*;

verus! {

/// A completed key press: down and up inside or across windows.
#[derive(Clone, Debug)]
pub struct KeyPress {
    pub key: String,
    pub down_ts: u64,
    pub up_ts: u64,
}

/// Mathematical image of a completed key press.
pub struct KeyPressV {
    pub key: Seq<char>,
    pub down_ts: u64,
    pub up_ts: u64,
}

impl View for KeyPress {
    type V = KeyPressV;

    open spec fn view(&self) -> KeyPressV {
        KeyPressV { key: self.key@, down_ts: self.down_ts, up_ts: self.up_ts }
    }
}

/// Per-button click counters, in the fixed button order.
#[derive(Clone, Copy, PartialEq, Eq, Structural, Debug)]
pub struct MouseClicks {
    pub left: u64,
    pub right: u64,
    pub middle: u64,
    pub x1: u64,
    pub x2: u64,
}

/// Mathematical image of the click counters.
pub struct ClicksV {
    pub left: int,
    pub right: int,
    pub middle: int,
    pub x1: int,
    pub x2: int,
}

impl View for MouseClicks {
    type V = ClicksV;

    open spec fn view(&self) -> ClicksV {
        ClicksV {
            left: self.left as int,
            right: self.right as int,
            middle: self.middle as int,
            x1: self.x1 as int,
            x2: self.x2 as int,
        }
    }
}

impl MouseClicks {
    /// All five counters at zero.
    pub fn zeroed() -> (r: MouseClicks)
        ensures
            r@ == spec_clicks_zero(),
    {
        MouseClicks { left: 0, right: 0, middle: 0, x1: 0, x2: 0 }
    }
}

pub open spec fn spec_clicks_zero() -> ClicksV {
    ClicksV { left: 0, right: 0, middle: 0, x1: 0, x2: 0 }
}

/// A per-step cursor reading: visibility and the position normalized to the
/// target window, held in thousandths of its client extent.
#[derive(Clone, Copy, PartialEq, Eq, Structural, Debug)]
pub struct CursorProvider {
    pub visible: bool,
    pub x_milli: u16,
    pub y_milli: u16,
}

impl CursorProvider {
    /// The coordinates stay inside the unit square.
    pub open spec fn wf(&self) -> bool {
        self.x_milli <= 1000 && self.y_milli <= 1000
    }

    /// A reading clamped to the unit square.
    pub fn clamped(visible: bool, x_milli: u16, y_milli: u16) -> (r: CursorProvider)
        ensures
            r.visible == visible,
            r.x_milli == if x_milli <= 1000 { x_milli as int } else { 1000int },
            r.y_milli == if y_milli <= 1000 { y_milli as int } else { 1000int },
            r.wf(),
    {
        CursorProvider {
            visible,
            x_milli: if x_milli <= 1000 { x_milli } else { 1000 },
            y_milli: if y_milli <= 1000 { y_milli } else { 1000 },
        }
    }

    /// The neutral reading a failed probe degrades to: hidden, centered.
    pub fn neutral() -> (r: CursorProvider)
        ensures
            r == (CursorProvider { visible: false, x_milli: 500u16, y_milli: 500u16 }),
            r.wf(),
    {
        CursorProvider { visible: false, x_milli: 500, y_milli: 500 }
    }

    /// The per-step reading of a probed cursor against the target window's
    /// client rectangle: hidden whenever the system says so or the cursor
    /// lies outside the target; coordinates normalized and clamped.
    pub fn probed(
        system_visible: bool,
        x: i32,
        y: i32,
        left: i32,
        top: i32,
        right: i32,
        bottom: i32,
    ) -> (r: CursorProvider)
        ensures
            r.visible == (system_visible && left <= x < right && top <= y < bottom),
            r.x_milli as int == spec_normalize_milli(x as int, left as int, right as int),
            r.y_milli as int == spec_normalize_milli(y as int, top as int, bottom as int),
            r.wf(),
    {
        let inside = left <= x && x < right && top <= y && y < bottom;
        CursorProvider {
            visible: system_visible && inside,
            x_milli: normalize_milli(x, left, right),
            y_milli: normalize_milli(y, top, bottom),
        }
    }
}

/// A coordinate normalized into thousandths of the client extent
/// `[low, high)`, clamped into the unit range; an empty extent reads zero.
pub open spec fn spec_normalize_milli(pos: int, low: int, high: int) -> int {
    if high <= low {
        0
    } else if pos <= low {
        0
    } else {
        let scaled = (pos - low) * 1000 / (high - low);
        if scaled > 1000 {
            1000
        } else {
            scaled
        }
    }
}

/// Normalizes a cursor coordinate against a client extent.
pub fn normalize_milli(pos: i32, low: i32, high: i32) -> (r: u16)
    ensures
        r as int == spec_normalize_milli(pos as int, low as int, high as int),
        r <= 1000,
{
    if high <= low {
        return 0;
    }
    if pos <= low {
        return 0;
    }
    let num: i64 = (pos as i64 - low as i64) * 1000;
    let den: i64 = high as i64 - low as i64;
    let scaled: i64 = num / den;
    if scaled > 1000 {
        1000
    } else {
        scaled as u16
    }
}

/// One step's aggregated input: what the window's events folded down to.
#[derive(Clone, Debug)]
pub struct ActionSnapshot {
    pub step_index: u64,
    pub qpc_ts: u64,
    pub is_foreground: bool,
    pub held_keys: Vec<String>,
    pub key_presses: Vec<KeyPress>,
    pub mouse_dx_total: i64,
    pub mouse_dy_total: i64,
    pub mouse_wheel_total: i64,
    pub mouse_clicks: MouseClicks,
    pub cursor: CursorProvider,
}

/// Mathematical image of a snapshot.
pub struct SnapshotV {
    pub step_index: u64,
    pub qpc_ts: u64,
    pub is_foreground: bool,
    pub held_keys: Seq<Seq<char>>,
    pub key_presses: Seq<KeyPressV>,
    pub mouse_dx_total: int,
    pub mouse_dy_total: int,
    pub mouse_wheel_total: int,
    pub mouse_clicks: ClicksV,
    pub cursor: CursorProvider,
}

impl View for ActionSnapshot {
    type V = SnapshotV;

    open spec fn view(&self) -> SnapshotV {
        SnapshotV {
            step_index: self.step_index,
            qpc_ts: self.qpc_ts,
            is_foreground: self.is_foreground,
            held_keys: self.held_keys@.map_values(|s: String| s@),
            key_presses: self.key_presses@.map_values(|p: KeyPress| p@),
            mouse_dx_total: self.mouse_dx_total as int,
            mouse_dy_total: self.mouse_dy_total as int,
            mouse_wheel_total: self.mouse_wheel_total as int,
            mouse_clicks: self.mouse_clicks@,
            cursor: self.cursor,
        }
    }
}

/// A snapshot together with its canonical compiled-action line.
#[derive(Clone, Debug)]
pub struct AggregatedWindow {
    pub snapshot: ActionSnapshot,
    pub compiled_action: String,
}

} // verus!
