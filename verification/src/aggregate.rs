//! The step aggregator: folds one window's events into a deterministic
//! per-step snapshot while carrying held keys across windows.
//!
//! The whole fold is specified as a mathematical function of the event
//! sequence and the incoming state, so two runs over identical inputs give
//! identical snapshots and identical post-states.

use vstd::prelude::*;
use crate::events::{InputEvent, InputEventKind, EventV, EventKindV, MouseButton, events_view, mouse_button_name, spec_mouse_button_name};
use crate::held::{AggregatorState, held_has, held_get, held_insert, held_remove, held_keys_of, held_sorted, lemma_held_insert_has, lemma_held_remove_has, lemma_held_insert_sorted, lemma_held_remove_sorted, lemma_held_has_iff};
use crate::snapshot::{KeyPress, KeyPressV, MouseClicks, ClicksV, CursorProvider, ActionSnapshot, SnapshotV, spec_clicks_zero};
use crate::strutil::names_view;

verus! {

/// The image of a press list.
pub open spec fn presses_view(v: Seq<KeyPress>) -> Seq<KeyPressV> {
    v.map_values(|p: KeyPress| p@)
}

/// The running accumulator of the fold: the held keys and everything the
/// window has gathered so far.
pub struct AggAccV {
    pub held: Seq<(Seq<char>, u64)>,
    pub presses: Seq<KeyPressV>,
    pub dx: int,
    pub dy: int,
    pub wheel: int,
    pub clicks: ClicksV,
}

/// The accumulator a window starts from: the carried held keys, everything
/// else empty.
pub open spec fn agg_init(held0: Seq<(Seq<char>, u64)>) -> AggAccV {
    AggAccV {
        held: held0,
        presses: Seq::empty(),
        dx: 0,
        dy: 0,
        wheel: 0,
        clicks: spec_clicks_zero(),
    }
}

/// One more click on the given button.
pub open spec fn clicks_bump(c: ClicksV, b: MouseButton) -> ClicksV {
    match b {
        MouseButton::Left => ClicksV { left: c.left + 1, ..c },
        MouseButton::Right => ClicksV { right: c.right + 1, ..c },
        MouseButton::Middle => ClicksV { middle: c.middle + 1, ..c },
        MouseButton::X1 => ClicksV { x1: c.x1 + 1, ..c },
        MouseButton::X2 => ClicksV { x2: c.x2 + 1, ..c },
    }
}

/// What one event does to the accumulator.
///
/// A key down on a fresh key records its press start; on a held key it is a
/// repeat and collapses into the existing press. A key up on a held key
/// completes a press; an up with no matching down is discarded. Mouse buttons
/// are key transitions against their virtual key, with a click counted from
/// each fresh down. Motion and wheel deltas accumulate.
pub open spec fn agg_apply(acc: AggAccV, ev: EventV) -> AggAccV {
    match ev.kind {
        EventKindV::KeyDown { key } => {
            if held_has(acc.held, key) {
                acc
            } else {
                AggAccV { held: held_insert(acc.held, key, ev.qpc_ts), ..acc }
            }
        },
        EventKindV::KeyUp { key } => {
            if held_has(acc.held, key) {
                AggAccV {
                    held: held_remove(acc.held, key),
                    presses: acc.presses.push(
                        KeyPressV {
                            key,
                            down_ts: held_get(acc.held, key),
                            up_ts: ev.qpc_ts,
                        },
                    ),
                    ..acc
                }
            } else {
                acc
            }
        },
        EventKindV::MouseButton { button, is_down } => {
            let name = spec_mouse_button_name(button);
            if is_down {
                if held_has(acc.held, name) {
                    acc
                } else {
                    AggAccV {
                        held: held_insert(acc.held, name, ev.qpc_ts),
                        clicks: clicks_bump(acc.clicks, button),
                        ..acc
                    }
                }
            } else {
                if held_has(acc.held, name) {
                    AggAccV {
                        held: held_remove(acc.held, name),
                        presses: acc.presses.push(
                            KeyPressV {
                                key: name,
                                down_ts: held_get(acc.held, name),
                                up_ts: ev.qpc_ts,
                            },
                        ),
                        ..acc
                    }
                } else {
                    acc
                }
            }
        },
        EventKindV::MouseMove { dx, dy } => AggAccV { dx: acc.dx + dx, dy: acc.dy + dy, ..acc },
        EventKindV::MouseWheel { delta } => AggAccV { wheel: acc.wheel + delta, ..acc },
    }
}

/// The fold of a whole event sequence.
pub open spec fn agg_fold(acc: AggAccV, evs: Seq<EventV>) -> AggAccV
    decreases evs.len(),
{
    if evs.len() == 0 {
        acc
    } else {
        agg_fold(agg_apply(acc, evs[0]), evs.subrange(1, evs.len() as int))
    }
}

/// Unrolling the fold from the right.
pub proof fn lemma_agg_fold_snoc(acc: AggAccV, evs: Seq<EventV>, ev: EventV)
    ensures
        agg_fold(acc, evs + seq![ev]) == agg_apply(agg_fold(acc, evs), ev),
    decreases evs.len(),
{
    let whole = evs + seq![ev];
    assert(whole.len() == evs.len() + 1);
    assert(agg_fold(acc, whole) == agg_fold(
        agg_apply(acc, whole[0]),
        whole.subrange(1, whole.len() as int),
    ));
    if evs.len() == 0 {
        assert(whole[0] == ev);
        assert(whole.subrange(1, whole.len() as int) =~= Seq::<EventV>::empty());
        assert(agg_fold(agg_apply(acc, ev), Seq::<EventV>::empty()) == agg_apply(acc, ev));
    } else {
        assert(whole[0] == evs[0]);
        assert(whole.subrange(1, whole.len() as int) =~= evs.subrange(1, evs.len() as int)
            + seq![ev]);
        lemma_agg_fold_snoc(agg_apply(acc, evs[0]), evs.subrange(1, evs.len() as int), ev);
    }
}

/// Splitting the fold over concatenation.
pub proof fn lemma_agg_fold_append(acc: AggAccV, a: Seq<EventV>, b: Seq<EventV>)
    ensures
        agg_fold(acc, a + b) == agg_fold(agg_fold(acc, a), b),
    decreases a.len(),
{
    if a.len() == 0 {
        assert(a + b =~= b);
    } else {
        let whole = a + b;
        assert(whole[0] == a[0]);
        assert(whole.subrange(1, whole.len() as int) =~= a.subrange(1, a.len() as int) + b);
        lemma_agg_fold_append(agg_apply(acc, a[0]), a.subrange(1, a.len() as int), b);
    }
}

/// The motion delta an event contributes.
pub open spec fn ev_dx(e: EventV) -> int {
    match e.kind {
        EventKindV::MouseMove { dx, dy } => dx,
        _ => 0,
    }
}

pub open spec fn ev_dy(e: EventV) -> int {
    match e.kind {
        EventKindV::MouseMove { dx, dy } => dy,
        _ => 0,
    }
}

/// The wheel delta an event contributes.
pub open spec fn ev_wheel(e: EventV) -> int {
    match e.kind {
        EventKindV::MouseWheel { delta } => delta,
        _ => 0,
    }
}

/// The algebraic sum of horizontal motion in a window.
pub open spec fn sum_dx(evs: Seq<EventV>) -> int
    decreases evs.len(),
{
    if evs.len() == 0 {
        0
    } else {
        ev_dx(evs[0]) + sum_dx(evs.subrange(1, evs.len() as int))
    }
}

/// The algebraic sum of vertical motion in a window.
pub open spec fn sum_dy(evs: Seq<EventV>) -> int
    decreases evs.len(),
{
    if evs.len() == 0 {
        0
    } else {
        ev_dy(evs[0]) + sum_dy(evs.subrange(1, evs.len() as int))
    }
}

/// The algebraic sum of wheel rotation in a window.
pub open spec fn sum_wheel(evs: Seq<EventV>) -> int
    decreases evs.len(),
{
    if evs.len() == 0 {
        0
    } else {
        ev_wheel(evs[0]) + sum_wheel(evs.subrange(1, evs.len() as int))
    }
}

/// The fold accumulates exactly the algebraic sums of motion and wheel.
pub proof fn lemma_agg_fold_sums(acc: AggAccV, evs: Seq<EventV>)
    ensures
        agg_fold(acc, evs).dx == acc.dx + sum_dx(evs),
        agg_fold(acc, evs).dy == acc.dy + sum_dy(evs),
        agg_fold(acc, evs).wheel == acc.wheel + sum_wheel(evs),
    decreases evs.len(),
{
    if evs.len() > 0 {
        lemma_agg_fold_sums(agg_apply(acc, evs[0]), evs.subrange(1, evs.len() as int));
    }
}

/// The accumulator the whole window produces.
pub open spec fn spec_agg_acc(evs: Seq<EventV>, held0: Seq<(Seq<char>, u64)>) -> AggAccV {
    agg_fold(agg_init(held0), evs)
}

/// The held-key state the aggregator carries out of the window.
pub open spec fn spec_agg_held_after(evs: Seq<EventV>, held0: Seq<(Seq<char>, u64)>) -> Seq<
    (Seq<char>, u64),
> {
    spec_agg_acc(evs, held0).held
}

/// The snapshot the window produces: the fold's accumulator assembled with
/// the step header, the sorted held-key names, and the cursor reading.
pub open spec fn spec_agg_snapshot(
    evs: Seq<EventV>,
    window_start: u64,
    step_index: u64,
    is_foreground: bool,
    cursor: CursorProvider,
    held0: Seq<(Seq<char>, u64)>,
) -> SnapshotV {
    let acc = spec_agg_acc(evs, held0);
    SnapshotV {
        step_index,
        qpc_ts: window_start,
        is_foreground,
        held_keys: held_keys_of(acc.held),
        key_presses: acc.presses,
        mouse_dx_total: acc.dx,
        mouse_dy_total: acc.dy,
        mouse_wheel_total: acc.wheel,
        mouse_clicks: acc.clicks,
        cursor,
    }
}

/// The event presses key `k` down (a key event or a mouse button against its
/// virtual key).
pub open spec fn is_down_for(e: EventV, k: Seq<char>) -> bool {
    match e.kind {
        EventKindV::KeyDown { key } => key == k,
        EventKindV::MouseButton { button, is_down } => is_down && spec_mouse_button_name(button)
            == k,
        _ => false,
    }
}

/// The event releases key `k`.
pub open spec fn is_up_for(e: EventV, k: Seq<char>) -> bool {
    match e.kind {
        EventKindV::KeyUp { key } => key == k,
        EventKindV::MouseButton { button, is_down } => !is_down && spec_mouse_button_name(button)
            == k,
        _ => false,
    }
}

/// One step of the fold keeps the held list sorted.
pub proof fn lemma_agg_apply_sorted(acc: AggAccV, ev: EventV)
    requires
        held_sorted(acc.held),
    ensures
        held_sorted(agg_apply(acc, ev).held),
{
    match ev.kind {
        EventKindV::KeyDown { key } => {
            if !held_has(acc.held, key) {
                lemma_held_insert_sorted(acc.held, key, ev.qpc_ts);
            }
        },
        EventKindV::KeyUp { key } => {
            if held_has(acc.held, key) {
                lemma_held_remove_sorted(acc.held, key);
            }
        },
        EventKindV::MouseButton { button, is_down } => {
            let name = spec_mouse_button_name(button);
            if is_down {
                if !held_has(acc.held, name) {
                    lemma_held_insert_sorted(acc.held, name, ev.qpc_ts);
                }
            } else {
                if held_has(acc.held, name) {
                    lemma_held_remove_sorted(acc.held, name);
                }
            }
        },
        _ => {},
    }
}

/// The whole fold keeps the held list sorted.
pub proof fn lemma_agg_fold_sorted(acc: AggAccV, evs: Seq<EventV>)
    requires
        held_sorted(acc.held),
    ensures
        held_sorted(agg_fold(acc, evs).held),
    decreases evs.len(),
{
    if evs.len() > 0 {
        lemma_agg_apply_sorted(acc, evs[0]);
        lemma_agg_fold_sorted(agg_apply(acc, evs[0]), evs.subrange(1, evs.len() as int));
    }
}

/// The aggregator is a function of its inputs: identical events, window
/// header, cursor reading, and incoming state give an identical snapshot and
/// an identical post-state.
pub proof fn lemma_aggregate_deterministic(
    evs1: Seq<EventV>,
    evs2: Seq<EventV>,
    window_start: u64,
    step_index: u64,
    is_foreground: bool,
    cursor: CursorProvider,
    held1: Seq<(Seq<char>, u64)>,
    held2: Seq<(Seq<char>, u64)>,
)
    requires
        evs1 == evs2,
        held1 == held2,
    ensures
        spec_agg_snapshot(evs1, window_start, step_index, is_foreground, cursor, held1)
            == spec_agg_snapshot(evs2, window_start, step_index, is_foreground, cursor, held2),
        spec_agg_held_after(evs1, held1) == spec_agg_held_after(evs2, held2),
{
}

/// A key is in the held list exactly when its name stands in the snapshot's
/// held-key names.
pub proof fn lemma_held_keys_contain(s: Seq<(Seq<char>, u64)>, k: Seq<char>)
    ensures
        held_has(s, k) <==> held_keys_of(s).contains(k),
{
    lemma_held_has_iff(s, k);
    if held_has(s, k) {
        let i = choose|i: int| 0 <= i < s.len() && s[i].0 == k;
        assert(held_keys_of(s)[i] == k);
    }
    if held_keys_of(s).contains(k) {
        let i = choose|i: int| 0 <= i < held_keys_of(s).len() && held_keys_of(s)[i] == k;
        assert(s[i].0 == k);
    }
}

/// A held key with no release in the window is still held when it ends.
pub proof fn lemma_held_key_carries(evs: Seq<EventV>, held0: Seq<(Seq<char>, u64)>, k: Seq<char>)
    requires
        held_sorted(held0),
        held_has(held0, k),
        forall|j: int| 0 <= j < evs.len() ==> !is_up_for(#[trigger] evs[j], k),
    ensures
        held_has(spec_agg_held_after(evs, held0), k),
{
    lemma_fold_keeps_key(agg_init(held0), evs, k);
}

/// Over any accumulator: if `k` is held and no event releases it, the fold
/// keeps it held.
proof fn lemma_fold_keeps_key(acc: AggAccV, evs: Seq<EventV>, k: Seq<char>)
    requires
        held_sorted(acc.held),
        held_has(acc.held, k),
        forall|j: int| 0 <= j < evs.len() ==> !is_up_for(#[trigger] evs[j], k),
    ensures
        held_has(agg_fold(acc, evs).held, k),
    decreases evs.len(),
{
    if evs.len() > 0 {
        let ev = evs[0];
        let next = agg_apply(acc, ev);
        lemma_agg_apply_sorted(acc, ev);
        assert(held_has(next.held, k)) by {
            match ev.kind {
                EventKindV::KeyDown { key } => {
                    if !held_has(acc.held, key) {
                        lemma_held_insert_has(acc.held, key, ev.qpc_ts, k);
                    }
                },
                EventKindV::KeyUp { key } => {
                    if held_has(acc.held, key) {
                        assert(key != k);
                        lemma_held_remove_has(acc.held, key, k);
                    }
                },
                EventKindV::MouseButton { button, is_down } => {
                    let name = spec_mouse_button_name(button);
                    if is_down {
                        if !held_has(acc.held, name) {
                            lemma_held_insert_has(acc.held, name, ev.qpc_ts, k);
                        }
                    } else {
                        if held_has(acc.held, name) {
                            assert(name != k);
                            lemma_held_remove_has(acc.held, name, k);
                        }
                    }
                },
                _ => {},
            }
        }
        let t = evs.subrange(1, evs.len() as int);
        assert forall|j: int| 0 <= j < t.len() implies !is_up_for(#[trigger] t[j], k) by {
            assert(t[j] == evs[j + 1]);
        }
        lemma_fold_keeps_key(next, t, k);
    }
}

/// A key pressed down in the window with no later release in it is held when
/// the window ends, and so stands in the snapshot's held keys.
pub proof fn lemma_held_key_enters(
    evs: Seq<EventV>,
    held0: Seq<(Seq<char>, u64)>,
    i: int,
    k: Seq<char>,
)
    requires
        held_sorted(held0),
        0 <= i < evs.len(),
        is_down_for(evs[i], k),
        forall|j: int| i < j < evs.len() ==> !is_up_for(#[trigger] evs[j], k),
    ensures
        held_has(spec_agg_held_after(evs, held0), k),
        held_keys_of(spec_agg_held_after(evs, held0)).contains(k),
{
    let head = evs.take(i + 1);
    let tail = evs.subrange(i + 1, evs.len() as int);
    assert(evs =~= head + tail);
    lemma_agg_fold_append(agg_init(held0), head, tail);
    let before = agg_fold(agg_init(held0), evs.take(i));
    assert(head =~= evs.take(i) + seq![evs[i]]);
    lemma_agg_fold_snoc(agg_init(held0), evs.take(i), evs[i]);
    lemma_agg_fold_sorted(agg_init(held0), evs.take(i));
    let after_down = agg_apply(before, evs[i]);
    // applying a down for k leaves k held whether it was fresh or a repeat
    assert(held_has(after_down.held, k)) by {
        match evs[i].kind {
            EventKindV::KeyDown { key } => {
                if !held_has(before.held, key) {
                    lemma_held_insert_has(before.held, key, evs[i].qpc_ts, k);
                }
            },
            EventKindV::MouseButton { button, is_down } => {
                let name = spec_mouse_button_name(button);
                if !held_has(before.held, name) {
                    lemma_held_insert_has(before.held, name, evs[i].qpc_ts, k);
                }
            },
            _ => {},
        }
    }
    lemma_agg_apply_sorted(before, evs[i]);
    assert forall|j: int| 0 <= j < tail.len() implies !is_up_for(#[trigger] tail[j], k) by {
        assert(tail[j] == evs[i + 1 + j]);
    }
    lemma_fold_keeps_key(after_down, tail, k);
    lemma_held_keys_contain(spec_agg_held_after(evs, held0), k);
}

/// A release of a key that is not held changes nothing: it completes no
/// press and leaves the held list as it is.
pub proof fn lemma_unmatched_up_discarded(acc: AggAccV, ev: EventV, k: Seq<char>)
    requires
        is_up_for(ev, k),
        !held_has(acc.held, k),
    ensures
        agg_apply(acc, ev) == acc,
{
}

/// A key never pressed down in the window and not held on entry appears in
/// no completed press of the window and is not held when it ends.
pub proof fn lemma_no_phantom_press(evs: Seq<EventV>, held0: Seq<(Seq<char>, u64)>, k: Seq<char>)
    requires
        held_sorted(held0),
        !held_has(held0, k),
        forall|j: int| 0 <= j < evs.len() ==> !is_down_for(#[trigger] evs[j], k),
    ensures
        !held_has(spec_agg_held_after(evs, held0), k),
        forall|m: int|
            0 <= m < spec_agg_acc(evs, held0).presses.len() ==> #[trigger] spec_agg_acc(
                evs,
                held0,
            ).presses[m].key != k,
{
    lemma_fold_no_phantom(agg_init(held0), evs, k);
}

/// Over any accumulator: a key never pressed down stays unheld and gains no
/// press entry.
proof fn lemma_fold_no_phantom(acc: AggAccV, evs: Seq<EventV>, k: Seq<char>)
    requires
        held_sorted(acc.held),
        !held_has(acc.held, k),
        forall|m: int| 0 <= m < acc.presses.len() ==> #[trigger] acc.presses[m].key != k,
        forall|j: int| 0 <= j < evs.len() ==> !is_down_for(#[trigger] evs[j], k),
    ensures
        !held_has(agg_fold(acc, evs).held, k),
        forall|m: int|
            0 <= m < agg_fold(acc, evs).presses.len() ==> #[trigger] agg_fold(
                acc,
                evs,
            ).presses[m].key != k,
    decreases evs.len(),
{
    if evs.len() > 0 {
        let ev = evs[0];
        let next = agg_apply(acc, ev);
        lemma_agg_apply_sorted(acc, ev);
        assert(!held_has(next.held, k) && forall|m: int|
            0 <= m < next.presses.len() ==> #[trigger] next.presses[m].key != k) by {
            match ev.kind {
                EventKindV::KeyDown { key } => {
                    assert(key != k);
                    if !held_has(acc.held, key) {
                        lemma_held_insert_has(acc.held, key, ev.qpc_ts, k);
                    }
                },
                EventKindV::KeyUp { key } => {
                    if held_has(acc.held, key) {
                        assert(key != k);
                        lemma_held_remove_has(acc.held, key, k);
                    }
                },
                EventKindV::MouseButton { button, is_down } => {
                    let name = spec_mouse_button_name(button);
                    if is_down {
                        assert(name != k);
                        if !held_has(acc.held, name) {
                            lemma_held_insert_has(acc.held, name, ev.qpc_ts, k);
                        }
                    } else {
                        if held_has(acc.held, name) {
                            assert(name != k);
                            lemma_held_remove_has(acc.held, name, k);
                        }
                    }
                },
                _ => {},
            }
        }
        let t = evs.subrange(1, evs.len() as int);
        assert forall|j: int| 0 <= j < t.len() implies !is_down_for(#[trigger] t[j], k) by {
            assert(t[j] == evs[j + 1]);
        }
        lemma_fold_no_phantom(next, t, k);
    }
}

/// Folds one window's events into its snapshot and advances the carried
/// state. Events must already be filtered to the window and ordered; the
/// window bounds only stamp the snapshot.
///
/// The bound on the event count keeps the 64-bit accumulators exact.
pub fn aggregate_window(
    events: &Vec<InputEvent>,
    window_start: u64,
    window_end: u64,
    step_index: u64,
    is_foreground: bool,
    cursor: &CursorProvider,
    state: &mut AggregatorState,
) -> (r: ActionSnapshot)
    requires
        old(state).wf(),
        events@.len() <= 0x1_0000_0000,
    ensures
        r@ == spec_agg_snapshot(
            events_view(events@),
            window_start,
            step_index,
            is_foreground,
            *cursor,
            old(state)@,
        ),
        final(state)@ == spec_agg_held_after(events_view(events@), old(state)@),
        final(state).wf(),
        r@.mouse_dx_total == sum_dx(events_view(events@)),
        r@.mouse_dy_total == sum_dy(events_view(events@)),
        r@.mouse_wheel_total == sum_wheel(events_view(events@)),
{
    let ghost held0 = state@;
    let ghost evs = events_view(events@);
    let n = events.len();
    let mut i: usize = 0;
    let mut presses: Vec<KeyPress> = Vec::new();
    let mut dx: i64 = 0;
    let mut dy: i64 = 0;
    let mut wheel: i64 = 0;
    let mut clicks = MouseClicks::zeroed();
    while i < n
        invariant
            n == events@.len(),
            n <= 0x1_0000_0000,
            i <= n,
            evs == events_view(events@),
            evs.len() == n,
            state.wf(),
            state@ == agg_fold(agg_init(held0), evs.take(i as int)).held,
            presses_view(presses@) == agg_fold(agg_init(held0), evs.take(i as int)).presses,
            dx as int == agg_fold(agg_init(held0), evs.take(i as int)).dx,
            dy as int == agg_fold(agg_init(held0), evs.take(i as int)).dy,
            wheel as int == agg_fold(agg_init(held0), evs.take(i as int)).wheel,
            clicks@ == agg_fold(agg_init(held0), evs.take(i as int)).clicks,
            -0x80000000 * (i as int) <= dx as int <= 0x7fffffff * (i as int),
            -0x80000000 * (i as int) <= dy as int <= 0x7fffffff * (i as int),
            -0x80000000 * (i as int) <= wheel as int <= 0x7fffffff * (i as int),
            clicks.left as int <= i as int,
            clicks.right as int <= i as int,
            clicks.middle as int <= i as int,
            clicks.x1 as int <= i as int,
            clicks.x2 as int <= i as int,
        decreases n - i,
    {
        let ghost acc = agg_fold(agg_init(held0), evs.take(i as int));
        let ghost ev = evs[i as int];
        proof {
            assert(evs.take(i as int + 1) =~= evs.take(i as int) + seq![ev]);
            lemma_agg_fold_snoc(agg_init(held0), evs.take(i as int), ev);
            assert(events@[i as int]@ == ev);
        }
        let e = &events[i];
        let ts = e.qpc_ts;
        match &e.kind {
            InputEventKind::KeyDown { key } => {
                match state.find(key.as_str()) {
                    Some(_) => {},
                    None => {
                        state.insert_held(key.as_str(), ts);
                    },
                }
            },
            InputEventKind::KeyUp { key } => {
                match state.find(key.as_str()) {
                    Some(idx) => {
                        let down_ts = state.tick_at(idx);
                        state.remove_held(key.as_str(), idx);
                        presses.push(KeyPress { key: key.clone(), down_ts, up_ts: ts });
                        proof {
                            assert(presses_view(presses@) =~= agg_apply(acc, ev).presses);
                        }
                    },
                    None => {},
                }
            },
            InputEventKind::MouseButton { button, is_down } => {
                let name = mouse_button_name(*button);
                if *is_down {
                    match state.find(name) {
                        Some(_) => {},
                        None => {
                            state.insert_held(name, ts);
                            match button {
                                MouseButton::Left => {
                                    clicks.left = clicks.left + 1;
                                },
                                MouseButton::Right => {
                                    clicks.right = clicks.right + 1;
                                },
                                MouseButton::Middle => {
                                    clicks.middle = clicks.middle + 1;
                                },
                                MouseButton::X1 => {
                                    clicks.x1 = clicks.x1 + 1;
                                },
                                MouseButton::X2 => {
                                    clicks.x2 = clicks.x2 + 1;
                                },
                            }
                        },
                    }
                } else {
                    match state.find(name) {
                        Some(idx) => {
                            let down_ts = state.tick_at(idx);
                            state.remove_held(name, idx);
                            presses.push(KeyPress { key: name.to_owned(), down_ts, up_ts: ts });
                            proof {
                                assert(presses_view(presses@) =~= agg_apply(acc, ev).presses);
                            }
                        },
                        None => {},
                    }
                }
            },
            InputEventKind::MouseMove { dx: mdx, dy: mdy } => {
                dx = dx + (*mdx as i64);
                dy = dy + (*mdy as i64);
            },
            InputEventKind::MouseWheel { delta } => {
                wheel = wheel + (*delta as i64);
            },
        }
        i = i + 1;
    }
    proof {
        assert(evs.take(n as int) =~= evs);
    }
    let held_keys = state.held_key_names();
    let snapshot = ActionSnapshot {
        step_index,
        qpc_ts: window_start,
        is_foreground,
        held_keys,
        key_presses: presses,
        mouse_dx_total: dx,
        mouse_dy_total: dy,
        mouse_wheel_total: wheel,
        mouse_clicks: clicks,
        cursor: *cursor,
    };
    proof {
        lemma_agg_fold_sums(agg_init(held0), evs);
    }
    snapshot
}

} // verus!
