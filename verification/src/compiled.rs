//! The canonical compiled-action line: a whitespace-stable textual rendering
//! of one step's snapshot, delimited by `<|action_start|>` and
//! `<|action_end|>`.
//!
//! The body is a space-separated list of parts in a fixed order: held keys
//! (sorted), completed presses in press-start order, clicks in the fixed
//! button order, then motion, wheel and cursor, each absent when empty. An
//! empty snapshot renders as the two delimiters alone.

use vstd::prelude::*;
use crate::events::{InputEvent, events_view};
use crate::held::AggregatorState;
use crate::snapshot::{KeyPress, KeyPressV, MouseClicks, ClicksV, CursorProvider, ActionSnapshot, SnapshotV, AggregatedWindow};
use crate::strutil::{dec_digits, int_dec, milli_dec3, u64_to_dec, i64_to_dec, milli_to_dec3};
use crate::strutil::{names_view, spec_join, join_parts};
use crate::aggregate::{spec_agg_snapshot, spec_agg_held_after, sum_dx, sum_dy, sum_wheel, aggregate_window};

verus! {

/// The held-keys part: the sorted names joined by `+`.
pub open spec fn held_part(keys: Seq<Seq<char>>) -> Seq<char> {
    "held="@ + spec_join(keys, "+"@)
}

/// One completed press: key, press-start tick, release tick.
pub open spec fn press_token(p: KeyPressV) -> Seq<char> {
    "press="@ + p.key + "@"@ + dec_digits(p.down_ts as nat) + "-"@ + dec_digits(p.up_ts as nat)
}

/// One click counter.
pub open spec fn click_token(name: Seq<char>, count: int) -> Seq<char> {
    "click="@ + name + "*"@ + int_dec(count)
}

/// The click parts, one per button with clicks, in the fixed button order.
pub open spec fn click_tokens(c: ClicksV) -> Seq<Seq<char>> {
    (if c.left > 0 {
        seq![click_token("MouseLeft"@, c.left)]
    } else {
        Seq::empty()
    }) + (if c.right > 0 {
        seq![click_token("MouseRight"@, c.right)]
    } else {
        Seq::empty()
    }) + (if c.middle > 0 {
        seq![click_token("MouseMiddle"@, c.middle)]
    } else {
        Seq::empty()
    }) + (if c.x1 > 0 {
        seq![click_token("MouseX1"@, c.x1)]
    } else {
        Seq::empty()
    }) + (if c.x2 > 0 {
        seq![click_token("MouseX2"@, c.x2)]
    } else {
        Seq::empty()
    })
}

/// The aggregated motion part.
pub open spec fn move_token(dx: int, dy: int) -> Seq<char> {
    "move="@ + int_dec(dx) + ","@ + int_dec(dy)
}

/// The wheel part.
pub open spec fn wheel_token(w: int) -> Seq<char> {
    "wheel="@ + int_dec(w)
}

/// The cursor part: both coordinates with three decimal places.
pub open spec fn cursor_token(c: CursorProvider) -> Seq<char> {
    "cursor="@ + milli_dec3(c.x_milli as nat) + ","@ + milli_dec3(c.y_milli as nat)
}

/// The ordered parts of a snapshot's body, each present only when non-empty;
/// the cursor part is present only while the cursor is visible.
pub open spec fn compiled_parts(s: SnapshotV) -> Seq<Seq<char>> {
    (if s.held_keys.len() > 0 {
        seq![held_part(s.held_keys)]
    } else {
        Seq::empty()
    }) + s.key_presses.map_values(|p: KeyPressV| press_token(p)) + click_tokens(s.mouse_clicks)
        + (if s.mouse_dx_total != 0 || s.mouse_dy_total != 0 {
        seq![move_token(s.mouse_dx_total, s.mouse_dy_total)]
    } else {
        Seq::empty()
    }) + (if s.mouse_wheel_total != 0 {
        seq![wheel_token(s.mouse_wheel_total)]
    } else {
        Seq::empty()
    }) + (if s.cursor.visible {
        seq![cursor_token(s.cursor)]
    } else {
        Seq::empty()
    })
}

/// The whole canonical line.
pub open spec fn spec_compiled(s: SnapshotV) -> Seq<char> {
    "<|action_start|>"@ + spec_join(compiled_parts(s), " "@) + "<|action_end|>"@
}

/// A snapshot with nothing to report.
pub open spec fn snapshot_is_empty(s: SnapshotV) -> bool {
    &&& s.held_keys.len() == 0
    &&& s.key_presses.len() == 0
    &&& s.mouse_dx_total == 0
    &&& s.mouse_dy_total == 0
    &&& s.mouse_wheel_total == 0
    &&& s.mouse_clicks.left == 0
    &&& s.mouse_clicks.right == 0
    &&& s.mouse_clicks.middle == 0
    &&& s.mouse_clicks.x1 == 0
    &&& s.mouse_clicks.x2 == 0
    &&& !s.cursor.visible
}

/// An empty snapshot renders as the two delimiters with an empty body.
pub proof fn lemma_compiled_empty(s: SnapshotV)
    requires
        snapshot_is_empty(s),
    ensures
        spec_compiled(s) == "<|action_start|>"@ + "<|action_end|>"@,
{
    assert(s.key_presses.map_values(|p: KeyPressV| press_token(p)) =~= Seq::<Seq<char>>::empty());
    assert(compiled_parts(s) =~= Seq::<Seq<char>>::empty());
    assert(spec_join(compiled_parts(s), " "@) =~= Seq::<char>::empty());
    assert(spec_compiled(s) =~= "<|action_start|>"@ + "<|action_end|>"@);
}

/// Renders the canonical compiled-action line of a snapshot.
#[verifier::rlimit(50)]
pub fn render_compiled(s: &ActionSnapshot) -> (r: String)
    ensures
        r@ == spec_compiled(s@),
{
    let ghost sv = s@;
    let mut parts: Vec<String> = Vec::new();

    // held keys
    let ghost seg_held = if sv.held_keys.len() > 0 {
        seq![held_part(sv.held_keys)]
    } else {
        Seq::<Seq<char>>::empty()
    };
    if s.held_keys.len() > 0 {
        let mut part = "held=".to_owned();
        let joined = join_parts(&s.held_keys, "+");
        part.append(joined.as_str());
        proof {
            assert(names_view(s.held_keys@) == sv.held_keys);
            assert(part@ == held_part(sv.held_keys));
        }
        parts.push(part);
    }
    proof {
        assert(names_view(parts@) =~= seg_held);
    }

    // completed presses, in press-start order
    let ghost seg_press = sv.key_presses.map_values(|p: KeyPressV| press_token(p));
    let np = s.key_presses.len();
    let mut i: usize = 0;
    while i < np
        invariant
            np == s.key_presses@.len(),
            i <= np,
            sv == s@,
            seg_held == (if sv.held_keys.len() > 0 {
                seq![held_part(sv.held_keys)]
            } else {
                Seq::<Seq<char>>::empty()
            }),
            names_view(parts@) =~= seg_held + sv.key_presses.take(i as int).map_values(
                |p: KeyPressV| press_token(p),
            ),
        decreases np - i,
    {
        let p = &s.key_presses[i];
        let tok = press_part(p);
        let ghost before = names_view(parts@);
        parts.push(tok);
        proof {
            assert(tok@ == press_token(sv.key_presses[i as int]));
            assert(names_view(parts@) =~= before + seq![tok@]);
            let m0 = sv.key_presses.take(i as int).map_values(|q: KeyPressV| press_token(q));
            let m1 = sv.key_presses.take(i as int + 1).map_values(
                |q: KeyPressV| press_token(q),
            );
            assert(m1 =~= m0 + seq![press_token(sv.key_presses[i as int])]);
            assert(names_view(parts@) =~= seg_held + m1);
        }
        i = i + 1;
    }
    proof {
        assert(sv.key_presses.take(np as int) =~= sv.key_presses);
        assert(names_view(parts@) =~= seg_held + seg_press);
    }

    // clicks, fixed button order
    push_click_parts(&mut parts, &s.mouse_clicks);
    proof {
        assert(names_view(parts@) =~= seg_held + seg_press + click_tokens(sv.mouse_clicks));
    }

    // motion, wheel, cursor
    let ghost seg_move = if sv.mouse_dx_total != 0 || sv.mouse_dy_total != 0 {
        seq![move_token(sv.mouse_dx_total, sv.mouse_dy_total)]
    } else {
        Seq::<Seq<char>>::empty()
    };
    if s.mouse_dx_total != 0 || s.mouse_dy_total != 0 {
        let mut tok = "move=".to_owned();
        let dxs = i64_to_dec(s.mouse_dx_total);
        tok.append(dxs.as_str());
        tok.append(",");
        let dys = i64_to_dec(s.mouse_dy_total);
        tok.append(dys.as_str());
        let ghost before = names_view(parts@);
        proof {
            assert(tok@ == move_token(sv.mouse_dx_total, sv.mouse_dy_total));
        }
        parts.push(tok);
        proof {
            assert(names_view(parts@) =~= before + seg_move);
        }
    }
    proof {
        assert(names_view(parts@) =~= seg_held + seg_press + click_tokens(sv.mouse_clicks)
            + seg_move);
    }

    let ghost seg_wheel = if sv.mouse_wheel_total != 0 {
        seq![wheel_token(sv.mouse_wheel_total)]
    } else {
        Seq::<Seq<char>>::empty()
    };
    if s.mouse_wheel_total != 0 {
        let mut tok = "wheel=".to_owned();
        let ws = i64_to_dec(s.mouse_wheel_total);
        tok.append(ws.as_str());
        let ghost before = names_view(parts@);
        proof {
            assert(tok@ == wheel_token(sv.mouse_wheel_total));
        }
        parts.push(tok);
        proof {
            assert(names_view(parts@) =~= before + seg_wheel);
        }
    }
    proof {
        assert(names_view(parts@) =~= seg_held + seg_press + click_tokens(sv.mouse_clicks)
            + seg_move + seg_wheel);
    }

    let ghost seg_cursor = if sv.cursor.visible {
        seq![cursor_token(sv.cursor)]
    } else {
        Seq::<Seq<char>>::empty()
    };
    if s.cursor.visible {
        let mut tok = "cursor=".to_owned();
        let xs = milli_to_dec3(s.cursor.x_milli);
        tok.append(xs.as_str());
        tok.append(",");
        let ys = milli_to_dec3(s.cursor.y_milli);
        tok.append(ys.as_str());
        let ghost before = names_view(parts@);
        proof {
            assert(tok@ == cursor_token(sv.cursor));
        }
        parts.push(tok);
        proof {
            assert(names_view(parts@) =~= before + seg_cursor);
        }
    }
    proof {
        assert(names_view(parts@) =~= seg_held + seg_press + click_tokens(sv.mouse_clicks)
            + seg_move + seg_wheel + seg_cursor);
        assert(names_view(parts@) =~= compiled_parts(sv));
    }

    let mut line = "<|action_start|>".to_owned();
    let body = join_parts(&parts, " ");
    line.append(body.as_str());
    line.append("<|action_end|>");
    proof {
        assert(line@ =~= spec_compiled(sv));
    }
    line
}

/// Renders one completed-press part.
fn press_part(p: &KeyPress) -> (r: String)
    ensures
        r@ == press_token(p@),
{
    let mut tok = "press=".to_owned();
    tok.append(p.key.as_str());
    tok.append("@");
    let down = u64_to_dec(p.down_ts);
    tok.append(down.as_str());
    tok.append("-");
    let up = u64_to_dec(p.up_ts);
    tok.append(up.as_str());
    proof {
        assert(tok@ =~= press_token(p@));
    }
    tok
}

/// Renders one click part.
fn click_part(name: &str, count: u64) -> (r: String)
    ensures
        r@ == click_token(name@, count as int),
{
    let mut tok = "click=".to_owned();
    tok.append(name);
    tok.append("*");
    let cs = u64_to_dec(count);
    tok.append(cs.as_str());
    proof {
        assert(tok@ =~= click_token(name@, count as int));
    }
    tok
}

/// Appends the click parts in the fixed button order.
fn push_click_parts(parts: &mut Vec<String>, clicks: &MouseClicks)
    ensures
        names_view(final(parts)@) =~= names_view(old(parts)@) + click_tokens(clicks@),
{
    let ghost base = names_view(parts@);
    let ghost c = clicks@;
    if clicks.left > 0 {
        let ghost before = names_view(parts@);
        let tok = click_part("MouseLeft", clicks.left);
        parts.push(tok);
        proof {
            assert(names_view(parts@) =~= before + seq![click_token("MouseLeft"@, c.left)]);
        }
    }
    proof {
        assert(names_view(parts@) =~= base + (if c.left > 0 {
            seq![click_token("MouseLeft"@, c.left)]
        } else {
            Seq::<Seq<char>>::empty()
        }));
    }
    if clicks.right > 0 {
        let ghost before = names_view(parts@);
        let tok = click_part("MouseRight", clicks.right);
        parts.push(tok);
        proof {
            assert(names_view(parts@) =~= before + seq![click_token("MouseRight"@, c.right)]);
        }
    }
    if clicks.middle > 0 {
        let ghost before = names_view(parts@);
        let tok = click_part("MouseMiddle", clicks.middle);
        parts.push(tok);
        proof {
            assert(names_view(parts@) =~= before + seq![click_token("MouseMiddle"@, c.middle)]);
        }
    }
    if clicks.x1 > 0 {
        let ghost before = names_view(parts@);
        let tok = click_part("MouseX1", clicks.x1);
        parts.push(tok);
        proof {
            assert(names_view(parts@) =~= before + seq![click_token("MouseX1"@, c.x1)]);
        }
    }
    if clicks.x2 > 0 {
        let ghost before = names_view(parts@);
        let tok = click_part("MouseX2", clicks.x2);
        parts.push(tok);
        proof {
            assert(names_view(parts@) =~= before + seq![click_token("MouseX2"@, c.x2)]);
        }
    }
    proof {
        assert(names_view(parts@) =~= base + click_tokens(c));
    }
}

/// Folds one window's events into the snapshot and its canonical compiled
/// line, advancing the carried state.
pub fn aggregate_window_with_compiled(
    events: &Vec<InputEvent>,
    window_start: u64,
    window_end: u64,
    step_index: u64,
    is_foreground: bool,
    cursor: &CursorProvider,
    state: &mut AggregatorState,
) -> (r: AggregatedWindow)
    requires
        old(state).wf(),
        events@.len() <= 0x1_0000_0000,
    ensures
        r.snapshot@ == spec_agg_snapshot(
            events_view(events@),
            window_start,
            step_index,
            is_foreground,
            *cursor,
            old(state)@,
        ),
        r.compiled_action@ == spec_compiled(r.snapshot@),
        final(state)@ == spec_agg_held_after(events_view(events@), old(state)@),
        final(state).wf(),
        r.snapshot@.mouse_dx_total == sum_dx(events_view(events@)),
        r.snapshot@.mouse_dy_total == sum_dy(events_view(events@)),
        r.snapshot@.mouse_wheel_total == sum_wheel(events_view(events@)),
{
    let snapshot = aggregate_window(
        events,
        window_start,
        window_end,
        step_index,
        is_foreground,
        cursor,
        state,
    );
    let compiled_action = render_compiled(&snapshot);
    AggregatedWindow { snapshot, compiled_action }
}

} // verus!
