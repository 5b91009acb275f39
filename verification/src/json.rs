//! The verified JSON framing of a snapshot: one object per line for
//! `actions.jsonl`, rendered character for character against a spec of the
//! emitted text.

use vstd::prelude::*;
use crate::snapshot::{KeyPress, KeyPressV, ActionSnapshot, SnapshotV};
use crate::strutil::{dec_digits, int_dec, milli_dec3, hex_char, names_view, spec_join, u64_to_dec, i64_to_dec, milli_to_dec3, hex_str, join_parts};

verus! {

/// A character that passes into a JSON string unescaped.
pub open spec fn json_safe(c: char) -> bool {
    c != '"' && c != '\\' && (c as u32) >= 0x20
}

/// The escape of one character: quote and backslash get a backslash, other
/// control characters a `\u00XX` form, the rest pass through.
pub open spec fn json_escape_char(c: char) -> Seq<char> {
    if c == '"' {
        seq!['\\', '"']
    } else if c == '\\' {
        seq!['\\', '\\']
    } else if (c as u32) < 0x20 {
        seq!['\\', 'u', '0', '0', hex_char(((c as u32) / 16) as nat), hex_char(
            ((c as u32) % 16) as nat,
        )]
    } else {
        seq![c]
    }
}

/// The escape of a whole string body.
pub open spec fn json_escape(s: Seq<char>) -> Seq<char>
    decreases s.len(),
{
    if s.len() == 0 {
        Seq::empty()
    } else {
        json_escape_char(s[0]) + json_escape(s.subrange(1, s.len() as int))
    }
}

/// A quoted, escaped JSON string.
pub open spec fn json_string(s: Seq<char>) -> Seq<char> {
    seq!['"'] + json_escape(s) + seq!['"']
}

/// The JSON text of a boolean.
pub open spec fn json_bool(b: bool) -> Seq<char> {
    if b {
        "true"@
    } else {
        "false"@
    }
}

/// Escaping distributes over appending one character.
pub proof fn lemma_json_escape_snoc(t: Seq<char>, c: char)
    ensures
        json_escape(t.push(c)) == json_escape(t) + json_escape_char(c),
    decreases t.len(),
{
    let whole = t.push(c);
    if t.len() == 0 {
        assert(whole[0] == c);
        assert(whole.subrange(1, whole.len() as int) =~= Seq::<char>::empty());
        assert(json_escape(Seq::<char>::empty()) == Seq::<char>::empty());
        assert(json_escape(whole) == json_escape_char(c) + json_escape(
            whole.subrange(1, whole.len() as int),
        ));
        assert(json_escape(whole) =~= json_escape(t) + json_escape_char(c));
    } else {
        assert(whole[0] == t[0]);
        assert(whole.subrange(1, whole.len() as int) =~= t.subrange(1, t.len() as int).push(c));
        lemma_json_escape_snoc(t.subrange(1, t.len() as int), c);
        assert(json_escape(whole) =~= json_escape(t) + json_escape_char(c));
    }
}

/// A run of safe characters escapes to itself.
proof fn lemma_json_escape_safe_run(s: Seq<char>, a: int, b: int)
    requires
        0 <= a <= b <= s.len(),
        forall|j: int| a <= j < b ==> json_safe(#[trigger] s[j]),
    ensures
        json_escape(s.take(b)) == json_escape(s.take(a)) + s.subrange(a, b),
    decreases b - a,
{
    if a == b {
        assert(s.subrange(a, b) =~= Seq::<char>::empty());
        assert(json_escape(s.take(b)) =~= json_escape(s.take(a)) + s.subrange(a, b));
    } else {
        lemma_json_escape_safe_run(s, a, b - 1);
        assert(s.take(b) =~= s.take(b - 1).push(s[b - 1]));
        lemma_json_escape_snoc(s.take(b - 1), s[b - 1]);
        assert(json_escape_char(s[b - 1]) == seq![s[b - 1]]);
        assert(json_escape(s.take(b)) =~= json_escape(s.take(a)) + s.subrange(a, b));
    }
}

/// Appends the escaped body of `s`.
#[verifier::rlimit(30)]
pub fn append_json_escaped(out: &mut String, s: &str)
    ensures
        final(out)@ == old(out)@ + json_escape(s@),
{
    let ghost base = old(out)@;
    let n = s.unicode_len();
    let mut start: usize = 0;
    let mut i: usize = 0;
    while i < n
        invariant
            n == s@.len(),
            start <= i <= n,
            out@ == base + json_escape(s@.take(start as int)),
            forall|j: int| start <= j < i ==> json_safe(#[trigger] s@[j]),
        decreases n - i,
    {
        let c = s.get_char(i);
        let code = c as u32;
        if c == '"' || c == '\\' || code < 0x20 {
            if start < i {
                let run = s.substring_char(start, i);
                out.append(run);
                proof {
                    lemma_json_escape_safe_run(s@, start as int, i as int);
                }
            }
            proof {
                assert(out@ == base + json_escape(s@.take(i as int)));
            }
            if c == '"' {
                out.append("\\\"");
                proof {
                    reveal_strlit("\\\"");
                    assert("\\\""@ =~= json_escape_char(c));
                }
            } else if c == '\\' {
                out.append("\\\\");
                proof {
                    reveal_strlit("\\\\");
                    assert("\\\\"@ =~= json_escape_char(c));
                }
            } else {
                out.append("\\u00");
                let hi = hex_str((code / 16) as u64);
                out.append(hi);
                let lo = hex_str((code % 16) as u64);
                out.append(lo);
                proof {
                    reveal_strlit("\\u00");
                    assert("\\u00"@ + hi@ + lo@ =~= json_escape_char(c));
                }
            }
            proof {
                assert(s@.take(i as int + 1) =~= s@.take(i as int).push(s@[i as int]));
                lemma_json_escape_snoc(s@.take(i as int), s@[i as int]);
                assert(out@ == base + json_escape(s@.take(i as int + 1)));
            }
            start = i + 1;
        }
        i = i + 1;
    }
    if start < n {
        let run = s.substring_char(start, n);
        out.append(run);
        proof {
            lemma_json_escape_safe_run(s@, start as int, n as int);
        }
    }
    proof {
        assert(s@.take(n as int) =~= s@);
    }
}

/// Renders a quoted, escaped JSON string.
pub fn json_string_of(s: &str) -> (r: String)
    ensures
        r@ == json_string(s@),
{
    let mut out = "\"".to_owned();
    append_json_escaped(&mut out, s);
    out.append("\"");
    proof {
        reveal_strlit("\"");
        assert(out@ =~= json_string(s@));
    }
    out
}

/// Renders a boolean.
pub fn json_bool_of(b: bool) -> (r: &'static str)
    ensures
        r@ == json_bool(b),
{
    if b {
        "true"
    } else {
        "false"
    }
}

/// The JSON object of one completed press.
pub open spec fn json_of_press(p: KeyPressV) -> Seq<char> {
    "{\"key\":"@ + json_string(p.key) + ",\"down_ts\":"@ + dec_digits(p.down_ts as nat)
        + ",\"up_ts\":"@ + dec_digits(p.up_ts as nat) + "}"@
}

/// Renders one completed press.
fn json_press_of(p: &KeyPress) -> (r: String)
    ensures
        r@ == json_of_press(p@),
{
    let mut out = "{\"key\":".to_owned();
    let key = json_string_of(p.key.as_str());
    out.append(key.as_str());
    out.append(",\"down_ts\":");
    let down = u64_to_dec(p.down_ts);
    out.append(down.as_str());
    out.append(",\"up_ts\":");
    let up = u64_to_dec(p.up_ts);
    out.append(up.as_str());
    out.append("}");
    proof {
        assert(out@ =~= json_of_press(p@));
    }
    out
}

/// The JSON object of one snapshot, as a single line of `actions.jsonl`.
pub open spec fn json_of_snapshot(s: SnapshotV) -> Seq<char> {
    "{\"step_index\":"@ + dec_digits(s.step_index as nat) + ",\"qpc_ts\":"@ + dec_digits(
        s.qpc_ts as nat,
    ) + ",\"is_foreground\":"@ + json_bool(s.is_foreground) + ",\"held_keys\":["@ + spec_join(
        s.held_keys.map_values(|k: Seq<char>| json_string(k)),
        ","@,
    ) + "],\"key_presses\":["@ + spec_join(
        s.key_presses.map_values(|p: KeyPressV| json_of_press(p)),
        ","@,
    ) + "],\"mouse_dx_total\":"@ + int_dec(s.mouse_dx_total) + ",\"mouse_dy_total\":"@ + int_dec(
        s.mouse_dy_total,
    ) + ",\"mouse_wheel_total\":"@ + int_dec(s.mouse_wheel_total) + ",\"mouse_clicks\":{\"left\":"@
        + int_dec(s.mouse_clicks.left) + ",\"right\":"@ + int_dec(s.mouse_clicks.right)
        + ",\"middle\":"@ + int_dec(s.mouse_clicks.middle) + ",\"x1\":"@ + int_dec(
        s.mouse_clicks.x1,
    ) + ",\"x2\":"@ + int_dec(s.mouse_clicks.x2) + "},\"cursor\":{\"visible\":"@ + json_bool(
        s.cursor.visible,
    ) + ",\"x_norm\":"@ + milli_dec3(s.cursor.x_milli as nat) + ",\"y_norm\":"@ + milli_dec3(
        s.cursor.y_milli as nat,
    ) + "}}"@
}

/// Renders the held-key array body.
fn json_held_keys_body(held: &Vec<String>) -> (r: String)
    ensures
        r@ == spec_join(names_view(held@).map_values(|k: Seq<char>| json_string(k)), ","@),
{
    let ghost mapped = names_view(held@).map_values(|k: Seq<char>| json_string(k));
    let mut elems: Vec<String> = Vec::new();
    let n = held.len();
    let mut i: usize = 0;
    while i < n
        invariant
            n == held@.len(),
            i <= n,
            mapped == names_view(held@).map_values(|k: Seq<char>| json_string(k)),
            mapped.len() == n,
            names_view(elems@) =~= mapped.take(i as int),
        decreases n - i,
    {
        let e = json_string_of(held[i].as_str());
        let ghost before = names_view(elems@);
        proof {
            assert(e@ == json_string(names_view(held@)[i as int]));
            assert(e@ == mapped[i as int]);
        }
        elems.push(e);
        proof {
            assert(names_view(elems@) =~= before.push(e@));
            assert(mapped.take(i as int + 1) =~= mapped.take(i as int).push(mapped[i as int]));
            assert(names_view(elems@) =~= mapped.take(i as int + 1));
        }
        i = i + 1;
    }
    proof {
        assert(mapped.take(n as int) =~= mapped);
    }
    join_parts(&elems, ",")
}

/// Renders the key-press array body.
fn json_presses_body(presses: &Vec<KeyPress>) -> (r: String)
    ensures
        r@ == spec_join(
            presses@.map_values(|p: KeyPress| p@).map_values(|p: KeyPressV| json_of_press(p)),
            ","@,
        ),
{
    let ghost mapped = presses@.map_values(|p: KeyPress| p@).map_values(
        |p: KeyPressV| json_of_press(p),
    );
    let mut elems: Vec<String> = Vec::new();
    let n = presses.len();
    let mut i: usize = 0;
    while i < n
        invariant
            n == presses@.len(),
            i <= n,
            mapped == presses@.map_values(|p: KeyPress| p@).map_values(
                |p: KeyPressV| json_of_press(p),
            ),
            mapped.len() == n,
            names_view(elems@) =~= mapped.take(i as int),
        decreases n - i,
    {
        let e = json_press_of(&presses[i]);
        let ghost before = names_view(elems@);
        proof {
            assert(presses@.map_values(|p: KeyPress| p@)[i as int] == presses@[i as int]@);
            assert(e@ == mapped[i as int]);
        }
        elems.push(e);
        proof {
            assert(names_view(elems@) =~= before.push(e@));
            assert(mapped.take(i as int + 1) =~= mapped.take(i as int).push(mapped[i as int]));
            assert(names_view(elems@) =~= mapped.take(i as int + 1));
        }
        i = i + 1;
    }
    proof {
        assert(mapped.take(n as int) =~= mapped);
    }
    join_parts(&elems, ",")
}

/// Renders one snapshot as its `actions.jsonl` line (without the newline).
#[verifier::rlimit(50)]
pub fn render_snapshot_json(s: &ActionSnapshot) -> (r: String)
    ensures
        r@ == json_of_snapshot(s@),
{
    let ghost sv = s@;
    let mut out = "{\"step_index\":".to_owned();
    let t1 = u64_to_dec(s.step_index);
    out.append(t1.as_str());
    out.append(",\"qpc_ts\":");
    let t2 = u64_to_dec(s.qpc_ts);
    out.append(t2.as_str());
    out.append(",\"is_foreground\":");
    out.append(json_bool_of(s.is_foreground));
    out.append(",\"held_keys\":[");
    let held_body = json_held_keys_body(&s.held_keys);
    out.append(held_body.as_str());
    proof {
        assert(names_view(s.held_keys@) == sv.held_keys);
    }
    out.append("],\"key_presses\":[");
    let press_body = json_presses_body(&s.key_presses);
    out.append(press_body.as_str());
    proof {
        assert(s.key_presses@.map_values(|p: KeyPress| p@) == sv.key_presses);
    }
    out.append("],\"mouse_dx_total\":");
    let t3 = i64_to_dec(s.mouse_dx_total);
    out.append(t3.as_str());
    out.append(",\"mouse_dy_total\":");
    let t4 = i64_to_dec(s.mouse_dy_total);
    out.append(t4.as_str());
    out.append(",\"mouse_wheel_total\":");
    let t5 = i64_to_dec(s.mouse_wheel_total);
    out.append(t5.as_str());
    out.append(",\"mouse_clicks\":{\"left\":");
    let c1 = u64_to_dec(s.mouse_clicks.left);
    out.append(c1.as_str());
    out.append(",\"right\":");
    let c2 = u64_to_dec(s.mouse_clicks.right);
    out.append(c2.as_str());
    out.append(",\"middle\":");
    let c3 = u64_to_dec(s.mouse_clicks.middle);
    out.append(c3.as_str());
    out.append(",\"x1\":");
    let c4 = u64_to_dec(s.mouse_clicks.x1);
    out.append(c4.as_str());
    out.append(",\"x2\":");
    let c5 = u64_to_dec(s.mouse_clicks.x2);
    out.append(c5.as_str());
    out.append("},\"cursor\":{\"visible\":");
    out.append(json_bool_of(s.cursor.visible));
    out.append(",\"x_norm\":");
    let x = milli_to_dec3(s.cursor.x_milli);
    out.append(x.as_str());
    out.append(",\"y_norm\":");
    let y = milli_to_dec3(s.cursor.y_milli);
    out.append(y.as_str());
    out.append("}}");
    proof {
        assert(out@ =~= json_of_snapshot(sv));
    }
    out
}

} // verus!
