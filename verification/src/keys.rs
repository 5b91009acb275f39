//! The fixed table from OS virtual-key codes to symbolic key names.

use vstd::prelude::*;

verus! {

/// The image of an optional borrowed name.
pub open spec fn name_view(r: Option<&str>) -> Option<Seq<char>> {
    match r {
        Some(s) => Some(s@),
        None => None,
    }
}

/// The symbolic name of a virtual-key code, or `None` for a code outside the
/// fixed table. Codes not in the table are dropped by every collector.
pub open spec fn spec_keyboard_key_name(vk: u16) -> Option<Seq<char>> {
    if vk == 0x41 { Some("A"@) }
    else if vk == 0x42 { Some("B"@) }
    else if vk == 0x43 { Some("C"@) }
    else if vk == 0x44 { Some("D"@) }
    else if vk == 0x45 { Some("E"@) }
    else if vk == 0x46 { Some("F"@) }
    else if vk == 0x47 { Some("G"@) }
    else if vk == 0x48 { Some("H"@) }
    else if vk == 0x49 { Some("I"@) }
    else if vk == 0x4A { Some("J"@) }
    else if vk == 0x4B { Some("K"@) }
    else if vk == 0x4C { Some("L"@) }
    else if vk == 0x4D { Some("M"@) }
    else if vk == 0x4E { Some("N"@) }
    else if vk == 0x4F { Some("O"@) }
    else if vk == 0x50 { Some("P"@) }
    else if vk == 0x51 { Some("Q"@) }
    else if vk == 0x52 { Some("R"@) }
    else if vk == 0x53 { Some("S"@) }
    else if vk == 0x54 { Some("T"@) }
    else if vk == 0x55 { Some("U"@) }
    else if vk == 0x56 { Some("V"@) }
    else if vk == 0x57 { Some("W"@) }
    else if vk == 0x58 { Some("X"@) }
    else if vk == 0x59 { Some("Y"@) }
    else if vk == 0x5A { Some("Z"@) }
    else if vk == 0x31 { Some("one"@) }
    else if vk == 0x32 { Some("two"@) }
    else if vk == 0x33 { Some("three"@) }
    else if vk == 0x34 { Some("four"@) }
    else if vk == 0x35 { Some("five"@) }
    else if vk == 0x36 { Some("six"@) }
    else if vk == 0x37 { Some("seven"@) }
    else if vk == 0x38 { Some("eight"@) }
    else if vk == 0x39 { Some("nine"@) }
    else if vk == 0x70 { Some("One"@) }
    else if vk == 0x71 { Some("Two"@) }
    else if vk == 0x72 { Some("Three"@) }
    else if vk == 0x73 { Some("Four"@) }
    else if vk == 0x74 { Some("Five"@) }
    else if vk == 0x75 { Some("Six"@) }
    else if vk == 0x76 { Some("Seven"@) }
    else if vk == 0x77 { Some("Eight"@) }
    else if vk == 0x78 { Some("Nine"@) }
    else if vk == 0x79 { Some("Ten"@) }
    else if vk == 0x7A { Some("Eleven"@) }
    else if vk == 0x7B { Some("Twelve"@) }
    else if vk == 0x10 { Some("Shift"@) }
    else if vk == 0x11 { Some("Ctrl"@) }
    else if vk == 0x12 { Some("Alt"@) }
    else if vk == 0x20 { Some("Space"@) }
    else if vk == 0x1B { Some("Esc"@) }
    else if vk == 0x09 { Some("Tab"@) }
    else if vk == 0x0D { Some("Enter"@) }
    else if vk == 0x26 { Some("Up"@) }
    else if vk == 0x28 { Some("Down"@) }
    else if vk == 0x25 { Some("Left"@) }
    else if vk == 0x27 { Some("Right"@) }
    else { None }
}

/// Maps a virtual-key code through the fixed table; codes outside it are
/// reported as `None` and dropped by the callers.
pub fn keyboard_key_name(vk: u16) -> (r: Option<&'static str>)
    ensures
        name_view(r) == spec_keyboard_key_name(vk),
{
    match vk {
        0x41 => Some("A"),
        0x42 => Some("B"),
        0x43 => Some("C"),
        0x44 => Some("D"),
        0x45 => Some("E"),
        0x46 => Some("F"),
        0x47 => Some("G"),
        0x48 => Some("H"),
        0x49 => Some("I"),
        0x4A => Some("J"),
        0x4B => Some("K"),
        0x4C => Some("L"),
        0x4D => Some("M"),
        0x4E => Some("N"),
        0x4F => Some("O"),
        0x50 => Some("P"),
        0x51 => Some("Q"),
        0x52 => Some("R"),
        0x53 => Some("S"),
        0x54 => Some("T"),
        0x55 => Some("U"),
        0x56 => Some("V"),
        0x57 => Some("W"),
        0x58 => Some("X"),
        0x59 => Some("Y"),
        0x5A => Some("Z"),
        0x31 => Some("one"),
        0x32 => Some("two"),
        0x33 => Some("three"),
        0x34 => Some("four"),
        0x35 => Some("five"),
        0x36 => Some("six"),
        0x37 => Some("seven"),
        0x38 => Some("eight"),
        0x39 => Some("nine"),
        0x70 => Some("One"),
        0x71 => Some("Two"),
        0x72 => Some("Three"),
        0x73 => Some("Four"),
        0x74 => Some("Five"),
        0x75 => Some("Six"),
        0x76 => Some("Seven"),
        0x77 => Some("Eight"),
        0x78 => Some("Nine"),
        0x79 => Some("Ten"),
        0x7A => Some("Eleven"),
        0x7B => Some("Twelve"),
        0x10 => Some("Shift"),
        0x11 => Some("Ctrl"),
        0x12 => Some("Alt"),
        0x20 => Some("Space"),
        0x1B => Some("Esc"),
        0x09 => Some("Tab"),
        0x0D => Some("Enter"),
        0x26 => Some("Up"),
        0x28 => Some("Down"),
        0x25 => Some("Left"),
        0x27 => Some("Right"),
        _ => None,
    }
}

/// The image of a probed key list.
pub open spec fn key_specs_view(v: Seq<(u16, &'static str)>) -> Seq<(u16, Seq<char>)> {
    v.map_values(|p: (u16, &'static str)| (p.0, p.1@))
}

/// The entry one probed code contributes: its table row, or nothing.
pub open spec fn named_one(vk: u16) -> Seq<(u16, Seq<char>)> {
    match spec_keyboard_key_name(vk) {
        Some(name) => seq![(vk, name)],
        None => Seq::empty(),
    }
}

/// The entries the codes `[lo, hi)` contribute, probed in ascending order.
pub open spec fn named_range_entries(lo: int, hi: int) -> Seq<(u16, Seq<char>)>
    decreases hi - lo,
{
    if hi <= lo {
        Seq::empty()
    } else {
        named_range_entries(lo, hi - 1) + named_one((hi - 1) as u16)
    }
}

/// The extra codes a polling collector probes after the letter, digit,
/// keypad and function-key ranges, in their fixed order.
pub open spec fn extra_poll_codes() -> Seq<u16> {
    seq![
        0x10u16, 0x11u16, 0x12u16, 0x20u16, 0x1Bu16, 0x09u16, 0x0Du16, 0x08u16, 0x2Du16,
        0x2Eu16, 0x24u16, 0x23u16, 0x21u16, 0x22u16, 0x13u16, 0x2Cu16, 0x14u16, 0x90u16,
        0x91u16, 0x26u16, 0x28u16, 0x25u16, 0x27u16, 0x5Bu16, 0x5Cu16, 0x5Du16, 0x6Au16,
        0x6Bu16, 0x6Du16, 0x6Eu16, 0x6Fu16,
    ]
}

/// The entries the first `n` codes of a probe list contribute, in order.
pub open spec fn named_list_entries(codes: Seq<u16>, n: int) -> Seq<(u16, Seq<char>)>
    decreases n,
{
    if n <= 0 {
        Seq::empty()
    } else {
        named_list_entries(codes, n - 1) + named_one(codes[n - 1])
    }
}

/// The whole list a polling collector watches: letters, digits, the keypad
/// range (nothing named there), the function keys, then the extra codes.
pub open spec fn spec_key_spec_list() -> Seq<(u16, Seq<char>)> {
    named_range_entries(0x41, 0x5B) + named_range_entries(0x30, 0x3A) + named_range_entries(
        0x60,
        0x6A,
    ) + named_range_entries(0x70, 0x7C) + named_list_entries(extra_poll_codes(), 31)
}

/// Appends the table row of one probed code, if it has one.
fn push_key_code(out: &mut Vec<(u16, &'static str)>, vk: u16)
    ensures
        key_specs_view(final(out)@) == key_specs_view(old(out)@) + named_one(vk),
{
    let ghost before = key_specs_view(out@);
    if let Some(name) = keyboard_key_name(vk) {
        out.push((vk, name));
    }
    proof {
        assert(key_specs_view(out@) =~= before + named_one(vk));
    }
}

/// Appends the table rows of the codes `[lo, hi)`, probed in order.
fn push_key_range(out: &mut Vec<(u16, &'static str)>, lo: u16, hi: u16)
    requires
        lo <= hi,
    ensures
        key_specs_view(final(out)@) == key_specs_view(old(out)@) + named_range_entries(
            lo as int,
            hi as int,
        ),
{
    let ghost before = key_specs_view(out@);
    let mut vk = lo;
    while vk < hi
        invariant
            lo <= vk <= hi,
            key_specs_view(out@) =~= before + named_range_entries(lo as int, vk as int),
        decreases hi - vk,
    {
        push_key_code(out, vk);
        vk = vk + 1;
    }
}

/// A range whose codes are all named contributes one row per code, in
/// ascending code order.
proof fn lemma_range_all_named(lo: int, hi: int)
    requires
        0 <= lo <= hi <= 0x100,
        forall|v: int| lo <= v < hi ==> (#[trigger] spec_keyboard_key_name(v as u16)) is Some,
    ensures
        named_range_entries(lo, hi).len() == hi - lo,
        forall|m: int|
            0 <= m < hi - lo ==> (#[trigger] named_range_entries(lo, hi)[m]).0 == (lo + m) as u16,
    decreases hi - lo,
{
    if hi > lo {
        lemma_range_all_named(lo, hi - 1);
        assert(spec_keyboard_key_name((hi - 1) as u16) is Some);
        assert(named_one((hi - 1) as u16).len() == 1);
        assert(named_one((hi - 1) as u16)[0].0 == (hi - 1) as u16);
    }
}

/// A range whose codes are all unnamed contributes nothing.
proof fn lemma_range_none_named(lo: int, hi: int)
    requires
        0 <= lo <= hi <= 0x100,
        forall|v: int| lo <= v < hi ==> (#[trigger] spec_keyboard_key_name(v as u16)) is None,
    ensures
        named_range_entries(lo, hi).len() == 0,
    decreases hi - lo,
{
    if hi > lo {
        lemma_range_none_named(lo, hi - 1);
        assert(named_range_entries(lo, hi) =~= Seq::<(u16, Seq<char>)>::empty());
    }
}

/// The extra codes contribute exactly the eleven named rows, in probe order.
proof fn lemma_extra_entries_concrete()
    ensures
        named_list_entries(extra_poll_codes(), 31) =~= seq![
            (0x10u16, "Shift"@),
            (0x11u16, "Ctrl"@),
            (0x12u16, "Alt"@),
            (0x20u16, "Space"@),
            (0x1Bu16, "Esc"@),
            (0x09u16, "Tab"@),
            (0x0Du16, "Enter"@),
            (0x26u16, "Up"@),
            (0x28u16, "Down"@),
            (0x25u16, "Left"@),
            (0x27u16, "Right"@),
        ],
{
    reveal_with_fuel(named_list_entries, 32);
}

/// What the watched-key list satisfies: 58 rows, one per named code, no code
/// twice, every named code present.
pub proof fn lemma_key_spec_list_facts()
    ensures
        spec_key_spec_list().len() == 58,
        forall|i: int, j: int|
            0 <= i < j < spec_key_spec_list().len() ==> (#[trigger] spec_key_spec_list()[i]).0
                != (#[trigger] spec_key_spec_list()[j]).0,
        forall|vk: u16|
            spec_keyboard_key_name(vk) is Some ==> exists|i: int|
                0 <= i < spec_key_spec_list().len() && (#[trigger] spec_key_spec_list()[i]).0
                    == vk,
{
    let letters = named_range_entries(0x41, 0x5B);
    let digits = named_range_entries(0x30, 0x3A);
    let keypad = named_range_entries(0x60, 0x6A);
    let fkeys = named_range_entries(0x70, 0x7C);
    let extras = named_list_entries(extra_poll_codes(), 31);
    let whole = spec_key_spec_list();
    lemma_range_all_named(0x41, 0x5B);
    lemma_range_all_named(0x31, 0x3A);
    assert(digits =~= named_range_entries(0x30, 0x31) + named_range_entries(0x31, 0x3A)) by {
        lemma_range_split(0x30, 0x31, 0x3A);
    }
    lemma_range_none_named(0x30, 0x31);
    assert(named_range_entries(0x30, 0x31) =~= Seq::<(u16, Seq<char>)>::empty());
    assert(digits =~= named_range_entries(0x31, 0x3A));
    lemma_range_none_named(0x60, 0x6A);
    lemma_range_all_named(0x70, 0x7C);
    lemma_extra_entries_concrete();
    assert(letters.len() == 26 && digits.len() == 9 && keypad.len() == 0 && fkeys.len() == 12
        && extras.len() == 11);
    assert(whole.len() == 58);
    // which code each position holds
    assert forall|i: int| 0 <= i < 58 implies spec_code_at(whole, i) by {
        if i < 26 {
            assert(whole[i] == letters[i]);
        } else if i < 35 {
            assert(whole[i] == digits[i - 26]);
        } else if i < 47 {
            assert(whole[i] == fkeys[i - 35]);
        } else {
            assert(whole[i] == extras[i - 47]);
        }
    }
    assert forall|i: int, j: int| 0 <= i < j < 58 implies (#[trigger] whole[i]).0 != (
    #[trigger] whole[j]).0 by {
        assert(spec_code_at(whole, i) && spec_code_at(whole, j));
    }
    assert forall|vk: u16| spec_keyboard_key_name(vk) is Some implies exists|i: int|
        0 <= i < whole.len() && (#[trigger] whole[i]).0 == vk by {
        if 0x41 <= vk < 0x5B {
            let i = vk - 0x41;
            assert(spec_code_at(whole, i as int));
            assert(whole[vk - 0x41].0 == vk);
        } else if 0x31 <= vk < 0x3A {
            let i = 26 + (vk - 0x31);
            assert(spec_code_at(whole, i as int));
            assert(whole[26 + (vk - 0x31)].0 == vk);
        } else if 0x70 <= vk < 0x7C {
            let i = 35 + (vk - 0x70);
            assert(spec_code_at(whole, i as int));
            assert(whole[35 + (vk - 0x70)].0 == vk);
        } else {
            // one of the eleven extra codes
            assert(spec_code_at(whole, 47) && spec_code_at(whole, 48) && spec_code_at(whole, 49)
                && spec_code_at(whole, 50) && spec_code_at(whole, 51) && spec_code_at(whole, 52)
                && spec_code_at(whole, 53) && spec_code_at(whole, 54) && spec_code_at(whole, 55)
                && spec_code_at(whole, 56) && spec_code_at(whole, 57));
        }
    }
}

/// The code standing at one position of the watched-key list.
pub open spec fn spec_code_at(whole: Seq<(u16, Seq<char>)>, i: int) -> bool {
    if 0 <= i < 26 {
        whole[i].0 == (0x41 + i) as u16
    } else if i < 35 {
        whole[i].0 == (0x31 + (i - 26)) as u16
    } else if i < 47 {
        whole[i].0 == (0x70 + (i - 35)) as u16
    } else if i == 47 {
        whole[i].0 == 0x10u16
    } else if i == 48 {
        whole[i].0 == 0x11u16
    } else if i == 49 {
        whole[i].0 == 0x12u16
    } else if i == 50 {
        whole[i].0 == 0x20u16
    } else if i == 51 {
        whole[i].0 == 0x1Bu16
    } else if i == 52 {
        whole[i].0 == 0x09u16
    } else if i == 53 {
        whole[i].0 == 0x0Du16
    } else if i == 54 {
        whole[i].0 == 0x26u16
    } else if i == 55 {
        whole[i].0 == 0x28u16
    } else if i == 56 {
        whole[i].0 == 0x25u16
    } else {
        whole[i].0 == 0x27u16
    }
}

/// A probed range splits at any midpoint.
proof fn lemma_range_split(lo: int, mid: int, hi: int)
    requires
        lo <= mid <= hi,
    ensures
        named_range_entries(lo, hi) == named_range_entries(lo, mid) + named_range_entries(
            mid,
            hi,
        ),
    decreases hi - mid,
{
    if hi == mid {
        assert(named_range_entries(lo, hi) =~= named_range_entries(lo, mid)
            + named_range_entries(mid, hi));
    } else {
        lemma_range_split(lo, mid, hi - 1);
        assert(named_range_entries(lo, hi) =~= named_range_entries(lo, mid)
            + named_range_entries(mid, hi));
    }
}

/// The list of virtual-key codes a polling collector watches: the letters,
/// the digit row, the keypad range, the function keys, then the extra named
/// keys, probed in that fixed order. The result holds exactly one row per
/// named code: 58 in all, no code twice, every named code present.
pub fn build_key_specs() -> (r: Vec<(u16, &'static str)>)
    ensures
        key_specs_view(r@) == spec_key_spec_list(),
        r@.len() == 58,
        forall|i: int, j: int| 0 <= i < j < r@.len() ==> r@[i].0 != r@[j].0,
        forall|vk: u16|
            spec_keyboard_key_name(vk) is Some ==> exists|i: int|
                0 <= i < r@.len() && (#[trigger] r@[i]).0 == vk,
        forall|i: int| 0 <= i < r@.len() ==> spec_keyboard_key_name(r@[i].0) == Some(r@[i].1@),
{
    let mut out: Vec<(u16, &'static str)> = Vec::new();
    push_key_range(&mut out, 0x41, 0x5B);
    push_key_range(&mut out, 0x30, 0x3A);
    push_key_range(&mut out, 0x60, 0x6A);
    push_key_range(&mut out, 0x70, 0x7C);
    let mut extras: Vec<u16> = Vec::new();
    extras.push(0x10);
    extras.push(0x11);
    extras.push(0x12);
    extras.push(0x20);
    extras.push(0x1B);
    extras.push(0x09);
    extras.push(0x0D);
    extras.push(0x08);
    extras.push(0x2D);
    extras.push(0x2E);
    extras.push(0x24);
    extras.push(0x23);
    extras.push(0x21);
    extras.push(0x22);
    extras.push(0x13);
    extras.push(0x2C);
    extras.push(0x14);
    extras.push(0x90);
    extras.push(0x91);
    extras.push(0x26);
    extras.push(0x28);
    extras.push(0x25);
    extras.push(0x27);
    extras.push(0x5B);
    extras.push(0x5C);
    extras.push(0x5D);
    extras.push(0x6A);
    extras.push(0x6B);
    extras.push(0x6D);
    extras.push(0x6E);
    extras.push(0x6F);
    proof {
        assert(extras@ =~= extra_poll_codes());
    }
    let ghost ranges = key_specs_view(out@);
    let n = extras.len();
    let mut i: usize = 0;
    while i < n
        invariant
            n == extras@.len(),
            extras@ == extra_poll_codes(),
            i <= n,
            key_specs_view(out@) =~= ranges + named_list_entries(extra_poll_codes(), i as int),
        decreases n - i,
    {
        push_key_code(&mut out, extras[i]);
        i = i + 1;
    }
    proof {
        assert(key_specs_view(out@) =~= spec_key_spec_list());
        lemma_key_spec_list_facts();
        assert forall|i2: int, j2: int| 0 <= i2 < j2 < out@.len() implies out@[i2].0
            != out@[j2].0 by {
            assert(key_specs_view(out@)[i2].0 == out@[i2].0);
            assert(key_specs_view(out@)[j2].0 == out@[j2].0);
        }
        assert forall|vk: u16| spec_keyboard_key_name(vk) is Some implies exists|i2: int|
            0 <= i2 < out@.len() && (#[trigger] out@[i2]).0 == vk by {
            let w = choose|w: int|
                0 <= w < spec_key_spec_list().len() && spec_key_spec_list()[w].0 == vk;
            assert(out@[w].0 == vk);
        }
        assert forall|i2: int| 0 <= i2 < out@.len() implies spec_keyboard_key_name(out@[i2].0)
            == Some(out@[i2].1@) by {
            assert(key_specs_view(out@)[i2] == (out@[i2].0, out@[i2].1@));
            lemma_list_entries_valid(extra_poll_codes(), 31);
            lemma_range_entries_valid(0x41, 0x5B);
            lemma_range_entries_valid(0x30, 0x3A);
            lemma_range_entries_valid(0x60, 0x6A);
            lemma_range_entries_valid(0x70, 0x7C);
        }
    }
    out
}

/// Every row of a probed range is a table row.
proof fn lemma_range_entries_valid(lo: int, hi: int)
    requires
        lo <= hi,
    ensures
        forall|m: int|
            0 <= m < named_range_entries(lo, hi).len() ==> spec_keyboard_key_name(
                (#[trigger] named_range_entries(lo, hi)[m]).0,
            ) == Some(named_range_entries(lo, hi)[m].1),
    decreases hi - lo,
{
    if hi > lo {
        lemma_range_entries_valid(lo, hi - 1);
    }
}

/// Every row of a probed list is a table row.
proof fn lemma_list_entries_valid(codes: Seq<u16>, n: int)
    ensures
        forall|m: int|
            0 <= m < named_list_entries(codes, n).len() ==> spec_keyboard_key_name(
                (#[trigger] named_list_entries(codes, n)[m]).0,
            ) == Some(named_list_entries(codes, n)[m].1),
    decreases n,
{
    if n > 0 {
        lemma_list_entries_valid(codes, n - 1);
    }
}

} // verus!
