//! Verified text utilities: code-point order on names, substring search, and
//! decimal rendering. Every canonical line the library emits is built from
//! these.

use vstd::prelude::*;

verus! {

/// Strict lexicographic order on character sequences by code point. This is
/// the one order used for held-key names.
pub open spec fn lex_lt(a: Seq<char>, b: Seq<char>) -> bool
    decreases a.len(),
{
    if b.len() == 0 {
        false
    } else if a.len() == 0 {
        true
    } else if a[0] != b[0] {
        (a[0] as u32) < (b[0] as u32)
    } else {
        lex_lt(a.subrange(1, a.len() as int), b.subrange(1, b.len() as int))
    }
}

/// A character is determined by its code point.
proof fn lemma_char_code_injective(c1: char, c2: char)
    requires
        c1 as u32 == c2 as u32,
    ensures
        c1 == c2,
{
}

/// No sequence is below itself.
pub proof fn lemma_lex_lt_irrefl(a: Seq<char>)
    ensures
        !lex_lt(a, a),
    decreases a.len(),
{
    if a.len() > 0 {
        lemma_lex_lt_irrefl(a.subrange(1, a.len() as int));
    }
}

/// Two sequences neither of which is below the other are equal.
pub proof fn lemma_lex_lt_connected(a: Seq<char>, b: Seq<char>)
    requires
        !lex_lt(a, b),
        !lex_lt(b, a),
    ensures
        a == b,
    decreases a.len(),
{
    if b.len() == 0 {
        if a.len() == 0 {
            assert(a =~= b);
        }
        // a.len() > 0 contradicts !lex_lt(b, a)
    } else {
        // !lex_lt(a, b) with b nonempty forces a nonempty
        assert(a.len() > 0);
        // neither head is below the other, so the heads agree
        if a[0] != b[0] {
            assert(lex_lt(a, b) == ((a[0] as u32) < (b[0] as u32)));
            assert(lex_lt(b, a) == ((b[0] as u32) < (a[0] as u32)));
            lemma_char_code_injective(a[0], b[0]);
        }
        assert(a[0] == b[0]);
        let at = a.subrange(1, a.len() as int);
        let bt = b.subrange(1, b.len() as int);
        lemma_lex_lt_connected(at, bt);
        assert(a =~= b) by {
            assert(at == bt);
            assert(a.len() == at.len() + 1);
            assert(b.len() == bt.len() + 1);
            assert forall|i: int| 0 <= i < a.len() implies a[i] == b[i] by {
                if i > 0 {
                    assert(a[i] == at[i - 1]);
                    assert(b[i] == bt[i - 1]);
                }
            }
        }
    }
}

/// The order is transitive.
pub proof fn lemma_lex_lt_trans(a: Seq<char>, b: Seq<char>, c: Seq<char>)
    requires
        lex_lt(a, b),
        lex_lt(b, c),
    ensures
        lex_lt(a, c),
    decreases a.len(),
{
    if a.len() == 0 {
        // c.len() > 0 from lex_lt(b, c), so lex_lt(a, c) holds
    } else {
        // lex_lt(a, b) with a nonempty forces b nonempty; likewise c
        if a[0] == b[0] {
            if b[0] == c[0] {
                lemma_lex_lt_trans(
                    a.subrange(1, a.len() as int),
                    b.subrange(1, b.len() as int),
                    c.subrange(1, c.len() as int),
                );
            }
        }
    }
}

/// Compares the suffixes of two borrowed names from position `i` on.
fn str_lt_from(a: &str, b: &str, i: usize, alen: usize, blen: usize) -> (r: bool)
    requires
        alen == a@.len(),
        blen == b@.len(),
        i <= alen,
        i <= blen,
    ensures
        r == lex_lt(
            a@.subrange(i as int, alen as int),
            b@.subrange(i as int, blen as int),
        ),
    decreases alen - i,
{
    let ghost sa = a@.subrange(i as int, alen as int);
    let ghost sb = b@.subrange(i as int, blen as int);
    if i == blen {
        assert(sb.len() == 0);
        false
    } else if i == alen {
        assert(sa.len() == 0 && sb.len() > 0);
        true
    } else {
        let ca = a.get_char(i);
        let cb = b.get_char(i);
        assert(sa[0] == a@[i as int]);
        assert(sb[0] == b@[i as int]);
        if ca != cb {
            (ca as u32) < (cb as u32)
        } else {
            let r = str_lt_from(a, b, i + 1, alen, blen);
            proof {
                assert(sa.subrange(1, sa.len() as int) =~= a@.subrange(
                    i as int + 1,
                    alen as int,
                ));
                assert(sb.subrange(1, sb.len() as int) =~= b@.subrange(
                    i as int + 1,
                    blen as int,
                ));
            }
            r
        }
    }
}

/// Strict code-point order on two borrowed names.
pub fn str_lt(a: &str, b: &str) -> (r: bool)
    ensures
        r == lex_lt(a@, b@),
{
    let alen = a.unicode_len();
    let blen = b.unicode_len();
    let r = str_lt_from(a, b, 0, alen, blen);
    proof {
        assert(a@.subrange(0, alen as int) =~= a@);
        assert(b@.subrange(0, blen as int) =~= b@);
    }
    r
}

/// Character-for-character equality of two borrowed names.
pub fn str_eq(a: &str, b: &str) -> (r: bool)
    ensures
        r == (a@ == b@),
{
    let alen = a.unicode_len();
    let blen = b.unicode_len();
    if alen != blen {
        return false;
    }
    let mut i: usize = 0;
    while i < alen
        invariant
            alen == a@.len(),
            blen == b@.len(),
            alen == blen,
            i <= alen,
            forall|j: int| 0 <= j < i ==> a@[j] == b@[j],
        decreases alen - i,
    {
        if a.get_char(i) != b.get_char(i) {
            return false;
        }
        i = i + 1;
    }
    proof {
        assert(a@ =~= b@);
    }
    true
}

/// `n` occurs in `h` starting at position `i`.
pub open spec fn matches_at(h: Seq<char>, n: Seq<char>, i: int) -> bool {
    0 <= i && i + n.len() <= h.len() && h.subrange(i, i + n.len() as int) == n
}

/// `n` occurs somewhere in `h`.
pub open spec fn has_substring(h: Seq<char>, n: Seq<char>) -> bool {
    exists|i: int| matches_at(h, n, i)
}

/// Whether `n` occurs in `h` at the given position.
fn match_at(h: &str, n: &str, i: usize, nlen: usize) -> (r: bool)
    requires
        nlen == n@.len(),
        i + nlen <= h@.len(),
        h@.len() <= usize::MAX,
    ensures
        r == matches_at(h@, n@, i as int),
{
    let mut k: usize = 0;
    while k < nlen
        invariant
            nlen == n@.len(),
            i + nlen <= h@.len(),
            h@.len() <= usize::MAX,
            k <= nlen,
            forall|j: int| 0 <= j < k ==> h@[i + j] == n@[j],
        decreases nlen - k,
    {
        if h.get_char(i + k) != n.get_char(k) {
            proof {
                let s = h@.subrange(i as int, i as int + n@.len() as int);
                assert(s[k as int] == h@[i + k]);
            }
            return false;
        }
        k = k + 1;
    }
    proof {
        assert(h@.subrange(i as int, i as int + n@.len() as int) =~= n@);
    }
    true
}

/// Naive verified substring search.
pub fn contains_sub(h: &str, n: &str) -> (r: bool)
    ensures
        r == has_substring(h@, n@),
{
    let hlen = h.unicode_len();
    let nlen = n.unicode_len();
    if nlen > hlen {
        proof {
            assert forall|i: int| !matches_at(h@, n@, i) by {}
        }
        return false;
    }
    if nlen == 0 {
        proof {
            assert(h@.subrange(0, 0) =~= n@);
            assert(matches_at(h@, n@, 0));
        }
        return true;
    }
    let bound = hlen - nlen;
    let mut i: usize = 0;
    while i <= bound
        invariant
            hlen == h@.len(),
            nlen == n@.len(),
            0 < nlen <= hlen,
            bound == hlen - nlen,
            i <= bound + 1,
            forall|j: int| 0 <= j < i ==> !matches_at(h@, n@, j),
        decreases bound + 1 - i,
    {
        if match_at(h, n, i, nlen) {
            proof {
                assert(matches_at(h@, n@, i as int));
            }
            return true;
        }
        i = i + 1;
    }
    proof {
        assert forall|j: int| !matches_at(h@, n@, j) by {
            if 0 <= j < i {
            } else if j >= i {
                assert(j + n@.len() > h@.len());
            }
        }
    }
    false
}

/// The character for one decimal digit.
pub open spec fn digit_char(d: nat) -> char {
    if d == 0 { '0' }
    else if d == 1 { '1' }
    else if d == 2 { '2' }
    else if d == 3 { '3' }
    else if d == 4 { '4' }
    else if d == 5 { '5' }
    else if d == 6 { '6' }
    else if d == 7 { '7' }
    else if d == 8 { '8' }
    else { '9' }
}

/// The canonical decimal digits of a natural number, most significant first,
/// with no leading zero except for zero itself.
pub open spec fn dec_digits(n: nat) -> Seq<char>
    decreases n,
{
    if n < 10 {
        seq![digit_char(n)]
    } else {
        dec_digits(n / 10) + seq![digit_char(n % 10)]
    }
}

/// The canonical decimal rendering of an integer: a minus sign before the
/// digits of the magnitude when negative.
pub open spec fn int_dec(v: int) -> Seq<char> {
    if v < 0 {
        seq!['-'] + dec_digits((-v) as nat)
    } else {
        dec_digits(v as nat)
    }
}

/// One decimal digit as a borrowed string.
fn digit_str(d: u64) -> (r: &'static str)
    requires
        d < 10,
    ensures
        r@ == seq![digit_char(d as nat)],
{
    proof {
        reveal_strlit("0");
        reveal_strlit("1");
        reveal_strlit("2");
        reveal_strlit("3");
        reveal_strlit("4");
        reveal_strlit("5");
        reveal_strlit("6");
        reveal_strlit("7");
        reveal_strlit("8");
        reveal_strlit("9");
    }
    let r: &'static str = if d == 0 { "0" }
    else if d == 1 { "1" }
    else if d == 2 { "2" }
    else if d == 3 { "3" }
    else if d == 4 { "4" }
    else if d == 5 { "5" }
    else if d == 6 { "6" }
    else if d == 7 { "7" }
    else if d == 8 { "8" }
    else { "9" };
    proof {
        assert(r@ =~= seq![digit_char(d as nat)]);
    }
    r
}

/// Renders an unsigned number in decimal.
pub fn u64_to_dec(n: u64) -> (r: String)
    ensures
        r@ == dec_digits(n as nat),
    decreases n,
{
    if n < 10 {
        digit_str(n).to_owned()
    } else {
        let mut s = u64_to_dec(n / 10);
        s.append(digit_str(n % 10));
        s
    }
}

/// Renders a signed number in decimal.
pub fn i64_to_dec(n: i64) -> (r: String)
    ensures
        r@ == int_dec(n as int),
{
    if n >= 0 {
        let r = u64_to_dec(n as u64);
        r
    } else {
        let wide: i128 = n as i128;
        let mag: u64 = (-wide) as u64;
        let mut s = "-".to_owned();
        let digits = u64_to_dec(mag);
        s.append(digits.as_str());
        proof {
            reveal_strlit("-");
            assert(s@ =~= int_dec(n as int));
        }
        s
    }
}

/// The decimal digits of `n` left-padded with zeros to at least three places.
pub open spec fn pad3(n: nat) -> Seq<char> {
    if n < 10 {
        seq!['0', '0'] + dec_digits(n)
    } else if n < 100 {
        seq!['0'] + dec_digits(n)
    } else {
        dec_digits(n)
    }
}

/// Renders an unsigned number zero-padded to at least three decimal places.
pub fn u64_to_pad3(n: u64) -> (r: String)
    ensures
        r@ == pad3(n as nat),
{
    if n < 10 {
        let mut s = "00".to_owned();
        s.append(digit_str(n));
        proof {
            reveal_strlit("00");
            assert(s@ =~= pad3(n as nat));
        }
        s
    } else if n < 100 {
        let mut s = "0".to_owned();
        let digits = u64_to_dec(n);
        s.append(digits.as_str());
        proof {
            reveal_strlit("0");
            assert(s@ =~= pad3(n as nat));
        }
        s
    } else {
        u64_to_dec(n)
    }
}

/// A normalized coordinate held in thousandths, rendered with exactly three
/// decimal places: whole part, a point, then the fraction zero-padded.
pub open spec fn milli_dec3(m: nat) -> Seq<char> {
    dec_digits(m / 1000) + seq!['.'] + pad3(m % 1000)
}

/// Renders a thousandths coordinate with three decimal places.
pub fn milli_to_dec3(m: u16) -> (r: String)
    ensures
        r@ == milli_dec3(m as nat),
{
    let mut s = u64_to_dec(m as u64 / 1000);
    s.append(".");
    let frac = u64_to_pad3(m as u64 % 1000);
    s.append(frac.as_str());
    proof {
        reveal_strlit(".");
        assert(s@ =~= milli_dec3(m as nat));
    }
    s
}

/// The images of a list of owned strings.
pub open spec fn names_view(v: Seq<String>) -> Seq<Seq<char>> {
    v.map_values(|s: String| s@)
}

/// Parts joined by a separator, in order.
pub open spec fn spec_join(list: Seq<Seq<char>>, sep: Seq<char>) -> Seq<char>
    decreases list.len(),
{
    if list.len() == 0 {
        Seq::empty()
    } else if list.len() == 1 {
        list[0]
    } else {
        spec_join(list.drop_last(), sep) + sep + list.last()
    }
}

/// Joins rendered parts with a separator.
pub fn join_parts(parts: &Vec<String>, sep: &str) -> (r: String)
    ensures
        r@ == spec_join(names_view(parts@), sep@),
{
    let ghost view = names_view(parts@);
    let mut res = String::new();
    let n = parts.len();
    let mut i: usize = 0;
    while i < n
        invariant
            n == parts.len(),
            i <= n,
            view == names_view(parts@),
            view.len() == n,
            res@ == spec_join(view.take(i as int), sep@),
        decreases n - i,
    {
        if i > 0 {
            res.append(sep);
        }
        res.append(parts[i].as_str());
        proof {
            if i == 0 {
                assert(view.take(1)[0] == view[0]);
            } else {
                assert(view.take(i as int + 1).drop_last() =~= view.take(i as int));
                assert(view.take(i as int + 1).last() == view[i as int]);
            }
        }
        i = i + 1;
    }
    proof {
        assert(view.take(n as int) =~= view);
    }
    res
}

/// The character for one hexadecimal digit, lower case.
pub open spec fn hex_char(d: nat) -> char {
    if d < 10 {
        digit_char(d)
    } else if d == 10 { 'a' }
    else if d == 11 { 'b' }
    else if d == 12 { 'c' }
    else if d == 13 { 'd' }
    else if d == 14 { 'e' }
    else { 'f' }
}

/// One hexadecimal digit as a borrowed string.
pub fn hex_str(d: u64) -> (r: &'static str)
    requires
        d < 16,
    ensures
        r@ == seq![hex_char(d as nat)],
{
    if d < 10 {
        digit_str(d)
    } else {
        proof {
            reveal_strlit("a");
            reveal_strlit("b");
            reveal_strlit("c");
            reveal_strlit("d");
            reveal_strlit("e");
            reveal_strlit("f");
        }
        let r: &'static str = if d == 10 { "a" }
        else if d == 11 { "b" }
        else if d == 12 { "c" }
        else if d == 13 { "d" }
        else if d == 14 { "e" }
        else { "f" };
        proof {
            assert(r@ =~= seq![hex_char(d as nat)]);
        }
        r
    }
}

/// `s` ends with `suffix`.
pub open spec fn ends_with(s: Seq<char>, suffix: Seq<char>) -> bool {
    suffix.len() <= s.len() && s.subrange(s.len() - suffix.len(), s.len() as int) == suffix
}

/// Whether a borrowed name ends with the given suffix.
pub fn str_ends_with(s: &str, suffix: &str) -> (r: bool)
    ensures
        r == ends_with(s@, suffix@),
{
    let slen = s.unicode_len();
    let nlen = suffix.unicode_len();
    if nlen > slen {
        return false;
    }
    let r = match_at(s, suffix, slen - nlen, nlen);
    proof {
        assert(matches_at(s@, suffix@, slen as int - nlen as int) == ends_with(s@, suffix@));
    }
    r
}

} // verus!
