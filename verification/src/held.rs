//! The set of currently-held keys with their press-start ticks, kept as an
//! association list strictly sorted by key name. The sorted order is what
//! makes every snapshot of held keys canonical.

use vstd::prelude::*;
use crate::strutil::{lex_lt, lemma_lex_lt_irrefl, lemma_lex_lt_trans, lemma_lex_lt_connected, str_lt, str_eq};

verus! {

/// The image of the held-key state: key name and the tick its press started.
pub open spec fn held_view(v: Seq<(String, u64)>) -> Seq<(Seq<char>, u64)> {
    v.map_values(|p: (String, u64)| (p.0@, p.1))
}

/// Keys strictly ascend: no duplicates, canonical order.
pub open spec fn held_sorted(s: Seq<(Seq<char>, u64)>) -> bool {
    forall|i: int, j: int| 0 <= i < j < s.len() ==> lex_lt(#[trigger] s[i].0, #[trigger] s[j].0)
}

/// Whether key `k` is currently held.
pub open spec fn held_has(s: Seq<(Seq<char>, u64)>, k: Seq<char>) -> bool
    decreases s.len(),
{
    if s.len() == 0 {
        false
    } else if s[0].0 == k {
        true
    } else {
        held_has(s.subrange(1, s.len() as int), k)
    }
}

/// The press-start tick of key `k`, going by its first entry.
pub open spec fn held_get(s: Seq<(Seq<char>, u64)>, k: Seq<char>) -> u64
    decreases s.len(),
{
    if s.len() == 0 {
        0
    } else if s[0].0 == k {
        s[0].1
    } else {
        held_get(s.subrange(1, s.len() as int), k)
    }
}

/// The state after key `k` goes down at tick `v`: inserted in key order; a
/// key already present is left as it is.
pub open spec fn held_insert(s: Seq<(Seq<char>, u64)>, k: Seq<char>, v: u64) -> Seq<
    (Seq<char>, u64),
>
    decreases s.len(),
{
    if s.len() == 0 {
        seq![(k, v)]
    } else if lex_lt(k, s[0].0) {
        seq![(k, v)] + s
    } else if s[0].0 == k {
        s
    } else {
        seq![s[0]] + held_insert(s.subrange(1, s.len() as int), k, v)
    }
}

/// The state after key `k` comes up: its first entry is dropped.
pub open spec fn held_remove(s: Seq<(Seq<char>, u64)>, k: Seq<char>) -> Seq<(Seq<char>, u64)>
    decreases s.len(),
{
    if s.len() == 0 {
        s
    } else if s[0].0 == k {
        s.subrange(1, s.len() as int)
    } else {
        seq![s[0]] + held_remove(s.subrange(1, s.len() as int), k)
    }
}

/// The held key names, in their stored (sorted) order.
pub open spec fn held_keys_of(s: Seq<(Seq<char>, u64)>) -> Seq<Seq<char>> {
    s.map_values(|p: (Seq<char>, u64)| p.0)
}

/// Membership is membership at some index.
pub proof fn lemma_held_has_iff(s: Seq<(Seq<char>, u64)>, k: Seq<char>)
    ensures
        held_has(s, k) <==> exists|i: int| 0 <= i < s.len() && s[i].0 == k,
    decreases s.len(),
{
    if s.len() > 0 {
        let t = s.subrange(1, s.len() as int);
        lemma_held_has_iff(t, k);
        if s[0].0 == k {
            assert(0 <= 0 < s.len() && s[0].0 == k);
        } else {
            if held_has(t, k) {
                let i = choose|i: int| 0 <= i < t.len() && t[i].0 == k;
                assert(s[i + 1].0 == k);
            }
            if exists|i: int| 0 <= i < s.len() && s[i].0 == k {
                let i = choose|i: int| 0 <= i < s.len() && s[i].0 == k;
                assert(i > 0);
                assert(t[i - 1].0 == k);
            }
        }
    }
}

/// The stored tick of a key is the tick at its first index.
pub proof fn lemma_held_get_at(s: Seq<(Seq<char>, u64)>, k: Seq<char>, i: int)
    requires
        0 <= i < s.len(),
        s[i].0 == k,
        forall|j: int| 0 <= j < i ==> s[j].0 != k,
    ensures
        held_get(s, k) == s[i].1,
        held_has(s, k),
    decreases s.len(),
{
    if i > 0 {
        let t = s.subrange(1, s.len() as int);
        lemma_held_get_at(t, k, i - 1);
    }
}

/// Inserting at the position exec code finds yields the spec insertion.
pub proof fn lemma_held_insert_at(s: Seq<(Seq<char>, u64)>, k: Seq<char>, v: u64, pos: int)
    requires
        0 <= pos <= s.len(),
        forall|j: int| 0 <= j < pos ==> lex_lt(#[trigger] s[j].0, k),
        pos < s.len() ==> lex_lt(k, s[pos].0),
    ensures
        held_insert(s, k, v) == s.subrange(0, pos) + seq![(k, v)] + s.subrange(
            pos,
            s.len() as int,
        ),
    decreases s.len(),
{
    if s.len() == 0 {
        assert(held_insert(s, k, v) =~= s.subrange(0, pos) + seq![(k, v)] + s.subrange(
            pos,
            s.len() as int,
        ));
    } else if pos == 0 {
        // lex_lt(k, s[0].0) holds, so the spec prepends
        assert(held_insert(s, k, v) =~= s.subrange(0, 0) + seq![(k, v)] + s.subrange(
            0,
            s.len() as int,
        ));
    } else {
        // pos > 0: lex_lt(s[0].0, k), hence neither lex_lt(k, s[0].0) nor k == s[0].0
        assert(lex_lt(s[0].0, k));
        if lex_lt(k, s[0].0) {
            lemma_lex_lt_trans(k, s[0].0, k);
            lemma_lex_lt_irrefl(k);
        }
        if s[0].0 == k {
            lemma_lex_lt_irrefl(k);
        }
        let t = s.subrange(1, s.len() as int);
        assert forall|j: int| 0 <= j < pos - 1 implies lex_lt(#[trigger] t[j].0, k) by {
            assert(t[j] == s[j + 1]);
        }
        assert(pos - 1 < t.len() ==> lex_lt(k, t[pos - 1].0));
        lemma_held_insert_at(t, k, v, pos - 1);
        assert(held_insert(s, k, v) =~= s.subrange(0, pos) + seq![(k, v)] + s.subrange(
            pos,
            s.len() as int,
        )) by {
            assert(held_insert(s, k, v) == seq![s[0]] + held_insert(t, k, v));
            assert(held_insert(t, k, v) == t.subrange(0, pos - 1) + seq![(k, v)] + t.subrange(
                pos - 1,
                t.len() as int,
            ));
            assert forall|m: int|
                0 <= m < held_insert(s, k, v).len() implies held_insert(s, k, v)[m] == (
            s.subrange(0, pos) + seq![(k, v)] + s.subrange(pos, s.len() as int))[m] by {
                if m > 0 {
                    let inner = t.subrange(0, pos - 1) + seq![(k, v)] + t.subrange(
                        pos - 1,
                        t.len() as int,
                    );
                    assert(held_insert(s, k, v)[m] == inner[m - 1]);
                }
            }
        }
    }
}

/// Removing at the first index holding `k` yields the spec removal.
pub proof fn lemma_held_remove_at(s: Seq<(Seq<char>, u64)>, k: Seq<char>, i: int)
    requires
        0 <= i < s.len(),
        s[i].0 == k,
        forall|j: int| 0 <= j < i ==> s[j].0 != k,
    ensures
        held_remove(s, k) == s.subrange(0, i) + s.subrange(i + 1, s.len() as int),
    decreases s.len(),
{
    if i == 0 {
        assert(held_remove(s, k) =~= s.subrange(0, 0) + s.subrange(1, s.len() as int));
    } else {
        let t = s.subrange(1, s.len() as int);
        assert forall|j: int| 0 <= j < i - 1 implies t[j].0 != k by {
            assert(t[j] == s[j + 1]);
        }
        lemma_held_remove_at(t, k, i - 1);
        assert(held_remove(s, k) =~= s.subrange(0, i) + s.subrange(i + 1, s.len() as int)) by {
            assert(held_remove(s, k) == seq![s[0]] + held_remove(t, k));
            assert(held_remove(t, k) == t.subrange(0, i - 1) + t.subrange(i, t.len() as int));
            assert forall|m: int|
                0 <= m < held_remove(s, k).len() implies held_remove(s, k)[m] == (s.subrange(0, i)
                + s.subrange(i + 1, s.len() as int))[m] by {
                if m > 0 {
                    let inner = t.subrange(0, i - 1) + t.subrange(i, t.len() as int);
                    assert(held_remove(s, k)[m] == inner[m - 1]);
                }
            }
        }
    }
}

/// What insertion does to membership.
pub proof fn lemma_held_insert_has(s: Seq<(Seq<char>, u64)>, k: Seq<char>, v: u64, k2: Seq<char>)
    ensures
        held_has(held_insert(s, k, v), k2) <==> (k2 == k || held_has(s, k2)),
    decreases s.len(),
{
    if s.len() == 0 {
        let r = held_insert(s, k, v);
        assert(r[0] == (k, v));
        if k2 != k {
            assert(r.subrange(1, r.len() as int) =~= s);
        }
    } else if lex_lt(k, s[0].0) {
        let r = seq![(k, v)] + s;
        assert(r[0] == (k, v));
        if k2 != k {
            assert(r.subrange(1, r.len() as int) =~= s);
        }
    } else if s[0].0 == k {
        // nothing changes; membership of k itself holds already
    } else {
        let t = s.subrange(1, s.len() as int);
        lemma_held_insert_has(t, k, v, k2);
        let r = seq![s[0]] + held_insert(t, k, v);
        assert(r.subrange(1, r.len() as int) =~= held_insert(t, k, v));
    }
}

/// What insertion does to stored ticks: the new key gets `v`, others keep
/// their ticks.
pub proof fn lemma_held_insert_get(s: Seq<(Seq<char>, u64)>, k: Seq<char>, v: u64, k2: Seq<char>)
    requires
        !held_has(s, k),
    ensures
        held_get(held_insert(s, k, v), k) == v,
        k2 != k ==> held_get(held_insert(s, k, v), k2) == held_get(s, k2),
    decreases s.len(),
{
    if s.len() == 0 {
        let r = held_insert(s, k, v);
        assert(r[0] == (k, v));
        if k2 != k {
            assert(r.subrange(1, r.len() as int) =~= s);
        }
    } else if lex_lt(k, s[0].0) {
        let r = seq![(k, v)] + s;
        assert(r[0] == (k, v));
        if k2 != k {
            assert(r.subrange(1, r.len() as int) =~= s);
        }
    } else if s[0].0 == k {
        // excluded by !held_has(s, k)
        assert(false);
    } else {
        let t = s.subrange(1, s.len() as int);
        lemma_held_insert_get(t, k, v, k2);
        let r = seq![s[0]] + held_insert(t, k, v);
        assert(r.subrange(1, r.len() as int) =~= held_insert(t, k, v));
        assert(r[0] == s[0]);
    }
}

/// What removal does to membership, under sortedness (keys are unique).
pub proof fn lemma_held_remove_has(s: Seq<(Seq<char>, u64)>, k: Seq<char>, k2: Seq<char>)
    requires
        held_sorted(s),
    ensures
        held_has(held_remove(s, k), k2) <==> (held_has(s, k2) && k2 != k),
    decreases s.len(),
{
    if s.len() == 0 {
    } else {
        let t = s.subrange(1, s.len() as int);
        assert(held_sorted(t)) by {
            assert forall|i: int, j: int| 0 <= i < j < t.len() implies lex_lt(
                #[trigger] t[i].0,
                #[trigger] t[j].0,
            ) by {
                assert(t[i] == s[i + 1] && t[j] == s[j + 1]);
            }
        }
        if s[0].0 == k {
            // the tail cannot contain k again
            lemma_held_has_iff(t, k);
            if held_has(t, k) {
                let i = choose|i: int| 0 <= i < t.len() && t[i].0 == k;
                assert(t[i] == s[i + 1]);
                assert(lex_lt(s[0].0, s[i + 1].0));
                lemma_lex_lt_irrefl(k);
            }
            if k2 == k {
                assert(!held_has(t, k2));
            } else {
                assert(held_has(s, k2) == held_has(t, k2));
            }
        } else {
            lemma_held_remove_has(t, k, k2);
            let r = seq![s[0]] + held_remove(t, k);
            assert(r.subrange(1, r.len() as int) =~= held_remove(t, k));
            if k2 == s[0].0 {
                assert(r[0].0 == k2);
                assert(held_has(r, k2));
                assert(held_has(s, k2));
                assert(k2 != k);
            }
        }
    }
}

/// What removal does to the ticks of other keys, under sortedness.
pub proof fn lemma_held_remove_get(s: Seq<(Seq<char>, u64)>, k: Seq<char>, k2: Seq<char>)
    requires
        held_sorted(s),
        k2 != k,
    ensures
        held_get(held_remove(s, k), k2) == held_get(s, k2),
    decreases s.len(),
{
    if s.len() == 0 {
    } else {
        let t = s.subrange(1, s.len() as int);
        assert(held_sorted(t)) by {
            assert forall|i: int, j: int| 0 <= i < j < t.len() implies lex_lt(
                #[trigger] t[i].0,
                #[trigger] t[j].0,
            ) by {
                assert(t[i] == s[i + 1] && t[j] == s[j + 1]);
            }
        }
        if s[0].0 == k {
            // removal drops the head; k2's first entry is unchanged in the tail
            assert(held_remove(s, k) == t);
            assert(held_get(s, k2) == held_get(t, k2));
        } else {
            lemma_held_remove_get(t, k, k2);
            let r = seq![s[0]] + held_remove(t, k);
            assert(r.subrange(1, r.len() as int) =~= held_remove(t, k));
            assert(r[0] == s[0]);
            if s[0].0 == k2 {
            } else {
                assert(held_get(r, k2) == held_get(held_remove(t, k), k2));
            }
        }
    }
}

/// Every entry of an insertion is the new pair or an entry of the original.
pub proof fn lemma_held_insert_members(s: Seq<(Seq<char>, u64)>, k: Seq<char>, v: u64)
    ensures
        forall|m: int|
            0 <= m < held_insert(s, k, v).len() ==> (#[trigger] held_insert(s, k, v)[m] == (k, v)
                || s.contains(held_insert(s, k, v)[m])),
    decreases s.len(),
{
    if s.len() == 0 {
    } else if lex_lt(k, s[0].0) {
        let r = seq![(k, v)] + s;
        assert forall|m: int| 0 <= m < r.len() implies (#[trigger] r[m] == (k, v) || s.contains(
            r[m],
        )) by {
            if m > 0 {
                assert(r[m] == s[m - 1]);
            }
        }
    } else if s[0].0 == k {
        assert forall|m: int| 0 <= m < s.len() implies s.contains(#[trigger] s[m]) by {}
    } else {
        let t = s.subrange(1, s.len() as int);
        lemma_held_insert_members(t, k, v);
        let r = seq![s[0]] + held_insert(t, k, v);
        assert forall|m: int| 0 <= m < r.len() implies (#[trigger] r[m] == (k, v) || s.contains(
            r[m],
        )) by {
            if m == 0 {
                assert(s[0] == r[0]);
                assert(s.contains(s[0]));
            } else {
                assert(r[m] == held_insert(t, k, v)[m - 1]);
                if r[m] != (k, v) {
                    assert(t.contains(r[m]));
                    let j = choose|j: int| 0 <= j < t.len() && t[j] == r[m];
                    assert(s[j + 1] == r[m]);
                }
            }
        }
    }
}

/// Every entry of a removal is an entry of the original.
pub proof fn lemma_held_remove_members(s: Seq<(Seq<char>, u64)>, k: Seq<char>)
    ensures
        forall|m: int|
            0 <= m < held_remove(s, k).len() ==> s.contains(#[trigger] held_remove(s, k)[m]),
    decreases s.len(),
{
    if s.len() == 0 {
    } else if s[0].0 == k {
        let t = s.subrange(1, s.len() as int);
        assert forall|m: int| 0 <= m < t.len() implies s.contains(#[trigger] t[m]) by {
            assert(s[m + 1] == t[m]);
        }
    } else {
        let t = s.subrange(1, s.len() as int);
        lemma_held_remove_members(t, k);
        let r = seq![s[0]] + held_remove(t, k);
        assert forall|m: int| 0 <= m < r.len() implies s.contains(#[trigger] r[m]) by {
            if m == 0 {
                assert(s[0] == r[0]);
                assert(s.contains(s[0]));
            } else {
                assert(r[m] == held_remove(t, k)[m - 1]);
                assert(t.contains(r[m]));
                let j = choose|j: int| 0 <= j < t.len() && t[j] == r[m];
                assert(s[j + 1] == r[m]);
            }
        }
    }
}

/// Inserting a fresh key keeps the list sorted.
pub proof fn lemma_held_insert_sorted(s: Seq<(Seq<char>, u64)>, k: Seq<char>, v: u64)
    requires
        held_sorted(s),
        !held_has(s, k),
    ensures
        held_sorted(held_insert(s, k, v)),
    decreases s.len(),
{
    if s.len() == 0 {
    } else if lex_lt(k, s[0].0) {
        let r = seq![(k, v)] + s;
        assert forall|i: int, j: int| 0 <= i < j < r.len() implies lex_lt(
            #[trigger] r[i].0,
            #[trigger] r[j].0,
        ) by {
            if i == 0 {
                assert(r[j] == s[j - 1]);
                if j > 1 {
                    lemma_lex_lt_trans(k, s[0].0, s[j - 1].0);
                }
            } else {
                assert(r[i] == s[i - 1] && r[j] == s[j - 1]);
            }
        }
    } else if s[0].0 == k {
        assert(held_has(s, k));
    } else {
        let t = s.subrange(1, s.len() as int);
        assert(held_sorted(t)) by {
            assert forall|i: int, j: int| 0 <= i < j < t.len() implies lex_lt(
                #[trigger] t[i].0,
                #[trigger] t[j].0,
            ) by {
                assert(t[i] == s[i + 1] && t[j] == s[j + 1]);
            }
        }
        lemma_held_insert_sorted(t, k, v);
        lemma_held_insert_members(t, k, v);
        // the head is below k and below every entry of the tail
        if !lex_lt(s[0].0, k) {
            if !lex_lt(k, s[0].0) {
                lemma_lex_lt_connected(k, s[0].0);
            }
        }
        assert(lex_lt(s[0].0, k));
        let r = seq![s[0]] + held_insert(t, k, v);
        assert forall|i: int, j: int| 0 <= i < j < r.len() implies lex_lt(
            #[trigger] r[i].0,
            #[trigger] r[j].0,
        ) by {
            if i == 0 {
                let e = held_insert(t, k, v)[j - 1];
                assert(r[j] == e);
                if e == (k, v) {
                } else {
                    assert(t.contains(e));
                    let m = choose|m: int| 0 <= m < t.len() && t[m] == e;
                    assert(s[m + 1] == e);
                    assert(lex_lt(s[0].0, s[m + 1].0));
                }
            } else {
                assert(r[i] == held_insert(t, k, v)[i - 1]);
                assert(r[j] == held_insert(t, k, v)[j - 1]);
            }
        }
    }
}

/// Removal keeps the list sorted.
pub proof fn lemma_held_remove_sorted(s: Seq<(Seq<char>, u64)>, k: Seq<char>)
    requires
        held_sorted(s),
    ensures
        held_sorted(held_remove(s, k)),
    decreases s.len(),
{
    if s.len() == 0 {
    } else {
        let t = s.subrange(1, s.len() as int);
        assert(held_sorted(t)) by {
            assert forall|i: int, j: int| 0 <= i < j < t.len() implies lex_lt(
                #[trigger] t[i].0,
                #[trigger] t[j].0,
            ) by {
                assert(t[i] == s[i + 1] && t[j] == s[j + 1]);
            }
        }
        if s[0].0 == k {
        } else {
            lemma_held_remove_sorted(t, k);
            lemma_held_remove_members(t, k);
            let r = seq![s[0]] + held_remove(t, k);
            assert forall|i: int, j: int| 0 <= i < j < r.len() implies lex_lt(
                #[trigger] r[i].0,
                #[trigger] r[j].0,
            ) by {
                if i == 0 {
                    let e = held_remove(t, k)[j - 1];
                    assert(r[j] == e);
                    assert(t.contains(e));
                    let m = choose|m: int| 0 <= m < t.len() && t[m] == e;
                    assert(s[m + 1] == e);
                    assert(lex_lt(s[0].0, s[m + 1].0));
                } else {
                    assert(r[i] == held_remove(t, k)[i - 1]);
                    assert(r[j] == held_remove(t, k)[j - 1]);
                }
            }
        }
    }
}

/// The snapshot's held-key names inherit the state's strict order.
pub proof fn lemma_held_keys_sorted(s: Seq<(Seq<char>, u64)>)
    requires
        held_sorted(s),
    ensures
        forall|i: int, j: int|
            0 <= i < j < held_keys_of(s).len() ==> lex_lt(
                #[trigger] held_keys_of(s)[i],
                #[trigger] held_keys_of(s)[j],
            ),
{
    assert forall|i: int, j: int| 0 <= i < j < held_keys_of(s).len() implies lex_lt(
        #[trigger] held_keys_of(s)[i],
        #[trigger] held_keys_of(s)[j],
    ) by {
        assert(held_keys_of(s)[i] == s[i].0 && held_keys_of(s)[j] == s[j].0);
    }
}

/// The aggregator's cross-step state: the held-key list (sorted by name).
pub struct AggregatorState {
    pub held: Vec<(String, u64)>,
}

impl View for AggregatorState {
    type V = Seq<(Seq<char>, u64)>;

    open spec fn view(&self) -> Seq<(Seq<char>, u64)> {
        held_view(self.held@)
    }
}

impl AggregatorState {
    /// The state invariant: held keys strictly ascend by name.
    pub open spec fn wf(&self) -> bool {
        held_sorted(self@)
    }

    /// A fresh state holds no keys.
    pub fn new() -> (r: AggregatorState)
        ensures
            r@ =~= Seq::<(Seq<char>, u64)>::empty(),
            r.wf(),
    {
        AggregatorState { held: Vec::new() }
    }

    /// The first index holding `key`, if any.
    pub(crate) fn find(&self, key: &str) -> (r: Option<usize>)
        ensures
            match r {
                Some(i) => {
                    &&& i < self@.len()
                    &&& self@[i as int].0 == key@
                    &&& forall|j: int| 0 <= j < i ==> self@[j].0 != key@
                    &&& held_has(self@, key@)
                    &&& held_get(self@, key@) == self@[i as int].1
                },
                None => !held_has(self@, key@),
            },
    {
        let n = self.held.len();
        let mut i: usize = 0;
        while i < n
            invariant
                n == self.held.len(),
                i <= n,
                forall|j: int| 0 <= j < i ==> self@[j].0 != key@,
            decreases n - i,
        {
            if str_eq(self.held[i].0.as_str(), key) {
                proof {
                    lemma_held_get_at(self@, key@, i as int);
                }
                return Some(i);
            }
            i = i + 1;
        }
        proof {
            lemma_held_has_iff(self@, key@);
        }
        None
    }

    /// Whether `key` is currently held.
    pub fn is_held(&self, key: &str) -> (r: bool)
        ensures
            r == held_has(self@, key@),
    {
        self.find(key).is_some()
    }

    /// The first position whose key is not below `key`: the insertion point.
    pub(crate) fn find_insert_pos(&self, key: &str) -> (pos: usize)
        ensures
            pos <= self@.len(),
            forall|j: int| 0 <= j < pos ==> lex_lt(#[trigger] self@[j].0, key@),
            pos < self@.len() ==> !lex_lt(self@[pos as int].0, key@),
    {
        let n = self.held.len();
        let mut pos: usize = 0;
        while pos < n
            invariant
                n == self.held.len(),
                pos <= n,
                forall|j: int| 0 <= j < pos ==> lex_lt(#[trigger] self@[j].0, key@),
            decreases n - pos,
        {
            if !str_lt(self.held[pos].0.as_str(), key) {
                return pos;
            }
            pos = pos + 1;
        }
        pos
    }

    /// The press-start tick stored at an index.
    pub(crate) fn tick_at(&self, i: usize) -> (r: u64)
        requires
            i < self@.len(),
        ensures
            r == self@[i as int].1,
    {
        self.held[i].1
    }

    /// The held key names in their sorted order.
    pub fn held_key_names(&self) -> (r: Vec<String>)
        ensures
            r@.map_values(|s: String| s@) == held_keys_of(self@),
    {
        let mut out: Vec<String> = Vec::new();
        let n = self.held.len();
        let mut i: usize = 0;
        while i < n
            invariant
                n == self.held.len(),
                i <= n,
                out@.len() == i,
                forall|j: int| 0 <= j < i ==> out@[j]@ == self@[j].0,
            decreases n - i,
        {
            out.push(self.held[i].0.clone());
            i = i + 1;
        }
        proof {
            assert(out@.map_values(|s: String| s@) =~= held_keys_of(self@));
        }
        out
    }

    /// Records a fresh key-down: inserts `key` at tick `ts`, in name order.
    pub(crate) fn insert_held(&mut self, key: &str, ts: u64)
        requires
            old(self).wf(),
            !held_has(old(self)@, key@),
        ensures
            final(self)@ == held_insert(old(self)@, key@, ts),
            final(self).wf(),
    {
        let ghost s0 = self@;
        let pos = self.find_insert_pos(key);
        proof {
            // at the stopping point the new key is strictly below the tail
            if (pos as int) < s0.len() {
                lemma_held_has_iff(s0, key@);
                assert(s0[pos as int].0 != key@);
                if !lex_lt(key@, s0[pos as int].0) {
                    lemma_lex_lt_connected(key@, s0[pos as int].0);
                }
                assert(lex_lt(key@, s0[pos as int].0));
            }
            lemma_held_insert_at(s0, key@, ts, pos as int);
        }
        self.held.insert(pos, (key.to_owned(), ts));
        proof {
            assert(self@ =~= s0.subrange(0, pos as int) + seq![(key@, ts)] + s0.subrange(
                pos as int,
                s0.len() as int,
            ));
            let r = self@;
            assert(held_sorted(r)) by {
                assert forall|i: int, j: int| 0 <= i < j < r.len() implies lex_lt(
                    #[trigger] r[i].0,
                    #[trigger] r[j].0,
                ) by {
                    let p = pos as int;
                    if i < p && j < p {
                        assert(r[i] == s0[i] && r[j] == s0[j]);
                    } else if i < p && j == p {
                        assert(r[i] == s0[i]);
                    } else if i < p && j > p {
                        assert(r[i] == s0[i] && r[j] == s0[j - 1]);
                    } else if i == p && j > p {
                        assert(r[j] == s0[j - 1]);
                        if p < j - 1 {
                            lemma_lex_lt_trans(key@, s0[p].0, s0[j - 1].0);
                        }
                    } else {
                        assert(r[i] == s0[i - 1] && r[j] == s0[j - 1]);
                    }
                }
            }
        }
    }

    /// Records a key-up for a held key: drops its entry.
    pub(crate) fn remove_held(&mut self, key: &str, i: usize)
        requires
            old(self).wf(),
            i < old(self)@.len(),
            old(self)@[i as int].0 == key@,
            forall|j: int| 0 <= j < i ==> old(self)@[j].0 != key@,
        ensures
            final(self)@ == held_remove(old(self)@, key@),
            final(self).wf(),
    {
        let ghost s0 = self@;
        proof {
            lemma_held_remove_at(s0, key@, i as int);
        }
        self.held.remove(i);
        proof {
            assert(self@ =~= s0.subrange(0, i as int) + s0.subrange(i as int + 1, s0.len() as int));
            let r = self@;
            assert(held_sorted(r)) by {
                assert forall|a: int, b: int| 0 <= a < b < r.len() implies lex_lt(
                    #[trigger] r[a].0,
                    #[trigger] r[b].0,
                ) by {
                    let p = i as int;
                    let a0 = if a < p { a } else { a + 1 };
                    let b0 = if b < p { b } else { b + 1 };
                    assert(r[a] == s0[a0] && r[b] == s0[b0]);
                }
            }
        }
    }
}

} // verus!
