use vstd::prelude::*;

verus! {

/// A table of slots is a sequence of `(key, slot)` pairs whose keys are
/// pairwise distinct; its order is the order in which keys were first inserted.
pub open spec fn unique_keys<V>(t: Seq<(u64, V)>) -> bool {
    forall|i: int, j: int|
        0 <= i < t.len() && 0 <= j < t.len() && i != j ==> #[trigger] t[i].0 != #[trigger] t[j].0
}

pub open spec fn has_key<V>(t: Seq<(u64, V)>, k: u64) -> bool {
    exists|i: int| 0 <= i < t.len() && #[trigger] t[i].0 == k
}

/// The position of key `k` (meaningful when `has_key(t, k)`).
pub open spec fn key_index<V>(t: Seq<(u64, V)>, k: u64) -> int {
    choose|i: int| 0 <= i < t.len() && #[trigger] t[i].0 == k
}

/// The slot stored under `k` (meaningful when `has_key(t, k)`).
pub open spec fn slot_of<V>(t: Seq<(u64, V)>, k: u64) -> V {
    t[key_index(t, k)].1
}

/// Replaces the slot of `k` in place, or appends it when `k` is new.
pub open spec fn put<V>(t: Seq<(u64, V)>, k: u64, v: V) -> Seq<(u64, V)> {
    if has_key(t, k) {
        t.update(key_index(t, k), (k, v))
    } else {
        t.push((k, v))
    }
}

/// Drops the slot of `k`, if any.
pub open spec fn remove_key<V>(t: Seq<(u64, V)>, k: u64) -> Seq<(u64, V)> {
    if has_key(t, k) {
        t.remove(key_index(t, k))
    } else {
        t
    }
}

pub proof fn lemma_key_index_unique<V>(t: Seq<(u64, V)>, i: int)
    requires
        unique_keys(t),
        0 <= i < t.len(),
    ensures
        has_key(t, t[i].0),
        key_index(t, t[i].0) == i,
{
    let k = t[i].0;
    assert(has_key(t, k));
    let j = key_index(t, k);
    assert(t[j].0 == k);
}

pub proof fn lemma_put_unique<V>(t: Seq<(u64, V)>, k: u64, v: V)
    requires
        unique_keys(t),
    ensures
        unique_keys(put(t, k, v)),
        has_key(put(t, k, v), k),
        slot_of(put(t, k, v), k) == v,
{
    let r = put(t, k, v);
    if has_key(t, k) {
        let idx = key_index(t, k);
        assert forall|i: int, j: int|
            0 <= i < r.len() && 0 <= j < r.len() && i != j implies #[trigger] r[i].0
            != #[trigger] r[j].0 by {
            if i != idx && j != idx {
                assert(r[i] == t[i] && r[j] == t[j]);
            } else if i == idx {
                assert(r[j] == t[j]);
                assert(t[idx].0 == k);
            } else {
                assert(r[i] == t[i]);
                assert(t[idx].0 == k);
            }
        }
        lemma_key_index_unique(r, idx);
    } else {
        assert forall|i: int, j: int|
            0 <= i < r.len() && 0 <= j < r.len() && i != j implies #[trigger] r[i].0
            != #[trigger] r[j].0 by {
            if i < t.len() && j < t.len() {
                assert(r[i] == t[i] && r[j] == t[j]);
            } else if i < t.len() {
                assert(r[i] == t[i]);
                assert(r[j].0 == k);
            } else {
                assert(r[j] == t[j]);
                assert(r[i].0 == k);
            }
        }
        lemma_key_index_unique(r, t.len() as int);
    }
}

pub proof fn lemma_update_slot_unique<V>(t: Seq<(u64, V)>, i: int, v: V)
    requires
        unique_keys(t),
        0 <= i < t.len(),
    ensures
        unique_keys(t.update(i, (t[i].0, v))),
{
    let r = t.update(i, (t[i].0, v));
    assert forall|a: int, b: int|
        0 <= a < r.len() && 0 <= b < r.len() && a != b implies #[trigger] r[a].0
        != #[trigger] r[b].0 by {
        assert(r[a].0 == t[a].0 && r[b].0 == t[b].0);
    }
}

pub proof fn lemma_remove_unique<V>(t: Seq<(u64, V)>, i: int)
    requires
        unique_keys(t),
        0 <= i < t.len(),
    ensures
        unique_keys(t.remove(i)),
        !has_key(t.remove(i), t[i].0),
{
    let r = t.remove(i);
    assert forall|a: int, b: int|
        0 <= a < r.len() && 0 <= b < r.len() && a != b implies #[trigger] r[a].0
        != #[trigger] r[b].0 by {
        let a2 = if a < i { a } else { a + 1 };
        let b2 = if b < i { b } else { b + 1 };
        assert(r[a] == t[a2] && r[b] == t[b2]);
    }
    if has_key(r, t[i].0) {
        let a = key_index(r, t[i].0);
        let a2 = if a < i { a } else { a + 1 };
        assert(r[a] == t[a2]);
    }
}

/// Position of `k` in the table, found by a scan.
pub fn find_key<V>(t: &Vec<(u64, V)>, k: u64) -> (r: Option<usize>)
    requires
        unique_keys(t@),
    ensures
        r is None <==> !has_key(t@, k),
        r matches Some(i) ==> i < t@.len() && t@[i as int].0 == k && key_index(t@, k) == i,
{
    let n = t.len();
    let mut i: usize = 0;
    while i < n
        invariant
            n == t@.len(),
            i <= n,
            unique_keys(t@),
            forall|j: int| 0 <= j < i ==> #[trigger] t@[j].0 != k,
        decreases n - i,
    {
        if t[i].0 == k {
            proof {
                lemma_key_index_unique(t@, i as int);
            }
            return Some(i);
        }
        i = i + 1;
    }
    None
}

/// Keeps the slots for which `keep` holds, in order, each rewritten by `upd`.
pub open spec fn refresh<V>(t: Seq<(u64, V)>, keep: spec_fn(V) -> bool, upd: spec_fn(V) -> V) -> Seq<
    (u64, V),
>
    decreases t.len(),
{
    if t.len() == 0 {
        t
    } else {
        let prev = refresh(t.drop_last(), keep, upd);
        if keep(t.last().1) {
            prev.push((t.last().0, upd(t.last().1)))
        } else {
            prev
        }
    }
}

pub proof fn lemma_refresh_unique<V>(t: Seq<(u64, V)>, keep: spec_fn(V) -> bool, upd: spec_fn(V) -> V)
    requires
        unique_keys(t),
    ensures
        unique_keys(refresh(t, keep, upd)),
        forall|k: u64| has_key(refresh(t, keep, upd), k) ==> has_key(t, k),
    decreases t.len(),
{
    if t.len() > 0 {
        let p = t.drop_last();
        assert(unique_keys(p)) by {
            assert forall|i: int, j: int|
                0 <= i < p.len() && 0 <= j < p.len() && i != j implies #[trigger] p[i].0
                != #[trigger] p[j].0 by {
                assert(p[i] == t[i] && p[j] == t[j]);
            }
        }
        lemma_refresh_unique(p, keep, upd);
        let prev = refresh(p, keep, upd);
        let r = refresh(t, keep, upd);
        let k = t.last().0;
        assert(!has_key(p, k)) by {
            if has_key(p, k) {
                let a = key_index(p, k);
                assert(p[a] == t[a]);
            }
        }
        assert(!has_key(prev, k));
        if keep(t.last().1) {
            assert forall|i: int, j: int|
                0 <= i < r.len() && 0 <= j < r.len() && i != j implies #[trigger] r[i].0
                != #[trigger] r[j].0 by {
                if i < prev.len() && j < prev.len() {
                    assert(r[i] == prev[i] && r[j] == prev[j]);
                } else if i < prev.len() {
                    assert(r[i] == prev[i]);
                } else {
                    assert(r[j] == prev[j]);
                }
            }
            assert forall|k2: u64| has_key(r, k2) implies has_key(t, k2) by {
                let a = key_index(r, k2);
                if a < prev.len() {
                    assert(r[a] == prev[a]);
                    assert(has_key(prev, k2));
                    assert(has_key(p, k2));
                    let b = key_index(p, k2);
                    assert(p[b] == t[b]);
                } else {
                    assert(t[t.len() - 1].0 == k2);
                }
            }
        } else {
            assert forall|k2: u64| has_key(r, k2) implies has_key(t, k2) by {
                assert(has_key(p, k2));
                let b = key_index(p, k2);
                assert(p[b] == t[b]);
            }
        }
    }
}

pub proof fn lemma_drop_last_table<V>(t: Seq<(u64, V)>, key: u64)
    requires
        unique_keys(t),
        t.len() > 0,
    ensures
        unique_keys(t.drop_last()),
        t.last().0 == key ==> !has_key(t.drop_last(), key) && has_key(t, key) && slot_of(t, key)
            == t.last().1,
        t.last().0 != key ==> (has_key(t, key) == has_key(t.drop_last(), key)),
        t.last().0 != key && has_key(t, key) ==> slot_of(t, key) == slot_of(t.drop_last(), key),
{
    let p = t.drop_last();
    assert(unique_keys(p)) by {
        assert forall|i: int, j: int|
            0 <= i < p.len() && 0 <= j < p.len() && i != j implies #[trigger] p[i].0
            != #[trigger] p[j].0 by {
            assert(p[i] == t[i] && p[j] == t[j]);
        }
    }
    if t.last().0 == key {
        lemma_key_index_unique(t, t.len() - 1);
        if has_key(p, key) {
            let a = key_index(p, key);
            assert(p[a] == t[a]);
        }
    } else {
        if has_key(t, key) {
            let a = key_index(t, key);
            assert(a < p.len());
            assert(p[a] == t[a]);
            lemma_key_index_unique(p, a);
        }
        if has_key(p, key) {
            let a = key_index(p, key);
            assert(p[a] == t[a]);
        }
    }
}

/// A slot that `refresh` keeps is still found under its key, rewritten by `upd`.
pub proof fn lemma_refresh_keeps<V>(t: Seq<(u64, V)>, keep: spec_fn(V) -> bool, upd: spec_fn(V) -> V, k: u64)
    requires
        unique_keys(t),
        has_key(t, k),
        keep(slot_of(t, k)),
    ensures
        has_key(refresh(t, keep, upd), k),
        slot_of(refresh(t, keep, upd), k) == upd(slot_of(t, k)),
    decreases t.len(),
{
    lemma_drop_last_table(t, k);
    lemma_refresh_unique(t, keep, upd);
    let p = t.drop_last();
    let prev = refresh(p, keep, upd);
    let r = refresh(t, keep, upd);
    if t.last().0 == k {
        lemma_refresh_unique(p, keep, upd);
        assert(r == prev.push((k, upd(t.last().1))));
        lemma_key_index_unique(r, prev.len() as int);
    } else {
        lemma_refresh_keeps(p, keep, upd, k);
        let a = key_index(prev, k);
        if keep(t.last().1) {
            assert(r[a] == prev[a]);
        } else {
            assert(r == prev);
        }
        lemma_key_index_unique(r, a);
    }
}

/// Stores `v` under `k`, replacing the slot of `k` in place or appending it.
pub fn table_put<V>(t: &mut Vec<(u64, V)>, k: u64, v: V)
    requires
        unique_keys(old(t)@),
    ensures
        final(t)@ == put(old(t)@, k, v),
        unique_keys(final(t)@),
{
    proof {
        lemma_put_unique(t@, k, v);
    }
    match find_key(t, k) {
        Some(i) => {
            t[i] = (k, v);
        },
        None => {
            t.push((k, v));
        },
    }
}

/// Takes the slot of `k` out of the table, if there is one.
pub fn table_remove<V>(t: &mut Vec<(u64, V)>, k: u64) -> (r: Option<V>)
    requires
        unique_keys(old(t)@),
    ensures
        final(t)@ == remove_key(old(t)@, k),
        unique_keys(final(t)@),
        !has_key(final(t)@, k),
        r is Some <==> has_key(old(t)@, k),
        r matches Some(v) ==> v == slot_of(old(t)@, k),
{
    match find_key(t, k) {
        Some(i) => {
            proof {
                lemma_remove_unique(t@, i as int);
            }
            let e = t.remove(i);
            Some(e.1)
        },
        None => None,
    }
}

} // verus!
