//! Properties of the key-value agent that relate several of its operations.
use vstd::prelude::*;

use crate::identity::NodeId;
use crate::kv_msg::{KeyId, KeySource, KeyVersion, RemoteEventView, ReqId, SimpleLocalEvent, ValueType};
use crate::simple_local::{
    data_action, data_due, due_count_data, due_count_subs, expired_gets, next_req, resend_data,
    resend_subs, sub_action, sub_due, sync_data, sync_subs, version_of, next_seed16, ActionView, KeySlotData,
    KeySlotSubscribe, LocalStorageView,
};
use crate::slot_table::{
    has_key, key_index, lemma_drop_last_table, lemma_key_index_unique, lemma_put_unique,
    lemma_refresh_keeps, lemma_refresh_unique, lemma_update_slot_unique, refresh, slot_of,
    unique_keys,
};

verus! {

/// The counter value reached `i` versions after `seed`.
pub open spec fn seed_after(seed: u16, i: int) -> u16 {
    ((seed + i) % 0x1_0000int) as u16
}

/// Each version made moves the counter one step along `seed_after`.
pub proof fn lemma_seed_after_step(seed: u16, i: int)
    requires
        i >= 0,
    ensures
        next_seed16(seed_after(seed, i)) == seed_after(seed, i + 1),
{
    let m = 0x1_0000int;
    let a = seed + i;
    assert((a % m + 1) % m == (a + 1) % m) by {
        vstd::arithmetic::div_mod::lemma_add_mod_noop(a, 1, m);
        vstd::arithmetic::div_mod::lemma_small_mod(1nat, m as nat);
        vstd::arithmetic::div_mod::lemma_mod_twice(a + 1, m);
    }
}

/// Versions are ordered by time: any version made at `t1` is below any made
/// at a later `t2`, whatever the counters, for times below 2^48 ms.
pub proof fn lemma_version_increases_with_time(t1: u64, s1: u16, t2: u64, s2: u16)
    requires
        t1 < t2,
        t2 < 0x1_0000_0000_0000,
    ensures
        version_of(t1, s1) < version_of(t2, s2),
{
    let a = s1 as u64;
    let b = s2 as u64;
    assert(((t1 << 16u64) | a) < ((t2 << 16u64) | b)) by (bit_vector)
        requires
            t1 < t2,
            t2 < 0x1_0000_0000_0000u64,
            a < 0x1_0000u64,
            b < 0x1_0000u64,
    ;
}

/// Within one millisecond, the 65 536 versions made one after the other
/// from any counter value are pairwise distinct.
pub proof fn lemma_versions_distinct_within_tick(now: u64, seed: u16, i: int, j: int)
    requires
        0 <= i < j < 0x1_0000,
    ensures
        version_of(now, seed_after(seed, i)) != version_of(now, seed_after(seed, j)),
{
    let a = seed_after(seed, i);
    let b = seed_after(seed, j);
    assert(a != b) by {
        if a == b {
            assert((seed + i) % 0x1_0000int == (seed + j) % 0x1_0000int);
            vstd::arithmetic::div_mod::lemma_fundamental_div_mod(seed + i, 0x1_0000int);
            vstd::arithmetic::div_mod::lemma_fundamental_div_mod(seed + j, 0x1_0000int);
            assert((seed + j) / 0x1_0000int - (seed + i) / 0x1_0000int == 0 || (seed + j) / 0x1_0000int
                - (seed + i) / 0x1_0000int >= 1);
        }
    }
    let x = a as u64;
    let y = b as u64;
    assert(((now << 16u64) | x) != ((now << 16u64) | y)) by (bit_vector)
        requires
            x != y,
            x < 0x1_0000u64,
            y < 0x1_0000u64,
    ;
}

proof fn lemma_expired_are_pending(g: Seq<(ReqId, u64)>, now: u64, r: ReqId)
    requires
        !has_key(g, r),
    ensures
        !expired_gets(g, now).contains(r),
    decreases g.len(),
{
    if g.len() > 0 {
        let p = g.drop_last();
        assert(!has_key(p, r)) by {
            if has_key(p, r) {
                let a = key_index(p, r);
                assert(g[a] == p[a]);
            }
        }
        lemma_expired_are_pending(p, now, r);
        assert(g[g.len() - 1].0 != r);
    }
}

proof fn lemma_live_are_pending(g: Seq<(ReqId, u64)>, now: u64, r: ReqId)
    requires
        !has_key(g, r),
    ensures
        !has_key(refresh(g, |d: u64| now < d, |d: u64| d), r),
    decreases g.len(),
{
    if g.len() > 0 {
        let p = g.drop_last();
        assert(!has_key(p, r)) by {
            if has_key(p, r) {
                let a = key_index(p, r);
                assert(g[a] == p[a]);
            }
        }
        lemma_live_are_pending(p, now, r);
        let prev = refresh(p, |d: u64| now < d, |d: u64| d);
        let res = refresh(g, |d: u64| now < d, |d: u64| d);
        if has_key(res, r) {
            let a = key_index(res, r);
            if a < prev.len() {
                assert(res[a] == prev[a]);
            } else {
                assert(g[g.len() - 1].0 != r);
            }
        }
    }
}

/// A read that gets no answer times out exactly once: a tick at or after its
/// deadline reports its request id once, and leaves no pending read under
/// that id, so no later tick or answer reports it again.
pub proof fn lemma_get_times_out_once(
    s: LocalStorageView,
    t0: u64,
    key: KeyId,
    timeout_ms: u64,
    now: u64,
)
    requires
        s.wf(),
        !has_key(s.gets, s.req_id_seed),
        now >= t0 + timeout_ms,
    ensures
        ({
            let r = s.req_id_seed;
            let s1 = s.after_get(t0, key, timeout_ms);
            &&& s1.tick_timeouts(now) == expired_gets(s.gets, now).push(r)
            &&& !expired_gets(s.gets, now).contains(r)
            &&& !has_key(s1.after_tick(now).gets, r)
        }),
{
    let r = s.req_id_seed;
    let s1 = s.after_get(t0, key, timeout_ms);
    assert(s1.gets == s.gets.push((r, (t0 + timeout_ms) as u64)));
    assert(s1.gets.drop_last() =~= s.gets);
    lemma_expired_are_pending(s.gets, now, r);
    lemma_live_are_pending(s.gets, now, r);
    let prev = refresh(s.gets, |d: u64| now < d, |d: u64| d);
    let res = s1.after_tick(now).gets;
    assert(res == prev);
}

/// Once no read is pending under `r`, a tick does not report `r` and leaves
/// it absent, and a late answer to `r` tells the application nothing.
pub proof fn lemma_settled_read_stays_silent(
    s: LocalStorageView,
    r: ReqId,
    now: u64,
    key: KeyId,
    value: Option<(ValueType, KeyVersion, KeySource)>,
)
    requires
        !has_key(s.gets, r),
    ensures
        !s.tick_timeouts(now).contains(r),
        !has_key(s.after_tick(now).gets, r),
        s.event_callback(SimpleLocalEvent::GetAck(r, key, value)) is None,
{
    lemma_expired_are_pending(s.gets, now, r);
    lemma_live_are_pending(s.gets, now, r);
}

/// Whether an action restates the data of `key` (a `Set` or a `Del`).
pub open spec fn about_data(a: ActionView, key: KeyId) -> bool {
    match a.0 {
        RemoteEventView::SetKey(_, k, _, _, _) => k == key,
        RemoteEventView::Del(_, k, _) => k == key,
        _ => false,
    }
}

/// Whether an action restates the subscription of `key` (a `Sub` or an `Unsub`).
pub open spec fn about_sub(a: ActionView, key: KeyId) -> bool {
    match a.0 {
        RemoteEventView::Sub(_, k, _) => k == key,
        RemoteEventView::Unsub(_, k) => k == key,
        _ => false,
    }
}

pub open spec fn count_data(acts: Seq<ActionView>, key: KeyId) -> nat
    decreases acts.len(),
{
    if acts.len() == 0 {
        0
    } else {
        count_data(acts.drop_last(), key) + if about_data(acts.last(), key) {
            1nat
        } else {
            0nat
        }
    }
}

pub open spec fn count_sub(acts: Seq<ActionView>, key: KeyId) -> nat
    decreases acts.len(),
{
    if acts.len() == 0 {
        0
    } else {
        count_sub(acts.drop_last(), key) + if about_sub(acts.last(), key) {
            1nat
        } else {
            0nat
        }
    }
}

/// The actions that a tick at `now` adds to the queue.
pub open spec fn tick_emitted(s: LocalStorageView, now: u64) -> Seq<ActionView> {
    s.after_tick(now).actions.skip(s.actions.len() as int)
}

proof fn lemma_count_concat(a: Seq<ActionView>, b: Seq<ActionView>, key: KeyId)
    ensures
        count_data(a + b, key) == count_data(a, key) + count_data(b, key),
        count_sub(a + b, key) == count_sub(a, key) + count_sub(b, key),
    decreases b.len(),
{
    if b.len() == 0 {
        assert(a + b =~= a);
    } else {
        lemma_count_concat(a, b.drop_last(), key);
        assert((a + b).drop_last() =~= a + b.drop_last());
        assert((a + b).last() == b.last());
    }
}

proof fn lemma_count_push(a: Seq<ActionView>, x: ActionView, key: KeyId)
    ensures
        count_data(a.push(x), key) == count_data(a, key) + if about_data(x, key) {
            1nat
        } else {
            0nat
        },
        count_sub(a.push(x), key) == count_sub(a, key) + if about_sub(x, key) {
            1nat
        } else {
            0nat
        },
{
    assert(a.push(x).drop_last() =~= a);
}

proof fn lemma_resend_data_count(t: Seq<(KeyId, KeySlotData)>, seed: u64, key: KeyId)
    requires
        unique_keys(t),
    ensures
        count_data(resend_data(t, seed), key) == if has_key(t, key) && !slot_of(t, key).acked {
            1nat
        } else {
            0nat
        },
        count_sub(resend_data(t, seed), key) == 0,
    decreases t.len(),
{
    if t.len() > 0 {
        lemma_drop_last_table(t, key);
        lemma_resend_data_count(t.drop_last(), seed, key);
        let prev = resend_data(t.drop_last(), seed);
        let e = t.last();
        lemma_count_push(prev, data_action(next_req(seed, prev.len() as int), e.0, e.1), key);
    }
}

proof fn lemma_resend_subs_count(t: Seq<(KeyId, KeySlotSubscribe)>, seed: u64, key: KeyId)
    requires
        unique_keys(t),
    ensures
        count_sub(resend_subs(t, seed), key) == if has_key(t, key) && !slot_of(t, key).acked {
            1nat
        } else {
            0nat
        },
        count_data(resend_subs(t, seed), key) == 0,
    decreases t.len(),
{
    if t.len() > 0 {
        lemma_drop_last_table(t, key);
        lemma_resend_subs_count(t.drop_last(), seed, key);
        let prev = resend_subs(t.drop_last(), seed);
        let e = t.last();
        lemma_count_push(prev, sub_action(next_req(seed, prev.len() as int), e.0, e.1), key);
    }
}

proof fn lemma_sync_data_count(
    t: Seq<(KeyId, KeySlotData)>,
    seed: u64,
    now: u64,
    sync_each_ms: u64,
    key: KeyId,
)
    requires
        unique_keys(t),
    ensures
        count_data(sync_data(t, seed, now, sync_each_ms), key) == if has_key(t, key) && data_due(
            slot_of(t, key),
            now,
            sync_each_ms,
        ) && slot_of(t, key).value is Some {
            1nat
        } else {
            0nat
        },
        count_sub(sync_data(t, seed, now, sync_each_ms), key) == 0,
    decreases t.len(),
{
    if t.len() > 0 {
        lemma_drop_last_table(t, key);
        lemma_sync_data_count(t.drop_last(), seed, now, sync_each_ms, key);
        let prev = sync_data(t.drop_last(), seed, now, sync_each_ms);
        let e = t.last();
        let req = next_req(
            seed,
            due_count_data(t.drop_last(), now, sync_each_ms) as int,
        );
        lemma_count_push(prev, data_action(req, e.0, e.1), key);
    }
}

proof fn lemma_sync_subs_count(
    t: Seq<(KeyId, KeySlotSubscribe)>,
    seed: u64,
    now: u64,
    sync_each_ms: u64,
    key: KeyId,
)
    requires
        unique_keys(t),
    ensures
        count_sub(sync_subs(t, seed, now, sync_each_ms), key) == if has_key(t, key) && sub_due(
            slot_of(t, key),
            now,
            sync_each_ms,
        ) && slot_of(t, key).sub {
            1nat
        } else {
            0nat
        },
        count_data(sync_subs(t, seed, now, sync_each_ms), key) == 0,
    decreases t.len(),
{
    if t.len() > 0 {
        lemma_drop_last_table(t, key);
        lemma_sync_subs_count(t.drop_last(), seed, now, sync_each_ms, key);
        let prev = sync_subs(t.drop_last(), seed, now, sync_each_ms);
        let e = t.last();
        let req = next_req(
            seed,
            due_count_subs(t.drop_last(), now, sync_each_ms) as int,
        );
        lemma_count_push(prev, sub_action(req, e.0, e.1), key);
    }
}

/// What a tick says about one key: one `Set`/`Del` if its data slot is
/// unacknowledged, or acknowledged, due for a resync and holding a value;
/// none otherwise. Likewise one `Sub`/`Unsub` for its subscribe slot if that
/// is unacknowledged, or acknowledged, due and subscribed.
pub proof fn lemma_tick_actions_per_key(s: LocalStorageView, now: u64, key: KeyId)
    requires
        s.wf(),
    ensures
        count_data(tick_emitted(s, now), key) == if has_key(s.data, key) && (!slot_of(
            s.data,
            key,
        ).acked || (data_due(slot_of(s.data, key), now, s.sync_each_ms) && slot_of(
            s.data,
            key,
        ).value is Some)) {
            1nat
        } else {
            0nat
        },
        count_sub(tick_emitted(s, now), key) == if has_key(s.subscribe, key) && (!slot_of(
            s.subscribe,
            key,
        ).acked || (sub_due(slot_of(s.subscribe, key), now, s.sync_each_ms) && slot_of(
            s.subscribe,
            key,
        ).sub)) {
            1nat
        } else {
            0nat
        },
{
    let sync = s.sync_each_ms;
    let a1 = resend_data(s.data, s.req_id_seed);
    let s2 = next_req(s.req_id_seed, a1.len() as int);
    let a2 = resend_subs(s.subscribe, s2);
    let s3 = next_req(s2, a2.len() as int);
    let a3 = sync_data(s.data, s3, now, sync);
    let s4 = next_req(
        s3,
        due_count_data(s.data, now, sync) as int,
    );
    let a4 = sync_subs(s.subscribe, s4, now, sync);
    assert(tick_emitted(s, now) =~= a1 + a2 + a3 + a4);
    lemma_resend_data_count(s.data, s.req_id_seed, key);
    lemma_resend_subs_count(s.subscribe, s2, key);
    lemma_sync_data_count(s.data, s3, now, sync, key);
    lemma_sync_subs_count(s.subscribe, s4, now, sync, key);
    lemma_count_concat(a1, a2, key);
    lemma_count_concat(a1 + a2, a3, key);
    lemma_count_concat(a1 + a2 + a3, a4, key);
}

/// Without an acknowledgement, every tick restates each outstanding slot
/// exactly once: one `Set`/`Del` per unacknowledged data slot and one
/// `Sub`/`Unsub` per unacknowledged subscribe slot.
pub proof fn lemma_unacked_slots_resent_once(s: LocalStorageView, now: u64, key: KeyId)
    requires
        s.wf(),
    ensures
        has_key(s.data, key) && !slot_of(s.data, key).acked ==> count_data(tick_emitted(s, now), key)
            == 1,
        has_key(s.subscribe, key) && !slot_of(s.subscribe, key).acked ==> count_sub(
            tick_emitted(s, now),
            key,
        ) == 1,
{
    lemma_tick_actions_per_key(s, now, key);
}

/// An acknowledged data slot that is not yet due is left alone by a tick: the
/// tick emits nothing about the key's data and keeps the slot as it was, so
/// every later tick stays quiet until the slot falls due or the key changes.
pub proof fn lemma_acked_slot_quiet_until_due(s: LocalStorageView, now: u64, key: KeyId)
    requires
        s.wf(),
        has_key(s.data, key),
        slot_of(s.data, key).acked,
        !data_due(slot_of(s.data, key), now, s.sync_each_ms),
    ensures
        count_data(tick_emitted(s, now), key) == 0,
        s.after_tick(now).wf(),
        s.after_tick(now).sync_each_ms == s.sync_each_ms,
        has_key(s.after_tick(now).data, key),
        slot_of(s.after_tick(now).data, key) == slot_of(s.data, key),
{
    let sync = s.sync_each_ms;
    lemma_tick_actions_per_key(s, now, key);
    let keep = |x: KeySlotData| !data_due(x, now, sync) || x.value is Some;
    let upd = |x: KeySlotData|
        if data_due(x, now, sync) {
            KeySlotData { last_sync: now, ..x }
        } else {
            x
        };
    lemma_refresh_keeps(s.data, keep, upd, key);
    lemma_refresh_unique(s.data, keep, upd);
    lemma_refresh_unique(
        s.subscribe,
        |x: KeySlotSubscribe| !sub_due(x, now, sync) || x.sub,
        |x: KeySlotSubscribe|
            if sub_due(x, now, sync) {
                KeySlotSubscribe { last_sync: now, ..x }
            } else {
                x
            },
    );
    lemma_refresh_unique(s.gets, |d: u64| now < d, |d: u64| d);
}

/// After `set(key, value)` and the matching successful `SetAck` (same key,
/// the slot's version), a tick emits nothing about the key's data while
/// fewer than `sync_each_ms` have passed since the slot's last sync, which a
/// set resets to 0.
pub proof fn lemma_acked_set_stays_quiet(
    s: LocalStorageView,
    t_set: u64,
    key: KeyId,
    value: ValueType,
    ex: Option<u64>,
    from: NodeId,
    req: ReqId,
    now: u64,
)
    requires
        s.wf(),
        now < s.sync_each_ms,
    ensures
        ({
            let s1 = s.after_set(t_set, key, value, ex);
            let acked = s1.after_event(
                from,
                SimpleLocalEvent::SetAck(req, key, version_of(t_set, s.version_seed), true),
            );
            count_data(tick_emitted(acked, now), key) == 0
        }),
{
    let version = version_of(t_set, s.version_seed);
    let slot = KeySlotData { value: Some(value), ex, version, last_sync: 0, acked: false };
    let s1 = s.after_set(t_set, key, value, ex);
    lemma_put_unique(s.data, key, slot);
    let s2 = s1.after_event(from, SimpleLocalEvent::SetAck(req, key, version, true));
    let i = key_index(s1.data, key);
    let acked_slot = KeySlotData { acked: true, ..slot };
    lemma_update_slot_unique(s1.data, i, acked_slot);
    assert(s2.data == s1.data.update(i, (key, acked_slot)));
    lemma_key_index_unique(s2.data, i);
    assert(slot_of(s2.data, key) == acked_slot);
    lemma_tick_actions_per_key(s2, now, key);
}

} // verus!
