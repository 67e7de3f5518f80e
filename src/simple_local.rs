//! The local side of the replicated key-value store.
//!
//! The agent records what the application wants (values set or deleted,
//! keys subscribed or unsubscribed, pending reads) and turns it into events
//! for the remote storage, which are queued and drained with `pop_action`.
//! An intent is sent again on every tick until the remote acknowledges it;
//! acknowledged state is sent again every `sync_each_ms` so that the remote
//! side can recover it. Reads that get no answer in time expire on a tick.
//!
//! The agent owns no task and does no I/O. What the application must be told
//! (the answer to a read, a change of a subscribed key) is returned as a
//! `StorageCallback` by the call that learns it.
use std::collections::VecDeque;
use std::sync::Arc;
use vstd::prelude::*;

use crate::identity::NodeId;
use crate::kv_msg::{
    key_route, route_to_key, KeyId, KeySource, KeyVersion, LocalStorageAction, RemoteEventView,
    ReqId, RouteRule, SimpleLocalEvent, SimpleRemoteEvent, ValueType,
};
use crate::slot_table::{
    find_key, has_key, key_index, lemma_key_index_unique, lemma_put_unique,
    lemma_refresh_unique, lemma_update_slot_unique, put, refresh, remove_key, slot_of, table_put,
    table_remove, unique_keys,
};

verus! {

/// Source of the current time in milliseconds.
pub trait Timer {
    fn now_ms(&self) -> u64;
}

/// Wakes the host so that it drains the queued actions.
pub trait Awaker {
    fn notify(&self);
}

#[derive(Clone, Copy, Debug, PartialEq, Eq, Structural)]
pub enum SimpleKeyValueGetError {
    /// Reserved: the request could not be routed.
    NetworkError,
    Timeout,
}

pub type GetResult = Result<Option<(ValueType, KeyVersion, KeySource)>, SimpleKeyValueGetError>;

/// What the application is to be told.
#[derive(Debug, PartialEq, Eq)]
pub enum StorageCallback {
    /// The outcome of the read with this request id.
    Get(ReqId, GetResult),
    /// A subscribed key changed: its new value (`None` once deleted), version and source.
    Key(KeyId, Option<ValueType>, KeyVersion, KeySource),
}

/// Local state of one key that was set or deleted.
pub struct KeySlotData {
    pub value: Option<ValueType>,
    pub ex: Option<u64>,
    pub version: KeyVersion,
    pub last_sync: u64,
    pub acked: bool,
}

/// Local state of one subscription.
#[derive(Clone, Copy)]
pub struct KeySlotSubscribe {
    pub ex: Option<u64>,
    pub last_sync: u64,
    pub sub: bool,
    pub acked: bool,
}

pub type ActionView = (RemoteEventView, RouteRule);

/// Abstract state of the agent.
pub struct LocalStorageView {
    pub req_id_seed: u64,
    pub version_seed: u16,
    pub sync_each_ms: u64,
    /// Data slots by key, in order of first insertion.
    pub data: Seq<(KeyId, KeySlotData)>,
    /// Subscribe slots by key, in order of first insertion.
    pub subscribe: Seq<(KeyId, KeySlotSubscribe)>,
    /// Pending reads: request id and the time from which they have expired.
    pub gets: Seq<(ReqId, u64)>,
    /// Queued actions, oldest first.
    pub actions: Seq<ActionView>,
}

pub struct SimpleLocalStorage<T: Timer, A: Awaker> {
    req_id_seed: u64,
    version_seed: u16,
    timer: Arc<T>,
    sync_each_ms: u64,
    data: Vec<(KeyId, KeySlotData)>,
    subscribe: Vec<(KeyId, KeySlotSubscribe)>,
    output_events: VecDeque<LocalStorageAction>,
    get_queue: Vec<(ReqId, u64)>,
    awake_notify: Arc<A>,
}

/// The request id handed out `n` requests after `seed` (ids wrap around).
pub open spec fn next_req(seed: u64, n: int) -> u64 {
    ((seed + n) % 0x1_0000_0000_0000_0000int) as u64
}

pub open spec fn timeout_callback(req: ReqId) -> StorageCallback {
    StorageCallback::Get(req, Err(SimpleKeyValueGetError::Timeout))
}

/// The version made at time `now` from the 16-bit counter `seed`.
pub open spec fn version_of(now: u64, seed: u16) -> u64 {
    (now << 16u64) | (seed as u64)
}

pub open spec fn next_seed16(seed: u16) -> u16 {
    ((seed + 1) % 0x1_0000int) as u16
}

/// The event that restates a data slot: `Set` while it holds a value, `Del` once deleted.
pub open spec fn data_action(req: ReqId, key: KeyId, slot: KeySlotData) -> ActionView {
    match slot.value {
        Some(v) => (RemoteEventView::SetKey(req, key, v@, slot.version, slot.ex), key_route(key)),
        None => (RemoteEventView::Del(req, key, slot.version), key_route(key)),
    }
}

/// The event that restates a subscription: `Sub` while subscribed, else `Unsub`.
pub open spec fn sub_action(req: ReqId, key: KeyId, slot: KeySlotSubscribe) -> ActionView {
    if slot.sub {
        (RemoteEventView::Sub(req, key, slot.ex), key_route(key))
    } else {
        (RemoteEventView::Unsub(req, key), key_route(key))
    }
}

/// An acknowledged slot is due for a resync once `sync_each_ms` have passed since the last one.
pub open spec fn is_due(acked: bool, last_sync: u64, now: u64, sync_each_ms: u64) -> bool {
    acked && now - last_sync >= sync_each_ms
}

/// Phase one of a tick: the restatement of each data slot not yet acknowledged,
/// in table order, with request ids counted from `seed`.
pub open spec fn resend_data(t: Seq<(KeyId, KeySlotData)>, seed: u64) -> Seq<ActionView>
    decreases t.len(),
{
    if t.len() == 0 {
        Seq::empty()
    } else {
        let prev = resend_data(t.drop_last(), seed);
        let e = t.last();
        if !e.1.acked {
            prev.push(data_action(next_req(seed, prev.len() as int), e.0, e.1))
        } else {
            prev
        }
    }
}

/// Phase two: the restatement of each subscribe slot not yet acknowledged.
pub open spec fn resend_subs(t: Seq<(KeyId, KeySlotSubscribe)>, seed: u64) -> Seq<ActionView>
    decreases t.len(),
{
    if t.len() == 0 {
        Seq::empty()
    } else {
        let prev = resend_subs(t.drop_last(), seed);
        let e = t.last();
        if !e.1.acked {
            prev.push(sub_action(next_req(seed, prev.len() as int), e.0, e.1))
        } else {
            prev
        }
    }
}

pub open spec fn data_due(s: KeySlotData, now: u64, sync_each_ms: u64) -> bool {
    is_due(s.acked, s.last_sync, now, sync_each_ms)
}

pub open spec fn sub_due(s: KeySlotSubscribe, now: u64, sync_each_ms: u64) -> bool {
    is_due(s.acked, s.last_sync, now, sync_each_ms)
}

/// Number of data slots due for a resync; each takes one request id.
pub open spec fn due_count_data(t: Seq<(KeyId, KeySlotData)>, now: u64, sync_each_ms: u64) -> nat
    decreases t.len(),
{
    if t.len() == 0 {
        0
    } else {
        due_count_data(t.drop_last(), now, sync_each_ms) + if data_due(t.last().1, now, sync_each_ms) {
            1nat
        } else {
            0nat
        }
    }
}

pub open spec fn due_count_subs(t: Seq<(KeyId, KeySlotSubscribe)>, now: u64, sync_each_ms: u64) -> nat
    decreases t.len(),
{
    if t.len() == 0 {
        0
    } else {
        due_count_subs(t.drop_last(), now, sync_each_ms) + if sub_due(t.last().1, now, sync_each_ms) {
            1nat
        } else {
            0nat
        }
    }
}

/// Phase three: a `Set` for each due data slot that holds a value.
pub open spec fn sync_data(t: Seq<(KeyId, KeySlotData)>, seed: u64, now: u64, sync_each_ms: u64) -> Seq<
    ActionView,
>
    decreases t.len(),
{
    if t.len() == 0 {
        Seq::empty()
    } else {
        let prev = sync_data(t.drop_last(), seed, now, sync_each_ms);
        let e = t.last();
        if data_due(e.1, now, sync_each_ms) && e.1.value is Some {
            let req = next_req(seed, due_count_data(t.drop_last(), now, sync_each_ms) as int);
            prev.push(data_action(req, e.0, e.1))
        } else {
            prev
        }
    }
}

/// Phase four: a `Sub` for each due subscribe slot that is subscribed.
pub open spec fn sync_subs(
    t: Seq<(KeyId, KeySlotSubscribe)>,
    seed: u64,
    now: u64,
    sync_each_ms: u64,
) -> Seq<ActionView>
    decreases t.len(),
{
    if t.len() == 0 {
        Seq::empty()
    } else {
        let prev = sync_subs(t.drop_last(), seed, now, sync_each_ms);
        let e = t.last();
        if sub_due(e.1, now, sync_each_ms) && e.1.sub {
            let req = next_req(seed, due_count_subs(t.drop_last(), now, sync_each_ms) as int);
            prev.push(sub_action(req, e.0, e.1))
        } else {
            prev
        }
    }
}

/// The data table after a tick: due slots are stamped with `now`, and due
/// slots of deleted keys are dropped.
pub open spec fn synced_data(t: Seq<(KeyId, KeySlotData)>, now: u64, sync_each_ms: u64) -> Seq<
    (KeyId, KeySlotData),
> {
    refresh(
        t,
        |s: KeySlotData| !data_due(s, now, sync_each_ms) || s.value is Some,
        |s: KeySlotData|
            if data_due(s, now, sync_each_ms) {
                KeySlotData { last_sync: now, ..s }
            } else {
                s
            },
    )
}

/// The subscribe table after a tick: due slots are stamped with `now`, and
/// due slots that were unsubscribed are dropped.
pub open spec fn synced_subs(t: Seq<(KeyId, KeySlotSubscribe)>, now: u64, sync_each_ms: u64) -> Seq<
    (KeyId, KeySlotSubscribe),
> {
    refresh(
        t,
        |s: KeySlotSubscribe| !sub_due(s, now, sync_each_ms) || s.sub,
        |s: KeySlotSubscribe|
            if sub_due(s, now, sync_each_ms) {
                KeySlotSubscribe { last_sync: now, ..s }
            } else {
                s
            },
    )
}

/// Request ids of the reads that have expired at `now`, in table order.
pub open spec fn expired_gets(g: Seq<(ReqId, u64)>, now: u64) -> Seq<ReqId>
    decreases g.len(),
{
    if g.len() == 0 {
        Seq::empty()
    } else {
        let prev = expired_gets(g.drop_last(), now);
        if now >= g.last().1 {
            prev.push(g.last().0)
        } else {
            prev
        }
    }
}

/// The reads still pending at `now`.
pub open spec fn live_gets(g: Seq<(ReqId, u64)>, now: u64) -> Seq<(ReqId, u64)> {
    refresh(g, |d: u64| now < d, |d: u64| d)
}

impl LocalStorageView {
    pub open spec fn wf(self) -> bool {
        &&& unique_keys(self.data)
        &&& unique_keys(self.subscribe)
        &&& unique_keys(self.gets)
    }

    pub open spec fn after_set(self, now: u64, key: KeyId, value: ValueType, ex: Option<u64>) -> LocalStorageView {
        let req = self.req_id_seed;
        let version = version_of(now, self.version_seed);
        LocalStorageView {
            req_id_seed: next_req(req, 1),
            version_seed: next_seed16(self.version_seed),
            data: put(
                self.data,
                key,
                KeySlotData { value: Some(value), ex, version, last_sync: 0, acked: false },
            ),
            actions: self.actions.push(
                (RemoteEventView::SetKey(req, key, value@, version, ex), key_route(key)),
            ),
            ..self
        }
    }

    pub open spec fn after_get(self, now: u64, key: KeyId, timeout_ms: u64) -> LocalStorageView {
        let req = self.req_id_seed;
        let deadline = if now + timeout_ms > u64::MAX {
            u64::MAX
        } else {
            (now + timeout_ms) as u64
        };
        LocalStorageView {
            req_id_seed: next_req(req, 1),
            gets: put(self.gets, req, deadline),
            actions: self.actions.push((RemoteEventView::Get(req, key), key_route(key))),
            ..self
        }
    }

    pub open spec fn after_del(self, key: KeyId) -> LocalStorageView {
        if has_key(self.data, key) {
            let req = self.req_id_seed;
            let slot = slot_of(self.data, key);
            LocalStorageView {
                req_id_seed: next_req(req, 1),
                data: self.data.update(
                    key_index(self.data, key),
                    (key, KeySlotData { value: None, last_sync: 0, acked: false, ..slot }),
                ),
                actions: self.actions.push(
                    (RemoteEventView::Del(req, key, slot.version), key_route(key)),
                ),
                ..self
            }
        } else {
            self
        }
    }

    pub open spec fn after_subscribe(self, key: KeyId, ex: Option<u64>) -> LocalStorageView {
        if has_key(self.subscribe, key) {
            self
        } else {
            let req = self.req_id_seed;
            LocalStorageView {
                req_id_seed: next_req(req, 1),
                subscribe: self.subscribe.push(
                    (key, KeySlotSubscribe { ex, last_sync: 0, sub: true, acked: false }),
                ),
                actions: self.actions.push((RemoteEventView::Sub(req, key, ex), key_route(key))),
                ..self
            }
        }
    }

    pub open spec fn after_unsubscribe(self, key: KeyId) -> LocalStorageView {
        let req = self.req_id_seed;
        if has_key(self.subscribe, key) {
            let slot = slot_of(self.subscribe, key);
            LocalStorageView {
                req_id_seed: next_req(req, 1),
                subscribe: self.subscribe.update(
                    key_index(self.subscribe, key),
                    (key, KeySlotSubscribe { sub: false, last_sync: 0, acked: false, ..slot }),
                ),
                actions: self.actions.push((RemoteEventView::Unsub(req, key), key_route(key))),
                ..self
            }
        } else {
            LocalStorageView { req_id_seed: next_req(req, 1), ..self }
        }
    }

    /// The data table with the slot of `key` marked acknowledged.
    pub open spec fn data_acked(self, key: KeyId) -> Seq<(KeyId, KeySlotData)> {
        let slot = slot_of(self.data, key);
        self.data.update(key_index(self.data, key), (key, KeySlotData { acked: true, ..slot }))
    }

    /// The subscribe table with the slot of `key` marked acknowledged.
    pub open spec fn subscribe_acked(self, key: KeyId) -> Seq<(KeyId, KeySlotSubscribe)> {
        let slot = slot_of(self.subscribe, key);
        self.subscribe.update(
            key_index(self.subscribe, key),
            (key, KeySlotSubscribe { acked: true, ..slot }),
        )
    }

    /// State after an event from node `from`.
    pub open spec fn after_event(self, from: NodeId, event: SimpleLocalEvent) -> LocalStorageView {
        match event {
            SimpleLocalEvent::SetAck(_req, key, version, success) => {
                if success && has_key(self.data, key) && slot_of(self.data, key).version == version {
                    LocalStorageView { data: self.data_acked(key), ..self }
                } else {
                    self
                }
            },
            SimpleLocalEvent::GetAck(req, _key, _value) => {
                LocalStorageView { gets: remove_key(self.gets, req), ..self }
            },
            SimpleLocalEvent::DelAck(_req, key, version) => {
                if has_key(self.data, key) && (match version {
                    Some(v) => v <= slot_of(self.data, key).version,
                    None => true,
                }) {
                    LocalStorageView { data: self.data_acked(key), ..self }
                } else {
                    self
                }
            },
            SimpleLocalEvent::SubAck(_req, key) => {
                if has_key(self.subscribe, key) && slot_of(self.subscribe, key).sub {
                    LocalStorageView { subscribe: self.subscribe_acked(key), ..self }
                } else {
                    self
                }
            },
            SimpleLocalEvent::UnsubAck(_req, key, success) => {
                if success && has_key(self.subscribe, key) && !slot_of(self.subscribe, key).sub {
                    LocalStorageView { subscribe: self.subscribe_acked(key), ..self }
                } else {
                    self
                }
            },
            SimpleLocalEvent::OnKeySet(req, _key, _value, _version, _source) => {
                LocalStorageView {
                    actions: self.actions.push(
                        (RemoteEventView::OnKeySetAck(req), RouteRule::ToNode(from)),
                    ),
                    ..self
                }
            },
            SimpleLocalEvent::OnKeyDel(req, _key, _version, _source) => {
                LocalStorageView {
                    actions: self.actions.push(
                        (RemoteEventView::OnKeyDelAck(req), RouteRule::ToNode(from)),
                    ),
                    ..self
                }
            },
        }
    }

    /// What an event tells the application.
    pub open spec fn event_callback(self, event: SimpleLocalEvent) -> Option<StorageCallback> {
        match event {
            SimpleLocalEvent::GetAck(req, _key, value) => {
                if has_key(self.gets, req) {
                    Some(StorageCallback::Get(req, Ok(value)))
                } else {
                    None
                }
            },
            SimpleLocalEvent::OnKeySet(_req, key, value, version, source) => {
                if has_key(self.subscribe, key) && slot_of(self.subscribe, key).sub {
                    Some(StorageCallback::Key(key, Some(value), version, source))
                } else {
                    None
                }
            },
            SimpleLocalEvent::OnKeyDel(_req, key, version, source) => {
                if has_key(self.subscribe, key) && slot_of(self.subscribe, key).sub {
                    Some(StorageCallback::Key(key, None, version, source))
                } else {
                    None
                }
            },
            _ => None,
        }
    }

    /// State after a tick at time `now`.
    pub open spec fn after_tick(self, now: u64) -> LocalStorageView {
        let sync = self.sync_each_ms;
        let a1 = resend_data(self.data, self.req_id_seed);
        let s2 = next_req(self.req_id_seed, a1.len() as int);
        let a2 = resend_subs(self.subscribe, s2);
        let s3 = next_req(s2, a2.len() as int);
        let a3 = sync_data(self.data, s3, now, sync);
        let s4 = next_req(s3, due_count_data(self.data, now, sync) as int);
        let a4 = sync_subs(self.subscribe, s4, now, sync);
        let s5 = next_req(s4, due_count_subs(self.subscribe, now, sync) as int);
        LocalStorageView {
            req_id_seed: s5,
            data: synced_data(self.data, now, sync),
            subscribe: synced_subs(self.subscribe, now, sync),
            gets: live_gets(self.gets, now),
            actions: self.actions + a1 + a2 + a3 + a4,
            ..self
        }
    }

    /// Reads that a tick at `now` reports as timed out.
    pub open spec fn tick_timeouts(self, now: u64) -> Seq<ReqId> {
        expired_gets(self.gets, now)
    }

    /// What a tick at `now` tells the application: a timeout for each expired read.
    pub open spec fn tick_callbacks(self, now: u64) -> Seq<StorageCallback> {
        self.tick_timeouts(now).map_values(|r: ReqId| timeout_callback(r))
    }

    pub open spec fn after_pop(self) -> LocalStorageView {
        if self.actions.len() == 0 {
            self
        } else {
            LocalStorageView { actions: self.actions.drop_first(), ..self }
        }
    }
}

pub proof fn lemma_next_req_step(seed: u64, n: int)
    requires
        n >= 0,
    ensures
        next_req(next_req(seed, n), 1) == next_req(seed, n + 1),
{
    let m = 0x1_0000_0000_0000_0000int;
    let a = seed + n;
    assert(a >= 0);
    assert((a % m + 1) % m == (a + 1) % m) by {
        vstd::arithmetic::div_mod::lemma_add_mod_noop(a, 1, m);
        vstd::arithmetic::div_mod::lemma_small_mod(1nat, m as nat);
        vstd::arithmetic::div_mod::lemma_mod_twice(a + 1, m);
    }
}

pub proof fn lemma_next_req_zero(seed: u64)
    ensures
        next_req(seed, 0) == seed,
{
    vstd::arithmetic::div_mod::lemma_small_mod(seed as nat, 0x1_0000_0000_0000_0000nat);
}

fn data_slot_action(req: ReqId, key: KeyId, slot: &KeySlotData) -> (r: LocalStorageAction)
    ensures
        r@ == data_action(req, key, *slot),
{
    match &slot.value {
        Some(v) => {
            let sent = v.clone();
            proof {
                assert(sent@ =~= v@);
            }
            LocalStorageAction(SimpleRemoteEvent::SetKey(req, key, sent, slot.version, slot.ex), route_to_key(key))
        },
        None => LocalStorageAction(SimpleRemoteEvent::Del(req, key, slot.version), route_to_key(key)),
    }
}

fn sub_slot_action(req: ReqId, key: KeyId, slot: &KeySlotSubscribe) -> (r: LocalStorageAction)
    ensures
        r@ == sub_action(req, key, *slot),
{
    if slot.sub {
        LocalStorageAction(SimpleRemoteEvent::Sub(req, key, slot.ex), route_to_key(key))
    } else {
        LocalStorageAction(SimpleRemoteEvent::Unsub(req, key), route_to_key(key))
    }
}

impl<T: Timer, A: Awaker> View for SimpleLocalStorage<T, A> {
    type V = LocalStorageView;

    closed spec fn view(&self) -> LocalStorageView {
        LocalStorageView {
            req_id_seed: self.req_id_seed,
            version_seed: self.version_seed,
            sync_each_ms: self.sync_each_ms,
            data: self.data@,
            subscribe: self.subscribe@,
            gets: self.get_queue@,
            actions: self.output_events@.map_values(|a: LocalStorageAction| a@),
        }
    }
}

impl<T: Timer, A: Awaker> SimpleLocalStorage<T, A> {
    pub open spec fn wf(&self) -> bool {
        self@.wf()
    }

    /// A storage with nothing recorded; acknowledged state is restated every `sync_each_ms`.
    pub fn new(timer: Arc<T>, awake_notify: Arc<A>, sync_each_ms: u64) -> (r: Self)
        ensures
            r.wf(),
            r@.req_id_seed == 0,
            r@.version_seed == 0,
            r@.sync_each_ms == sync_each_ms,
            r@.data.len() == 0,
            r@.subscribe.len() == 0,
            r@.gets.len() == 0,
            r@.actions.len() == 0,
    {
        let r = SimpleLocalStorage {
            req_id_seed: 0,
            version_seed: 0,
            timer,
            sync_each_ms,
            data: Vec::new(),
            subscribe: Vec::new(),
            output_events: VecDeque::new(),
            get_queue: Vec::new(),
            awake_notify,
        };
        proof {
            assert(r@.actions =~= Seq::<ActionView>::empty());
        }
        r
    }

    fn gen_req_id(&mut self) -> (r: ReqId)
        ensures
            r == old(self)@.req_id_seed,
            final(self)@ == (LocalStorageView { req_id_seed: next_req(r, 1), ..old(self)@ }),
    {
        let r = self.req_id_seed;
        self.req_id_seed = self.req_id_seed.wrapping_add(1);
        r
    }

    fn gen_version(&mut self, now: u64) -> (r: KeyVersion)
        ensures
            r == version_of(now, old(self)@.version_seed),
            final(self)@ == (LocalStorageView {
                version_seed: next_seed16(old(self)@.version_seed),
                ..old(self)@
            }),
    {
        let r = (now << 16u64) | (self.version_seed as u64);
        self.version_seed = self.version_seed.wrapping_add(1);
        r
    }

    /// Queues one action.
    fn emit(&mut self, action: LocalStorageAction)
        ensures
            final(self)@ == (LocalStorageView {
                actions: old(self)@.actions.push(action@),
                ..old(self)@
            }),
    {
        let ghost before = self.output_events@;
        self.output_events.push_back(action);
        proof {
            assert(self.output_events@.map_values(|a: LocalStorageAction| a@) =~= before.map_values(
                |a: LocalStorageAction| a@,
            ).push(action@));
        }
    }

    /// Takes the oldest queued action.
    pub fn pop_action(&mut self) -> (r: Option<LocalStorageAction>)
        ensures
            final(self)@ == old(self)@.after_pop(),
            r is None <==> old(self)@.actions.len() == 0,
            r matches Some(a) ==> a@ == old(self)@.actions[0],
    {
        let ghost before = self.output_events@;
        let r = self.output_events.pop_front();
        proof {
            if before.len() > 0 {
                assert(self.output_events@.map_values(|a: LocalStorageAction| a@)
                    =~= before.map_values(|a: LocalStorageAction| a@).drop_first());
            }
        }
        r
    }

    /// Tick phase one.
    fn resend_unacked_data(&mut self)
        ensures
            final(self)@ == (LocalStorageView {
                req_id_seed: next_req(
                    old(self)@.req_id_seed,
                    resend_data(old(self)@.data, old(self)@.req_id_seed).len() as int,
                ),
                actions: old(self)@.actions + resend_data(old(self)@.data, old(self)@.req_id_seed),
                ..old(self)@
            }),
    {
        let ghost s0 = self@;
        proof {
            lemma_next_req_zero(s0.req_id_seed);
            assert(s0.data.take(0) =~= Seq::<(KeyId, KeySlotData)>::empty());
            assert(s0.actions + Seq::<ActionView>::empty() =~= s0.actions);
        }
        let n = self.data.len();
        let mut i: usize = 0;
        while i < n
            invariant
                n == s0.data.len(),
                i <= n,
                self@ == (LocalStorageView {
                    req_id_seed: next_req(
                        s0.req_id_seed,
                        resend_data(s0.data.take(i as int), s0.req_id_seed).len() as int,
                    ),
                    actions: s0.actions + resend_data(s0.data.take(i as int), s0.req_id_seed),
                    ..s0
                }),
            decreases n - i,
        {
            let ghost prev = resend_data(s0.data.take(i as int), s0.req_id_seed);
            proof {
                assert(s0.data.take(i as int + 1).drop_last() =~= s0.data.take(i as int));
            }
            if !self.data[i].1.acked {
                let req_id = self.gen_req_id();
                let action = data_slot_action(req_id, self.data[i].0, &self.data[i].1);
                self.emit(action);
                proof {
                    lemma_next_req_step(s0.req_id_seed, prev.len() as int);
                    assert(s0.actions + prev.push(action@) =~= (s0.actions + prev).push(action@));
                }
            }
            i = i + 1;
        }
        proof {
            assert(s0.data.take(n as int) =~= s0.data);
        }
    }

    /// Tick phase two.
    fn resend_unacked_subs(&mut self)
        ensures
            final(self)@ == (LocalStorageView {
                req_id_seed: next_req(
                    old(self)@.req_id_seed,
                    resend_subs(old(self)@.subscribe, old(self)@.req_id_seed).len() as int,
                ),
                actions: old(self)@.actions + resend_subs(old(self)@.subscribe, old(self)@.req_id_seed),
                ..old(self)@
            }),
    {
        let ghost s0 = self@;
        proof {
            lemma_next_req_zero(s0.req_id_seed);
            assert(s0.subscribe.take(0) =~= Seq::<(KeyId, KeySlotSubscribe)>::empty());
            assert(s0.actions + Seq::<ActionView>::empty() =~= s0.actions);
        }
        let n = self.subscribe.len();
        let mut i: usize = 0;
        while i < n
            invariant
                n == s0.subscribe.len(),
                i <= n,
                self@ == (LocalStorageView {
                    req_id_seed: next_req(
                        s0.req_id_seed,
                        resend_subs(s0.subscribe.take(i as int), s0.req_id_seed).len() as int,
                    ),
                    actions: s0.actions + resend_subs(s0.subscribe.take(i as int), s0.req_id_seed),
                    ..s0
                }),
            decreases n - i,
        {
            let ghost prev = resend_subs(s0.subscribe.take(i as int), s0.req_id_seed);
            proof {
                assert(s0.subscribe.take(i as int + 1).drop_last() =~= s0.subscribe.take(i as int));
            }
            if !self.subscribe[i].1.acked {
                let req_id = self.gen_req_id();
                let action = sub_slot_action(req_id, self.subscribe[i].0, &self.subscribe[i].1);
                self.emit(action);
                proof {
                    lemma_next_req_step(s0.req_id_seed, prev.len() as int);
                    assert(s0.actions + prev.push(action@) =~= (s0.actions + prev).push(action@));
                }
            }
            i = i + 1;
        }
        proof {
            assert(s0.subscribe.take(n as int) =~= s0.subscribe);
        }
    }

    /// Tick phase three: resync due data slots and drop those of deleted keys.
    fn sync_acked_data(&mut self, now: u64)
        ensures
            final(self)@ == (LocalStorageView {
                req_id_seed: next_req(
                    old(self)@.req_id_seed,
                    due_count_data(old(self)@.data, now, old(self)@.sync_each_ms) as int,
                ),
                data: synced_data(old(self)@.data, now, old(self)@.sync_each_ms),
                actions: old(self)@.actions + sync_data(
                    old(self)@.data,
                    old(self)@.req_id_seed,
                    now,
                    old(self)@.sync_each_ms,
                ),
                ..old(self)@
            }),
    {
        let ghost s0 = self@;
        let ghost sync = s0.sync_each_ms;
        proof {
            lemma_next_req_zero(s0.req_id_seed);
            assert(s0.data.take(0) =~= Seq::<(KeyId, KeySlotData)>::empty());
            assert(s0.actions + Seq::<ActionView>::empty() =~= s0.actions);
            assert(synced_data(s0.data.take(0), now, sync) + s0.data.skip(0) =~= s0.data);
        }
        let ghost mut j: int = 0;
        let mut i: usize = 0;
        while i < self.data.len()
            invariant
                0 <= j <= s0.data.len(),
                sync == s0.sync_each_ms,
                i == synced_data(s0.data.take(j), now, sync).len(),
                self@ == (LocalStorageView {
                    req_id_seed: next_req(s0.req_id_seed, due_count_data(s0.data.take(j), now, sync) as int),
                    data: synced_data(s0.data.take(j), now, sync) + s0.data.skip(j),
                    actions: s0.actions + sync_data(s0.data.take(j), s0.req_id_seed, now, sync),
                    ..s0
                }),
            decreases s0.data.len() - j,
        {
            let ghost done = synced_data(s0.data.take(j), now, sync);
            let ghost acts = sync_data(s0.data.take(j), s0.req_id_seed, now, sync);
            let ghost cnt = due_count_data(s0.data.take(j), now, sync);
            let ghost e = s0.data[j];
            proof {
                assert(s0.data.take(j + 1).drop_last() =~= s0.data.take(j));
                assert(s0.data.take(j + 1).last() == e);
                assert(self.data@[i as int] == e);
                assert(s0.data.skip(j).drop_first() =~= s0.data.skip(j + 1));
            }
            let sync_each_ms = self.sync_each_ms;
            let last_sync = self.data[i].1.last_sync;
            let due = self.data[i].1.acked && now >= last_sync && now - last_sync >= sync_each_ms;
            if due {
                let req_id = self.gen_req_id();
                if self.data[i].1.value.is_some() {
                    let action = data_slot_action(req_id, self.data[i].0, &self.data[i].1);
                    self.emit(action);
                    self.data[i].1.last_sync = now;
                    proof {
                        assert(s0.actions + acts.push(action@) =~= (s0.actions + acts).push(action@));
                        assert(self.data@ =~= done.push((e.0, KeySlotData { last_sync: now, ..e.1 }))
                            + s0.data.skip(j + 1));
                    }
                    i = i + 1;
                } else {
                    let _gone = self.data.remove(i);
                    proof {
                        assert(self.data@ =~= done + s0.data.skip(j + 1));
                    }
                }
                proof {
                    lemma_next_req_step(s0.req_id_seed, cnt as int);
                }
            } else {
                proof {
                    assert(self.data@ =~= done.push(e) + s0.data.skip(j + 1));
                }
                i = i + 1;
            }
            proof {
                j = j + 1;
            }
        }
        proof {
            assert(s0.data.take(j) =~= s0.data);
        }
    }

    /// Tick phase four: resync due subscriptions and drop those that ended.
    fn sync_acked_subs(&mut self, now: u64)
        ensures
            final(self)@ == (LocalStorageView {
                req_id_seed: next_req(
                    old(self)@.req_id_seed,
                    due_count_subs(old(self)@.subscribe, now, old(self)@.sync_each_ms) as int,
                ),
                subscribe: synced_subs(old(self)@.subscribe, now, old(self)@.sync_each_ms),
                actions: old(self)@.actions + sync_subs(
                    old(self)@.subscribe,
                    old(self)@.req_id_seed,
                    now,
                    old(self)@.sync_each_ms,
                ),
                ..old(self)@
            }),
    {
        let ghost s0 = self@;
        let ghost sync = s0.sync_each_ms;
        proof {
            lemma_next_req_zero(s0.req_id_seed);
            assert(s0.subscribe.take(0) =~= Seq::<(KeyId, KeySlotSubscribe)>::empty());
            assert(s0.actions + Seq::<ActionView>::empty() =~= s0.actions);
            assert(synced_subs(s0.subscribe.take(0), now, sync) + s0.subscribe.skip(0) =~= s0.subscribe);
        }
        let ghost mut j: int = 0;
        let mut i: usize = 0;
        while i < self.subscribe.len()
            invariant
                0 <= j <= s0.subscribe.len(),
                sync == s0.sync_each_ms,
                i == synced_subs(s0.subscribe.take(j), now, sync).len(),
                self@ == (LocalStorageView {
                    req_id_seed: next_req(
                        s0.req_id_seed,
                        due_count_subs(s0.subscribe.take(j), now, sync) as int,
                    ),
                    subscribe: synced_subs(s0.subscribe.take(j), now, sync) + s0.subscribe.skip(j),
                    actions: s0.actions + sync_subs(s0.subscribe.take(j), s0.req_id_seed, now, sync),
                    ..s0
                }),
            decreases s0.subscribe.len() - j,
        {
            let ghost done = synced_subs(s0.subscribe.take(j), now, sync);
            let ghost acts = sync_subs(s0.subscribe.take(j), s0.req_id_seed, now, sync);
            let ghost cnt = due_count_subs(s0.subscribe.take(j), now, sync);
            let ghost e = s0.subscribe[j];
            proof {
                assert(s0.subscribe.take(j + 1).drop_last() =~= s0.subscribe.take(j));
                assert(s0.subscribe.take(j + 1).last() == e);
                assert(self.subscribe@[i as int] == e);
                assert(s0.subscribe.skip(j).drop_first() =~= s0.subscribe.skip(j + 1));
            }
            let sync_each_ms = self.sync_each_ms;
            let last_sync = self.subscribe[i].1.last_sync;
            let due = self.subscribe[i].1.acked && now >= last_sync && now - last_sync >= sync_each_ms;
            if due {
                let req_id = self.gen_req_id();
                if self.subscribe[i].1.sub {
                    let action = sub_slot_action(req_id, self.subscribe[i].0, &self.subscribe[i].1);
                    self.emit(action);
                    self.subscribe[i].1.last_sync = now;
                    proof {
                        assert(s0.actions + acts.push(action@) =~= (s0.actions + acts).push(action@));
                        assert(self.subscribe@ =~= done.push(
                            (e.0, KeySlotSubscribe { last_sync: now, ..e.1 }),
                        ) + s0.subscribe.skip(j + 1));
                    }
                    i = i + 1;
                } else {
                    let _gone = self.subscribe.remove(i);
                    proof {
                        assert(self.subscribe@ =~= done + s0.subscribe.skip(j + 1));
                    }
                }
                proof {
                    lemma_next_req_step(s0.req_id_seed, cnt as int);
                }
            } else {
                proof {
                    assert(self.subscribe@ =~= done.push(e) + s0.subscribe.skip(j + 1));
                }
                i = i + 1;
            }
            proof {
                j = j + 1;
            }
        }
        proof {
            assert(s0.subscribe.take(j) =~= s0.subscribe);
        }
    }

    /// Tick phase five: drop the reads that expired at `now` and report their timeouts.
    fn expire_gets(&mut self, now: u64) -> (r: Vec<StorageCallback>)
        ensures
            final(self)@ == (LocalStorageView { gets: live_gets(old(self)@.gets, now), ..old(self)@ }),
            r@ == old(self)@.tick_callbacks(now),
    {
        let ghost s0 = self@;
        proof {
            assert(s0.gets.take(0) =~= Seq::<(ReqId, u64)>::empty());
            assert(expired_gets(s0.gets.take(0), now).map_values(|r: ReqId| timeout_callback(r))
                =~= Seq::<StorageCallback>::empty());
            assert(live_gets(s0.gets.take(0), now) + s0.gets.skip(0) =~= s0.gets);
        }
        let mut expired: Vec<StorageCallback> = Vec::new();
        let ghost mut j: int = 0;
        let mut i: usize = 0;
        while i < self.get_queue.len()
            invariant
                0 <= j <= s0.gets.len(),
                i == live_gets(s0.gets.take(j), now).len(),
                expired@ == expired_gets(s0.gets.take(j), now).map_values(|r: ReqId| timeout_callback(r)),
                self@ == (LocalStorageView {
                    gets: live_gets(s0.gets.take(j), now) + s0.gets.skip(j),
                    ..s0
                }),
            decreases s0.gets.len() - j,
        {
            let ghost done = live_gets(s0.gets.take(j), now);
            let ghost e = s0.gets[j];
            proof {
                assert(s0.gets.take(j + 1).drop_last() =~= s0.gets.take(j));
                assert(s0.gets.take(j + 1).last() == e);
                assert(self.get_queue@[i as int] == e);
                assert(s0.gets.skip(j).drop_first() =~= s0.gets.skip(j + 1));
            }
            if now >= self.get_queue[i].1 {
                let gone = self.get_queue.remove(i);
                expired.push(StorageCallback::Get(gone.0, Err(SimpleKeyValueGetError::Timeout)));
                proof {
                    let prev = expired_gets(s0.gets.take(j), now);
                    assert(prev.push(gone.0).map_values(|r: ReqId| timeout_callback(r)) =~= prev.map_values(
                        |r: ReqId| timeout_callback(r),
                    ).push(timeout_callback(gone.0)));
                }
                proof {
                    assert(self.get_queue@ =~= done + s0.gets.skip(j + 1));
                }
            } else {
                proof {
                    assert(self.get_queue@ =~= done.push(e) + s0.gets.skip(j + 1));
                }
                i = i + 1;
            }
            proof {
                j = j + 1;
            }
        }
        proof {
            assert(s0.gets.take(j) =~= s0.gets);
        }
        expired
    }

    /// Records `value` under `key` at time `now` with a fresh version and queues its `Set`.
    pub fn set_at(&mut self, now: u64, key: KeyId, value: ValueType, ex: Option<u64>)
        requires
            old(self).wf(),
        ensures
            final(self).wf(),
            final(self)@ == old(self)@.after_set(now, key, value, ex),
    {
        let req_id = self.gen_req_id();
        let version = self.gen_version(now);
        let sent = value.clone();
        proof {
            assert(sent@ =~= value@);
        }
        let slot = KeySlotData { value: Some(value), ex, version, last_sync: 0, acked: false };
        table_put(&mut self.data, key, slot);
        self.emit(
            LocalStorageAction(SimpleRemoteEvent::SetKey(req_id, key, sent, version, ex), route_to_key(key)),
        );
    }

    /// Starts a read of `key` at time `now` that expires `timeout_ms` later; returns its request id.
    pub fn get_at(&mut self, now: u64, key: KeyId, timeout_ms: u64) -> (r: ReqId)
        requires
            old(self).wf(),
        ensures
            final(self).wf(),
            r == old(self)@.req_id_seed,
            final(self)@ == old(self)@.after_get(now, key, timeout_ms),
    {
        let req_id = self.gen_req_id();
        let deadline = now.saturating_add(timeout_ms);
        table_put(&mut self.get_queue, req_id, deadline);
        self.emit(LocalStorageAction(SimpleRemoteEvent::Get(req_id, key), route_to_key(key)));
        req_id
    }

    /// Restates unacknowledged intents, resyncs acknowledged ones that are due,
    /// drops finished slots and expires reads, all at time `now`; returns a
    /// timeout for each read that expired.
    pub fn tick_at(&mut self, now: u64) -> (timed_out: Vec<StorageCallback>)
        requires
            old(self).wf(),
        ensures
            final(self).wf(),
            final(self)@ == old(self)@.after_tick(now),
            timed_out@ == old(self)@.tick_callbacks(now),
    {
        let ghost s0 = self@;
        self.resend_unacked_data();
        self.resend_unacked_subs();
        self.sync_acked_data(now);
        self.sync_acked_subs(now);
        let timed_out = self.expire_gets(now);
        proof {
            let sync = s0.sync_each_ms;
            let a1 = resend_data(s0.data, s0.req_id_seed);
            let s2 = next_req(s0.req_id_seed, a1.len() as int);
            let a2 = resend_subs(s0.subscribe, s2);
            let s3 = next_req(s2, a2.len() as int);
            let a3 = sync_data(s0.data, s3, now, sync);
            let s4 = next_req(s3, due_count_data(s0.data, now, sync) as int);
            let a4 = sync_subs(s0.subscribe, s4, now, sync);
            assert(s0.actions + a1 + a2 + a3 + a4 =~= s0.after_tick(now).actions);
            lemma_refresh_unique(
                s0.data,
                |s: KeySlotData| !data_due(s, now, sync) || s.value is Some,
                |s: KeySlotData|
                    if data_due(s, now, sync) {
                        KeySlotData { last_sync: now, ..s }
                    } else {
                        s
                    },
            );
            lemma_refresh_unique(
                s0.subscribe,
                |s: KeySlotSubscribe| !sub_due(s, now, sync) || s.sub,
                |s: KeySlotSubscribe|
                    if sub_due(s, now, sync) {
                        KeySlotSubscribe { last_sync: now, ..s }
                    } else {
                        s
                    },
            );
            lemma_refresh_unique(s0.gets, |d: u64| now < d, |d: u64| d);
        }
        timed_out
    }

    /// `tick_at` at the timer's current time.
    pub fn tick(&mut self) -> (timed_out: Vec<StorageCallback>)
        requires
            old(self).wf(),
        ensures
            final(self).wf(),
            exists|now: u64|
                final(self)@ == old(self)@.after_tick(now) && timed_out@ == old(self)@.tick_callbacks(
                    now,
                ),
    {
        let now = self.timer.now_ms();
        self.tick_at(now)
    }

    /// `set_at` at the timer's current time; wakes the host.
    pub fn set(&mut self, key: KeyId, value: ValueType, ex: Option<u64>)
        requires
            old(self).wf(),
        ensures
            final(self).wf(),
            exists|now: u64| final(self)@ == old(self)@.after_set(now, key, value, ex),
    {
        let now = self.timer.now_ms();
        self.set_at(now, key, value, ex);
        self.awake_notify.notify();
    }

    /// `get_at` at the timer's current time; wakes the host.
    pub fn get(&mut self, key: KeyId, timeout_ms: u64) -> (r: ReqId)
        requires
            old(self).wf(),
        ensures
            final(self).wf(),
            r == old(self)@.req_id_seed,
            exists|now: u64| final(self)@ == old(self)@.after_get(now, key, timeout_ms),
    {
        let now = self.timer.now_ms();
        let r = self.get_at(now, key, timeout_ms);
        self.awake_notify.notify();
        r
    }

    /// Marks `key` deleted and queues its `Del`; nothing happens for a key never set.
    pub fn del(&mut self, key: KeyId)
        requires
            old(self).wf(),
        ensures
            final(self).wf(),
            final(self)@ == old(self)@.after_del(key),
    {
        match find_key(&self.data, key) {
            Some(i) => {
                let req_id = self.gen_req_id();
                let version = self.data[i].1.version;
                proof {
                    let s = self.data@[i as int].1;
                    lemma_update_slot_unique(
                        self.data@,
                        i as int,
                        KeySlotData { value: None, last_sync: 0, acked: false, ..s },
                    );
                }
                self.data[i].1.value = None;
                self.data[i].1.last_sync = 0;
                self.data[i].1.acked = false;
                self.emit(LocalStorageAction(SimpleRemoteEvent::Del(req_id, key, version), route_to_key(key)));
                proof {
                    assert(self.data@ =~= old(self)@.after_del(key).data);
                }
                self.awake_notify.notify();
            },
            None => {},
        }
    }

    /// Subscribes to `key` and queues its `Sub`; a key that still has a
    /// subscribe slot is left as it is, and `false` returned.
    pub fn subscribe(&mut self, key: KeyId, ex: Option<u64>) -> (accepted: bool)
        requires
            old(self).wf(),
        ensures
            final(self).wf(),
            final(self)@ == old(self)@.after_subscribe(key, ex),
            accepted == !has_key(old(self)@.subscribe, key),
    {
        if find_key(&self.subscribe, key).is_some() {
            return false;
        }
        let req_id = self.gen_req_id();
        let slot = KeySlotSubscribe { ex, last_sync: 0, sub: true, acked: false };
        proof {
            lemma_put_unique(self.subscribe@, key, slot);
        }
        self.subscribe.push((key, slot));
        self.emit(LocalStorageAction(SimpleRemoteEvent::Sub(req_id, key, ex), route_to_key(key)));
        self.awake_notify.notify();
        true
    }

    fn ack_data_at(&mut self, i: usize)
        requires
            old(self).wf(),
            i < old(self)@.data.len(),
        ensures
            final(self).wf(),
            final(self)@ == (LocalStorageView {
                data: old(self)@.data_acked(old(self)@.data[i as int].0),
                ..old(self)@
            }),
    {
        proof {
            let e = self.data@[i as int];
            lemma_key_index_unique(self.data@, i as int);
            lemma_update_slot_unique(self.data@, i as int, KeySlotData { acked: true, ..e.1 });
        }
        self.data[i].1.acked = true;
        proof {
            assert(self.data@ =~= old(self)@.data_acked(old(self)@.data[i as int].0));
        }
    }

    fn ack_subscribe_at(&mut self, i: usize)
        requires
            old(self).wf(),
            i < old(self)@.subscribe.len(),
        ensures
            final(self).wf(),
            final(self)@ == (LocalStorageView {
                subscribe: old(self)@.subscribe_acked(old(self)@.subscribe[i as int].0),
                ..old(self)@
            }),
    {
        proof {
            let e = self.subscribe@[i as int];
            lemma_key_index_unique(self.subscribe@, i as int);
            lemma_update_slot_unique(self.subscribe@, i as int, KeySlotSubscribe { acked: true, ..e.1 });
        }
        self.subscribe[i].1.acked = true;
        proof {
            assert(self.subscribe@ =~= old(self)@.subscribe_acked(old(self)@.subscribe[i as int].0));
        }
    }

    /// Whether `key` has a subscribe slot that is subscribed.
    fn is_subscribed(&self, key: KeyId) -> (r: bool)
        requires
            self.wf(),
        ensures
            r == (has_key(self@.subscribe, key) && slot_of(self@.subscribe, key).sub),
    {
        match find_key(&self.subscribe, key) {
            Some(i) => self.subscribe[i].1.sub,
            None => false,
        }
    }

    /// Handles an event from the remote storage, received from node `from`.
    pub fn on_event(&mut self, from: NodeId, event: SimpleLocalEvent) -> (r: Option<StorageCallback>)
        requires
            old(self).wf(),
        ensures
            final(self).wf(),
            final(self)@ == old(self)@.after_event(from, event),
            r == old(self)@.event_callback(event),
    {
        match event {
            SimpleLocalEvent::SetAck(_req_id, key, version, success) => {
                if success {
                    match find_key(&self.data, key) {
                        Some(i) => {
                            if self.data[i].1.version == version {
                                self.ack_data_at(i);
                            }
                        },
                        None => {},
                    }
                }
                None
            },
            SimpleLocalEvent::GetAck(req_id, _key, value) => {
                match table_remove(&mut self.get_queue, req_id) {
                    Some(_) => Some(StorageCallback::Get(req_id, Ok(value))),
                    None => None,
                }
            },
            SimpleLocalEvent::DelAck(_req_id, key, version) => {
                match find_key(&self.data, key) {
                    Some(i) => {
                        let acked = match version {
                            Some(deleted_version) => self.data[i].1.version >= deleted_version,
                            None => true,
                        };
                        if acked {
                            self.ack_data_at(i);
                        }
                    },
                    None => {},
                }
                None
            },
            SimpleLocalEvent::SubAck(_req_id, key) => {
                match find_key(&self.subscribe, key) {
                    Some(i) => {
                        if self.subscribe[i].1.sub {
                            self.ack_subscribe_at(i);
                        }
                    },
                    None => {},
                }
                None
            },
            SimpleLocalEvent::UnsubAck(_req_id, key, success) => {
                if success {
                    match find_key(&self.subscribe, key) {
                        Some(i) => {
                            if !self.subscribe[i].1.sub {
                                self.ack_subscribe_at(i);
                            }
                        },
                        None => {},
                    }
                }
                None
            },
            SimpleLocalEvent::OnKeySet(req_id, key, value, version, source) => {
                self.emit(LocalStorageAction(SimpleRemoteEvent::OnKeySetAck(req_id), RouteRule::ToNode(from)));
                if self.is_subscribed(key) {
                    Some(StorageCallback::Key(key, Some(value), version, source))
                } else {
                    None
                }
            },
            SimpleLocalEvent::OnKeyDel(req_id, key, version, source) => {
                self.emit(LocalStorageAction(SimpleRemoteEvent::OnKeyDelAck(req_id), RouteRule::ToNode(from)));
                if self.is_subscribed(key) {
                    Some(StorageCallback::Key(key, None, version, source))
                } else {
                    None
                }
            },
        }
    }

    /// Ends the subscription to `key` and queues its `Unsub`.
    pub fn unsubscribe(&mut self, key: KeyId)
        requires
            old(self).wf(),
        ensures
            final(self).wf(),
            final(self)@ == old(self)@.after_unsubscribe(key),
    {
        let req_id = self.gen_req_id();
        match find_key(&self.subscribe, key) {
            Some(i) => {
                proof {
                    let s = self.subscribe@[i as int].1;
                    lemma_update_slot_unique(
                        self.subscribe@,
                        i as int,
                        KeySlotSubscribe { sub: false, last_sync: 0, acked: false, ..s },
                    );
                }
                self.subscribe[i].1.sub = false;
                self.subscribe[i].1.last_sync = 0;
                self.subscribe[i].1.acked = false;
                self.emit(LocalStorageAction(SimpleRemoteEvent::Unsub(req_id, key), route_to_key(key)));
                proof {
                    assert(self.subscribe@ =~= old(self)@.after_unsubscribe(key).subscribe);
                }
                self.awake_notify.notify();
            },
            None => {},
        }
    }
}

} // verus!
