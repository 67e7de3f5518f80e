use std::sync::atomic::{AtomicU64, AtomicUsize, Ordering};
use std::sync::Arc;

use bluesea_net::kv_msg::{LocalStorageAction, RouteRule, SimpleLocalEvent, SimpleRemoteEvent};
use bluesea_net::simple_local::{Awaker, SimpleKeyValueGetError, SimpleLocalStorage, StorageCallback, Timer};

#[derive(Default)]
struct MockTimer {
    now: AtomicU64,
}

impl MockTimer {
    fn fake(&self, now: u64) {
        self.now.store(now, Ordering::SeqCst);
    }
}

impl Timer for MockTimer {
    fn now_ms(&self) -> u64 {
        self.now.load(Ordering::SeqCst)
    }
}

#[derive(Default)]
struct MockAwaker {
    count: AtomicUsize,
}

impl MockAwaker {
    fn pop_awake_count(&self) -> usize {
        self.count.swap(0, Ordering::SeqCst)
    }
}

impl Awaker for MockAwaker {
    fn notify(&self) {
        self.count.fetch_add(1, Ordering::SeqCst);
    }
}

fn storage_with(timer: &Arc<MockTimer>, awaker: &Arc<MockAwaker>) -> SimpleLocalStorage<MockTimer, MockAwaker> {
    SimpleLocalStorage::new(timer.clone(), awaker.clone(), 10000)
}

#[test]
fn set_should_mark_after_ack() {
    let timer = Arc::new(MockTimer::default());
    let awake_notify = Arc::new(MockAwaker::default());
    let mut storage = SimpleLocalStorage::new(timer.clone(), awake_notify.clone(), 10000);

    storage.set(1, vec![1], None);
    assert_eq!(awake_notify.pop_awake_count(), 1);

    assert_eq!(storage.pop_action(), Some(LocalStorageAction(SimpleRemoteEvent::SetKey(0, 1, vec![1], 0, None), RouteRule::ToKey(1))));
    assert_eq!(storage.pop_action(), None);

    storage.on_event(2, SimpleLocalEvent::SetAck(0, 1, 0, true));

    storage.tick();
    assert_eq!(storage.pop_action(), None);
}

#[test]
fn set_should_generate_new_version() {
    let timer = Arc::new(MockTimer::default());
    let awake_notify = Arc::new(MockAwaker::default());
    let mut storage = SimpleLocalStorage::new(timer.clone(), awake_notify, 10000);

    storage.set(1, vec![1], None);
    assert!(storage.pop_action().is_some());
    assert!(storage.pop_action().is_none());

    timer.fake(1000);

    storage.set(1, vec![2], None);
    assert_eq!(
        storage.pop_action(),
        Some(LocalStorageAction(SimpleRemoteEvent::SetKey(1, 1, vec![2], 65536001, None), RouteRule::ToKey(1)))
    );
    assert_eq!(storage.pop_action(), None);

    storage.on_event(2, SimpleLocalEvent::SetAck(1, 1, 65536001, true));

    storage.tick();
    assert_eq!(storage.pop_action(), None);
}

#[test]
fn set_should_retry_after_tick_and_not_received_ack() {
    let timer = Arc::new(MockTimer::default());
    let awake_notify = Arc::new(MockAwaker::default());
    let mut storage = SimpleLocalStorage::new(timer.clone(), awake_notify, 10000);

    storage.set(1, vec![1], None);
    assert!(storage.pop_action().is_some());
    assert!(storage.pop_action().is_none());

    storage.tick();
    assert_eq!(storage.pop_action(), Some(LocalStorageAction(SimpleRemoteEvent::SetKey(1, 1, vec![1], 0, None), RouteRule::ToKey(1))));
    assert_eq!(storage.pop_action(), None);
}

#[test]
fn set_acked_should_resend_each_sync_each_ms() {
    let timer = Arc::new(MockTimer::default());
    let awake_notify = Arc::new(MockAwaker::default());
    let mut storage = SimpleLocalStorage::new(timer.clone(), awake_notify, 10000);

    storage.set(1, vec![1], None);
    assert!(storage.pop_action().is_some());
    assert!(storage.pop_action().is_none());

    storage.on_event(2, SimpleLocalEvent::SetAck(0, 1, 0, true));

    storage.tick();
    assert_eq!(storage.pop_action(), None);

    timer.fake(10001);
    storage.tick();
    assert_eq!(storage.pop_action(), Some(LocalStorageAction(SimpleRemoteEvent::SetKey(1, 1, vec![1], 0, None), RouteRule::ToKey(1))));
}

#[test]
fn del_should_mark_after_ack() {
    let timer = Arc::new(MockTimer::default());
    let awake_notify = Arc::new(MockAwaker::default());
    let mut storage = SimpleLocalStorage::new(timer.clone(), awake_notify.clone(), 10000);

    storage.set(1, vec![1], None);
    assert!(storage.pop_action().is_some());
    assert!(storage.pop_action().is_none());
    storage.on_event(2, SimpleLocalEvent::SetAck(0, 1, 0, true));

    storage.del(1);
    assert_eq!(awake_notify.pop_awake_count(), 2);
    assert_eq!(storage.pop_action(), Some(LocalStorageAction(SimpleRemoteEvent::Del(1, 1, 0), RouteRule::ToKey(1))));
    assert_eq!(storage.pop_action(), None);

    storage.on_event(2, SimpleLocalEvent::DelAck(0, 1, Some(0)));
    storage.tick();
    assert_eq!(storage.pop_action(), None);
}

#[test]
fn del_should_mark_after_ack_older() {
    let timer = Arc::new(MockTimer::default());
    let awake_notify = Arc::new(MockAwaker::default());
    let mut storage = SimpleLocalStorage::new(timer.clone(), awake_notify.clone(), 10000);

    storage.set(1, vec![1], None);
    assert!(storage.pop_action().is_some());
    assert!(storage.pop_action().is_none());
    storage.on_event(2, SimpleLocalEvent::SetAck(0, 1, 0, true));

    timer.fake(1000);

    storage.set(1, vec![2], None);
    assert!(storage.pop_action().is_some());
    assert!(storage.pop_action().is_none());
    storage.on_event(2, SimpleLocalEvent::SetAck(0, 1, 0, true));

    storage.del(1);
    assert_eq!(storage.pop_action(), Some(LocalStorageAction(SimpleRemoteEvent::Del(2, 1, 65536001), RouteRule::ToKey(1))));
    assert_eq!(storage.pop_action(), None);

    storage.on_event(2, SimpleLocalEvent::DelAck(2, 1, Some(65536001)));
    storage.tick();
    assert_eq!(storage.pop_action(), None);
}

#[test]
fn del_should_retry_after_tick_and_not_received_ack() {
    let timer = Arc::new(MockTimer::default());
    let awake_notify = Arc::new(MockAwaker::default());
    let mut storage = SimpleLocalStorage::new(timer.clone(), awake_notify.clone(), 10000);

    storage.set(1, vec![1], None);
    assert!(storage.pop_action().is_some());
    assert!(storage.pop_action().is_none());
    storage.on_event(2, SimpleLocalEvent::SetAck(0, 1, 0, true));

    storage.del(1);
    assert_eq!(storage.pop_action(), Some(LocalStorageAction(SimpleRemoteEvent::Del(1, 1, 0), RouteRule::ToKey(1))));
    assert_eq!(storage.pop_action(), None);

    storage.tick();
    assert_eq!(storage.pop_action(), Some(LocalStorageAction(SimpleRemoteEvent::Del(2, 1, 0), RouteRule::ToKey(1))));
}

#[test]
fn sub_should_mark_after_ack() {
    let timer = Arc::new(MockTimer::default());
    let awake_notify = Arc::new(MockAwaker::default());
    let mut storage = SimpleLocalStorage::new(timer.clone(), awake_notify.clone(), 10000);

    storage.subscribe(1, None);
    assert_eq!(awake_notify.pop_awake_count(), 1);
    assert_eq!(storage.pop_action(), Some(LocalStorageAction(SimpleRemoteEvent::Sub(0, 1, None), RouteRule::ToKey(1))));
    assert_eq!(storage.pop_action(), None);

    storage.on_event(2, SimpleLocalEvent::SubAck(0, 1));

    storage.tick();
    assert_eq!(storage.pop_action(), None);
}

#[test]
fn sub_event_test() {
    let timer = Arc::new(MockTimer::default());
    let awake_notify = Arc::new(MockAwaker::default());
    let mut storage = SimpleLocalStorage::new(timer.clone(), awake_notify, 10000);
    let mut received_events = Vec::new();

    storage.subscribe(1, None);
    assert_eq!(storage.pop_action(), Some(LocalStorageAction(SimpleRemoteEvent::Sub(0, 1, None), RouteRule::ToKey(1))));
    assert_eq!(storage.pop_action(), None);

    storage.on_event(2, SimpleLocalEvent::SubAck(0, 1));

    storage.tick();
    assert_eq!(storage.pop_action(), None);

    for event in [SimpleLocalEvent::OnKeySet(0, 1, vec![1], 0, 1000), SimpleLocalEvent::OnKeyDel(0, 1, 0, 1000)] {
        if let Some(StorageCallback::Key(key, value, version, source)) = storage.on_event(2, event) {
            received_events.push((key, value, version, source));
        }
    }

    assert_eq!(received_events, vec![(1, Some(vec![1]), 0, 1000), (1, None, 0, 1000),]);
}

#[test]
fn sub_should_retry_after_tick_and_not_received_ack() {
    let timer = Arc::new(MockTimer::default());
    let awake_notify = Arc::new(MockAwaker::default());
    let mut storage = SimpleLocalStorage::new(timer.clone(), awake_notify, 10000);

    storage.subscribe(1, None);
    assert_eq!(storage.pop_action(), Some(LocalStorageAction(SimpleRemoteEvent::Sub(0, 1, None), RouteRule::ToKey(1))));
    assert_eq!(storage.pop_action(), None);

    storage.tick();
    assert_eq!(storage.pop_action(), Some(LocalStorageAction(SimpleRemoteEvent::Sub(1, 1, None), RouteRule::ToKey(1))));
}

#[test]
fn sub_acked_should_resend_each_sync_each_ms() {
    let timer = Arc::new(MockTimer::default());
    let awake_notify = Arc::new(MockAwaker::default());
    let mut storage = SimpleLocalStorage::new(timer.clone(), awake_notify, 10000);

    storage.subscribe(1, None);
    assert_eq!(storage.pop_action(), Some(LocalStorageAction(SimpleRemoteEvent::Sub(0, 1, None), RouteRule::ToKey(1))));
    assert_eq!(storage.pop_action(), None);

    storage.on_event(2, SimpleLocalEvent::SubAck(0, 1));

    storage.tick();
    assert_eq!(storage.pop_action(), None);

    timer.fake(10001);
    storage.tick();
    assert_eq!(storage.pop_action(), Some(LocalStorageAction(SimpleRemoteEvent::Sub(1, 1, None), RouteRule::ToKey(1))));
}

#[test]
fn unsub_should_mark_after_ack() {
    let timer = Arc::new(MockTimer::default());
    let awake_notify = Arc::new(MockAwaker::default());
    let mut storage = SimpleLocalStorage::new(timer.clone(), awake_notify.clone(), 10000);

    storage.subscribe(1, None);
    assert!(storage.pop_action().is_some());
    assert!(storage.pop_action().is_none());

    storage.on_event(2, SimpleLocalEvent::SubAck(0, 1));

    storage.unsubscribe(1);
    assert_eq!(awake_notify.pop_awake_count(), 2);
    assert_eq!(storage.pop_action(), Some(LocalStorageAction(SimpleRemoteEvent::Unsub(1, 1), RouteRule::ToKey(1))));
    assert_eq!(storage.pop_action(), None);

    storage.on_event(2, SimpleLocalEvent::UnsubAck(1, 1, true));
    storage.tick();
    assert_eq!(storage.pop_action(), None);
}

#[test]
fn unsub_should_retry_after_tick_if_not_received_ack() {
    let timer = Arc::new(MockTimer::default());
    let awake_notify = Arc::new(MockAwaker::default());
    let mut storage = SimpleLocalStorage::new(timer.clone(), awake_notify, 10000);

    storage.subscribe(1, None);
    assert!(storage.pop_action().is_some());
    assert!(storage.pop_action().is_none());

    storage.on_event(2, SimpleLocalEvent::SubAck(0, 1));

    storage.unsubscribe(1);
    assert_eq!(storage.pop_action(), Some(LocalStorageAction(SimpleRemoteEvent::Unsub(1, 1), RouteRule::ToKey(1))));
    assert_eq!(storage.pop_action(), None);

    storage.tick();
    assert_eq!(storage.pop_action(), Some(LocalStorageAction(SimpleRemoteEvent::Unsub(2, 1), RouteRule::ToKey(1))));
}

#[test]
fn get_should_callback_correct_value() {
    let timer = Arc::new(MockTimer::default());
    let awake_notify = Arc::new(MockAwaker::default());
    let mut storage = SimpleLocalStorage::new(timer.clone(), awake_notify, 10000);

    let req_id = storage.get(1, 1000);

    assert_eq!(storage.pop_action(), Some(LocalStorageAction(SimpleRemoteEvent::Get(0, 1), RouteRule::ToKey(1))));
    assert_eq!(storage.pop_action(), None);

    let got_value = match storage.on_event(2, SimpleLocalEvent::GetAck(0, 1, Some((vec![1], 0, 1000)))) {
        Some(StorageCallback::Get(req, result)) if req == req_id => Some(result),
        _ => None,
    };
    assert_eq!(got_value, Some(Ok(Some((vec![1], 0, 1000)))));
}

#[test]
fn get_should_timeout_after_no_ack() {
    let timer = Arc::new(MockTimer::default());
    let awake_notify = Arc::new(MockAwaker::default());
    let mut storage = SimpleLocalStorage::new(timer.clone(), awake_notify, 10000);

    let req_id = storage.get(1, 1000);

    assert_eq!(storage.pop_action(), Some(LocalStorageAction(SimpleRemoteEvent::Get(0, 1), RouteRule::ToKey(1))));
    assert_eq!(storage.pop_action(), None);

    timer.fake(1001);
    let got_value = match storage.tick().pop() {
        Some(StorageCallback::Get(req, result)) if req == req_id => Some(result),
        _ => None,
    };
    assert_eq!(got_value, Some(Err(SimpleKeyValueGetError::Timeout)));
}

#[test]
fn get_times_out_only_once() {
    let timer = Arc::new(MockTimer::default());
    let awaker = Arc::new(MockAwaker::default());
    let mut storage = storage_with(&timer, &awaker);
    let req_id = storage.get(1, 1000);
    timer.fake(999);
    assert_eq!(storage.tick(), vec![]);
    timer.fake(1001);
    assert_eq!(storage.tick(), vec![StorageCallback::Get(req_id, Err(SimpleKeyValueGetError::Timeout))]);
    assert_eq!(storage.tick(), vec![]);
    assert_eq!(storage.on_event(2, SimpleLocalEvent::GetAck(req_id, 1, None)), None);
}

#[test]
fn get_deadline_is_inclusive() {
    let timer = Arc::new(MockTimer::default());
    let awaker = Arc::new(MockAwaker::default());
    let mut storage = storage_with(&timer, &awaker);
    timer.fake(500);
    let req_id = storage.get_at(500, 7, 100);
    assert_eq!(storage.tick_at(599), vec![]);
    assert_eq!(storage.tick_at(600), vec![StorageCallback::Get(req_id, Err(SimpleKeyValueGetError::Timeout))]);
}

#[test]
fn get_answer_after_ack_is_delivered_once() {
    let timer = Arc::new(MockTimer::default());
    let awaker = Arc::new(MockAwaker::default());
    let mut storage = storage_with(&timer, &awaker);
    let req_id = storage.get(3, 1000);
    assert_eq!(awaker.pop_awake_count(), 1);
    assert_eq!(
        storage.on_event(9, SimpleLocalEvent::GetAck(req_id, 3, None)),
        Some(StorageCallback::Get(req_id, Ok(None)))
    );
    assert_eq!(storage.on_event(9, SimpleLocalEvent::GetAck(req_id, 3, None)), None);
    timer.fake(5000);
    assert_eq!(storage.tick(), vec![]);
}

#[test]
fn versions_within_one_millisecond_increase() {
    let timer = Arc::new(MockTimer::default());
    let awaker = Arc::new(MockAwaker::default());
    let mut storage = storage_with(&timer, &awaker);
    timer.fake(3);
    storage.set(1, vec![1], None);
    storage.set(2, vec![2], None);
    assert_eq!(storage.pop_action(), Some(LocalStorageAction(SimpleRemoteEvent::SetKey(0, 1, vec![1], 3 << 16, None), RouteRule::ToKey(1))));
    assert_eq!(storage.pop_action(), Some(LocalStorageAction(SimpleRemoteEvent::SetKey(1, 2, vec![2], (3 << 16) | 1, None), RouteRule::ToKey(2))));
}

#[test]
fn set_with_expiry_is_carried() {
    let timer = Arc::new(MockTimer::default());
    let awaker = Arc::new(MockAwaker::default());
    let mut storage = storage_with(&timer, &awaker);
    storage.set_at(2, 5, vec![4, 5], Some(300));
    assert_eq!(
        storage.pop_action(),
        Some(LocalStorageAction(SimpleRemoteEvent::SetKey(0, 5, vec![4, 5], 2 << 16, Some(300)), RouteRule::ToKey(5)))
    );
}

#[test]
fn route_uses_low_bits_of_key() {
    let timer = Arc::new(MockTimer::default());
    let awaker = Arc::new(MockAwaker::default());
    let mut storage = storage_with(&timer, &awaker);
    storage.subscribe((1u64 << 32) | 9, None);
    assert_eq!(storage.pop_action(), Some(LocalStorageAction(SimpleRemoteEvent::Sub(0, (1u64 << 32) | 9, None), RouteRule::ToKey(9))));
}

#[test]
fn failed_set_ack_is_ignored() {
    let timer = Arc::new(MockTimer::default());
    let awaker = Arc::new(MockAwaker::default());
    let mut storage = storage_with(&timer, &awaker);
    storage.set(1, vec![1], None);
    storage.pop_action();
    storage.on_event(2, SimpleLocalEvent::SetAck(0, 1, 0, false));
    storage.tick();
    assert_eq!(storage.pop_action(), Some(LocalStorageAction(SimpleRemoteEvent::SetKey(1, 1, vec![1], 0, None), RouteRule::ToKey(1))));
}

#[test]
fn set_ack_with_other_version_is_ignored() {
    let timer = Arc::new(MockTimer::default());
    let awaker = Arc::new(MockAwaker::default());
    let mut storage = storage_with(&timer, &awaker);
    storage.set(1, vec![1], None);
    storage.pop_action();
    storage.on_event(2, SimpleLocalEvent::SetAck(0, 1, 77, true));
    storage.tick();
    assert_eq!(storage.pop_action(), Some(LocalStorageAction(SimpleRemoteEvent::SetKey(1, 1, vec![1], 0, None), RouteRule::ToKey(1))));
}

#[test]
fn del_ack_for_newer_version_is_ignored() {
    let timer = Arc::new(MockTimer::default());
    let awaker = Arc::new(MockAwaker::default());
    let mut storage = storage_with(&timer, &awaker);
    storage.set(1, vec![1], None);
    storage.del(1);
    storage.pop_action();
    storage.pop_action();
    storage.on_event(2, SimpleLocalEvent::DelAck(1, 1, Some(5)));
    storage.tick();
    assert_eq!(storage.pop_action(), Some(LocalStorageAction(SimpleRemoteEvent::Del(2, 1, 0), RouteRule::ToKey(1))));
}

#[test]
fn del_ack_without_version_acks() {
    let timer = Arc::new(MockTimer::default());
    let awaker = Arc::new(MockAwaker::default());
    let mut storage = storage_with(&timer, &awaker);
    storage.set(1, vec![1], None);
    storage.del(1);
    storage.pop_action();
    storage.pop_action();
    storage.on_event(2, SimpleLocalEvent::DelAck(1, 1, None));
    storage.tick();
    assert_eq!(storage.pop_action(), None);
}

#[test]
fn acked_delete_is_forgotten_at_resync() {
    let timer = Arc::new(MockTimer::default());
    let awaker = Arc::new(MockAwaker::default());
    let mut storage = storage_with(&timer, &awaker);
    storage.set(1, vec![1], None);
    storage.del(1);
    storage.on_event(2, SimpleLocalEvent::DelAck(1, 1, None));
    while storage.pop_action().is_some() {}
    timer.fake(10000);
    storage.tick();
    assert_eq!(storage.pop_action(), None);
    // the slot is gone: deleting again does nothing
    storage.del(1);
    assert_eq!(storage.pop_action(), None);
}

#[test]
fn del_of_unknown_key_does_nothing() {
    let timer = Arc::new(MockTimer::default());
    let awaker = Arc::new(MockAwaker::default());
    let mut storage = storage_with(&timer, &awaker);
    storage.del(4);
    assert_eq!(storage.pop_action(), None);
    assert_eq!(awaker.pop_awake_count(), 0);
    storage.set(4, vec![1], None);
    assert_eq!(storage.pop_action(), Some(LocalStorageAction(SimpleRemoteEvent::SetKey(0, 4, vec![1], 0, None), RouteRule::ToKey(4))));
}

#[test]
fn subscribe_twice_is_ignored() {
    let timer = Arc::new(MockTimer::default());
    let awaker = Arc::new(MockAwaker::default());
    let mut storage = storage_with(&timer, &awaker);
    storage.subscribe(1, Some(50));
    storage.subscribe(1, None);
    assert_eq!(storage.pop_action(), Some(LocalStorageAction(SimpleRemoteEvent::Sub(0, 1, Some(50)), RouteRule::ToKey(1))));
    assert_eq!(storage.pop_action(), None);
    assert_eq!(awaker.pop_awake_count(), 1);
}

#[test]
fn unsubscribe_unknown_key_takes_a_request_id() {
    let timer = Arc::new(MockTimer::default());
    let awaker = Arc::new(MockAwaker::default());
    let mut storage = storage_with(&timer, &awaker);
    storage.unsubscribe(8);
    assert_eq!(storage.pop_action(), None);
    storage.subscribe(8, None);
    assert_eq!(storage.pop_action(), Some(LocalStorageAction(SimpleRemoteEvent::Sub(1, 8, None), RouteRule::ToKey(8))));
}

#[test]
fn key_events_without_subscription_are_only_acked() {
    let timer = Arc::new(MockTimer::default());
    let awaker = Arc::new(MockAwaker::default());
    let mut storage = storage_with(&timer, &awaker);
    assert_eq!(storage.on_event(5, SimpleLocalEvent::OnKeySet(3, 1, vec![1], 0, 1000)), None);
    assert_eq!(storage.pop_action(), Some(LocalStorageAction(SimpleRemoteEvent::OnKeySetAck(3), RouteRule::ToNode(5))));
    storage.subscribe(1, None);
    storage.unsubscribe(1);
    while storage.pop_action().is_some() {}
    assert_eq!(storage.on_event(5, SimpleLocalEvent::OnKeyDel(4, 1, 0, 1000)), None);
    assert_eq!(storage.pop_action(), Some(LocalStorageAction(SimpleRemoteEvent::OnKeyDelAck(4), RouteRule::ToNode(5))));
}

#[test]
fn subscription_events_ack_to_sender() {
    let timer = Arc::new(MockTimer::default());
    let awaker = Arc::new(MockAwaker::default());
    let mut storage = storage_with(&timer, &awaker);
    storage.subscribe(1, None);
    storage.on_event(2, SimpleLocalEvent::SubAck(0, 1));
    storage.pop_action();
    assert_eq!(
        storage.on_event(2, SimpleLocalEvent::OnKeySet(0, 1, vec![1], 0, 1000)),
        Some(StorageCallback::Key(1, Some(vec![1]), 0, 1000))
    );
    assert_eq!(storage.pop_action(), Some(LocalStorageAction(SimpleRemoteEvent::OnKeySetAck(0), RouteRule::ToNode(2))));
    assert_eq!(storage.on_event(2, SimpleLocalEvent::OnKeyDel(0, 1, 0, 1000)), Some(StorageCallback::Key(1, None, 0, 1000)));
    assert_eq!(storage.pop_action(), Some(LocalStorageAction(SimpleRemoteEvent::OnKeyDelAck(0), RouteRule::ToNode(2))));
}

#[test]
fn unacked_slots_are_each_resent_once_per_tick() {
    let timer = Arc::new(MockTimer::default());
    let awaker = Arc::new(MockAwaker::default());
    let mut storage = storage_with(&timer, &awaker);
    storage.set(1, vec![1], None);
    storage.set(2, vec![2], None);
    storage.subscribe(3, None);
    while storage.pop_action().is_some() {}
    storage.tick();
    assert_eq!(storage.pop_action(), Some(LocalStorageAction(SimpleRemoteEvent::SetKey(3, 1, vec![1], 0, None), RouteRule::ToKey(1))));
    assert_eq!(storage.pop_action(), Some(LocalStorageAction(SimpleRemoteEvent::SetKey(4, 2, vec![2], 1, None), RouteRule::ToKey(2))));
    assert_eq!(storage.pop_action(), Some(LocalStorageAction(SimpleRemoteEvent::Sub(5, 3, None), RouteRule::ToKey(3))));
    assert_eq!(storage.pop_action(), None);
    storage.tick();
    assert_eq!(storage.pop_action(), Some(LocalStorageAction(SimpleRemoteEvent::SetKey(6, 1, vec![1], 0, None), RouteRule::ToKey(1))));
    assert_eq!(storage.pop_action(), Some(LocalStorageAction(SimpleRemoteEvent::SetKey(7, 2, vec![2], 1, None), RouteRule::ToKey(2))));
    assert_eq!(storage.pop_action(), Some(LocalStorageAction(SimpleRemoteEvent::Sub(8, 3, None), RouteRule::ToKey(3))));
    assert_eq!(storage.pop_action(), None);
}

#[test]
fn acked_set_is_quiet_until_sync_interval() {
    let timer = Arc::new(MockTimer::default());
    let awaker = Arc::new(MockAwaker::default());
    let mut storage = storage_with(&timer, &awaker);
    storage.set(1, vec![1], None);
    storage.on_event(2, SimpleLocalEvent::SetAck(0, 1, 0, true));
    storage.pop_action();
    timer.fake(9999);
    storage.tick();
    assert_eq!(storage.pop_action(), None);
    timer.fake(10000);
    storage.tick();
    assert_eq!(storage.pop_action(), Some(LocalStorageAction(SimpleRemoteEvent::SetKey(1, 1, vec![1], 0, None), RouteRule::ToKey(1))));
    timer.fake(19999);
    storage.tick();
    assert_eq!(storage.pop_action(), None);
    timer.fake(20000);
    storage.tick();
    assert_eq!(storage.pop_action(), Some(LocalStorageAction(SimpleRemoteEvent::SetKey(2, 1, vec![1], 0, None), RouteRule::ToKey(1))));
}

#[test]
fn actions_pop_in_order_then_none() {
    let timer = Arc::new(MockTimer::default());
    let awaker = Arc::new(MockAwaker::default());
    let mut storage = storage_with(&timer, &awaker);
    storage.set(1, vec![1], None);
    let req = storage.get(2, 10);
    storage.subscribe(3, None);
    assert_eq!(req, 1);
    assert_eq!(storage.pop_action(), Some(LocalStorageAction(SimpleRemoteEvent::SetKey(0, 1, vec![1], 0, None), RouteRule::ToKey(1))));
    assert_eq!(storage.pop_action(), Some(LocalStorageAction(SimpleRemoteEvent::Get(1, 2), RouteRule::ToKey(2))));
    assert_eq!(storage.pop_action(), Some(LocalStorageAction(SimpleRemoteEvent::Sub(2, 3, None), RouteRule::ToKey(3))));
    assert_eq!(storage.pop_action(), None);
    assert_eq!(storage.pop_action(), None);
}
