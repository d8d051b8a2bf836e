use jsonrpc_runtime::client::builder::{
    CertificateStore, WsClientBuilder, DEFAULT_MAX_CONCURRENT_REQUESTS,
};
use jsonrpc_runtime::client::ids::RequestIdManager;
use jsonrpc_runtime::client::inbound::{classify, classify_frame, read_inbound, Inbound, Message};
use jsonrpc_runtime::client::manager::{answered, distinct, holds, RequestManager};
use jsonrpc_runtime::client::pending::{Pending, RequestStatus};
use jsonrpc_runtime::client::subscription::Subscription;
use jsonrpc_runtime::error::Error;
use jsonrpc_runtime::v2::envelope::{Envelope, ErrorMember, IdForm, RawFrame, RawId};
use jsonrpc_runtime::v2::error::{JsonRpcErrorCode, JsonRpcErrorObject};
use jsonrpc_runtime::v2::params::SubscriptionId;

fn envelope() -> Envelope {
    Envelope {
        version: Some("2.0".to_string()),
        id: None,
        method: None,
        params: None,
        result: None,
        error: ErrorMember::Absent,
        subscription: None,
        payload: None,
        granted: None,
    }
}

fn natural(n: u64) -> Option<RawId> {
    Some(RawId { text: n.to_string(), form: IdForm::Natural(n) })
}

#[test]
fn ids_come_in_order_from_zero() {
    let mut ids = RequestIdManager::new(4);
    assert_eq!(ids.acquire().unwrap(), 0);
    assert_eq!(ids.acquire().unwrap(), 1);
    assert_eq!(ids.acquire().unwrap(), 2);
    assert!(ids.is_live(1));
    assert!(!ids.is_live(3));
    assert_eq!(ids.free_slots(), 1);
}

#[test]
fn released_id_is_not_given_out_at_once() {
    let mut ids = RequestIdManager::new(4);
    assert_eq!(ids.acquire().unwrap(), 0);
    assert_eq!(ids.acquire().unwrap(), 1);
    ids.release(0);
    assert!(!ids.is_live(0));
    assert_eq!(ids.acquire().unwrap(), 2);
    ids.release(7);
    assert_eq!(ids.free_slots(), 2);
}

#[test]
fn full_pool_gives_max_slots_exceeded() {
    let mut ids = RequestIdManager::new(2);
    ids.acquire().unwrap();
    ids.acquire().unwrap();
    assert!(matches!(ids.acquire(), Err(Error::MaxSlotsExceeded)));
    assert_eq!(ids.free_slots(), 0);
    ids.release(0);
    assert_eq!(ids.acquire().unwrap(), 2);
    let mut none = RequestIdManager::new(0);
    assert!(matches!(none.acquire(), Err(Error::MaxSlotsExceeded)));
}

#[test]
fn ids_wrap_around() {
    let mut ids = RequestIdManager::starting_at(8, u64::MAX - 1);
    assert_eq!(ids.acquire().unwrap(), u64::MAX - 1);
    assert_eq!(ids.acquire().unwrap(), u64::MAX);
    assert_eq!(ids.acquire().unwrap(), 0);
    assert_eq!(ids.acquire().unwrap(), 1);
    let mut cycle = RequestIdManager::starting_at(3, u64::MAX);
    assert_eq!(cycle.acquire_many(3).unwrap(), vec![u64::MAX, 0, 1]);
    cycle.release(0);
    // the search goes on behind the last id given out, not from the freed one
    assert_eq!(cycle.acquire().unwrap(), 2);
}

#[test]
fn many_ids_come_at_once_or_not_at_all() {
    let mut ids = RequestIdManager::new(3);
    assert_eq!(ids.acquire().unwrap(), 0);
    assert!(matches!(ids.acquire_many(3), Err(Error::MaxSlotsExceeded)));
    assert_eq!(ids.free_slots(), 2);
    assert_eq!(ids.acquire_many(2).unwrap(), vec![1, 2]);
    assert_eq!(ids.acquire_many(0).unwrap(), Vec::<u64>::new());
    ids.release_all(&vec![0, 2]);
    assert!(ids.is_live(1));
    assert_eq!(ids.free_slots(), 2);
    ids.clear();
    assert_eq!(ids.free_slots(), 3);
    assert_eq!(ids.acquire().unwrap(), 3);
}

#[test]
fn registry_refuses_an_id_twice() {
    let mut manager = RequestManager::new();
    assert!(manager.insert_call(1).is_ok());
    assert!(matches!(manager.insert_call(1), Err(Error::DuplicateRequestId)));
    assert!(matches!(
        manager.insert_pending_sub(1, "unsub".to_string()),
        Err(Error::DuplicateRequestId)
    ));
    assert!(matches!(manager.insert_batch(vec![0, 1]), Err(Error::DuplicateRequestId)));
    assert!(matches!(manager.insert_batch(vec![]), Err(Error::InvalidRequestId)));
    assert!(matches!(manager.insert_batch(vec![2, 2]), Err(Error::InvalidRequestId)));
    assert!(manager.insert_batch(vec![2, 3]).is_ok());
    assert!(matches!(manager.insert_call(3), Err(Error::DuplicateRequestId)));
    assert_eq!(manager.len(), 2);
    assert_eq!(manager.request_status(1), RequestStatus::PendingMethodCall);
    assert_eq!(manager.request_status(3), RequestStatus::PendingBatch);
    assert_eq!(manager.request_status(4), RequestStatus::Invalid);
    assert_eq!(manager.owner(2), Some(1));
    assert!(manager.all_free(&vec![7, 8]));
    assert!(!manager.all_free(&vec![7, 2]));
}

#[test]
fn registry_completes_what_it_holds() {
    let mut manager = RequestManager::new();
    manager.insert_call(1).unwrap();
    manager.insert_pending_sub(2, "unsub".to_string()).unwrap();
    assert!(!manager.complete_call(2));
    assert!(!manager.complete_call(9));
    assert!(manager.complete_call(1));
    assert!(!manager.complete_call(1));
    assert_eq!(manager.complete_pending_sub(1), None);
    assert_eq!(manager.complete_pending_sub(2), Some("unsub".to_string()));
    assert_eq!(manager.len(), 0);
}

#[test]
fn registry_promotes_a_subscribe_call() {
    let mut manager = RequestManager::new();
    manager.insert_pending_sub(1, "unsub".to_string()).unwrap();
    manager.insert_pending_sub(2, "unsub".to_string()).unwrap();
    manager.insert_call(3).unwrap();
    assert!(manager.promote_sub(1, SubscriptionId::Num(7)).is_ok());
    assert_eq!(manager.request_status(1), RequestStatus::Subscription);
    assert_eq!(manager.route_notification(&SubscriptionId::Num(7)), Some(1));
    assert_eq!(manager.route_notification(&SubscriptionId::Num(8)), None);
    assert_eq!(manager.subscriber(&SubscriptionId::Num(7)), Some(0));
    // the same subscription id for another call is invalid, and the call is taken out
    assert!(matches!(
        manager.promote_sub(2, SubscriptionId::Num(7)),
        Err(Error::InvalidSubscriptionId)
    ));
    assert_eq!(manager.request_status(2), RequestStatus::Invalid);
    // what is no subscribe call cannot be promoted
    assert!(matches!(manager.promote_sub(3, SubscriptionId::Num(9)), Err(Error::InvalidRequestId)));
    assert!(matches!(manager.promote_sub(4, SubscriptionId::Num(9)), Err(Error::InvalidRequestId)));
    assert_eq!(manager.request_status(3), RequestStatus::PendingMethodCall);
    assert_eq!(
        manager.begin_unsubscribe(&SubscriptionId::Num(7)),
        Some((1, "unsub".to_string()))
    );
    assert_eq!(manager.request_status(1), RequestStatus::PendingUnsubscribe);
    assert_eq!(manager.begin_unsubscribe(&SubscriptionId::Num(7)), None);
    assert!(manager.complete_unsubscribe(1));
    assert!(!manager.complete_unsubscribe(3));
}

#[test]
fn registry_completes_a_batch_by_its_ids() {
    let mut manager = RequestManager::new();
    manager.insert_batch(vec![4, 5, 6]).unwrap();
    manager.insert_batch(vec![7, 8]).unwrap();
    assert_eq!(manager.complete_batch(&vec![]), None);
    assert_eq!(manager.complete_batch(&vec![4, 5]), None);
    assert_eq!(manager.complete_batch(&vec![4, 5, 7]), None);
    assert_eq!(manager.complete_batch(&vec![4, 4, 5]), None);
    assert_eq!(manager.complete_batch(&vec![9, 5, 6]), None);
    assert_eq!(manager.len(), 2);
    assert_eq!(manager.complete_batch(&vec![6, 4, 5]), Some(vec![4, 5, 6]));
    assert_eq!(manager.complete_batch(&vec![6, 4, 5]), None);
    assert_eq!(manager.complete_batch(&vec![8, 7]), Some(vec![7, 8]));
    assert_eq!(manager.len(), 0);
}

#[test]
fn registry_drains_in_order() {
    let mut manager = RequestManager::new();
    manager.insert_call(3).unwrap();
    manager.insert_batch(vec![1, 2]).unwrap();
    manager.insert_call(0).unwrap();
    assert!(matches!(manager.entry(1), Pending::Batch { ids } if *ids == vec![1, 2]));
    assert!(matches!(manager.remove(2), Some(Pending::Batch { .. })));
    assert!(manager.remove(2).is_none());
    let all = manager.drain();
    assert_eq!(all.len(), 2);
    assert!(matches!(all[0], Pending::Call { id: 3 }));
    assert!(matches!(all[1], Pending::Call { id: 0 }));
    assert_eq!(manager.len(), 0);
}

#[test]
fn id_lists_are_compared() {
    assert!(holds(&vec![1, 2], 2));
    assert!(!holds(&vec![1, 2], 3));
    assert!(distinct(&vec![]));
    assert!(distinct(&vec![3, 1, 2]));
    assert!(!distinct(&vec![3, 1, 3]));
    assert!(answered(&vec![1, 2, 3], &vec![3, 1, 2]));
    assert!(!answered(&vec![1, 2, 3], &vec![3, 1]));
    assert!(!answered(&vec![1, 2, 3], &vec![3, 1, 1]));
    assert!(answered(&vec![], &vec![]));
}

#[test]
fn response_is_classified() {
    let message = classify(Envelope {
        id: natural(4),
        result: Some("true".to_string()),
        granted: None,
        ..envelope()
    });
    assert!(matches!(
        message,
        Message::Response { id: 4, result, granted: None } if result == "true"
    ));
}

#[test]
fn failure_is_classified() {
    let error = JsonRpcErrorObject::from(JsonRpcErrorCode::InternalError);
    let message =
        classify(Envelope { id: natural(4), error: ErrorMember::Object(error.duplicate()), ..envelope() });
    assert!(matches!(message, Message::Failure { id: 4, error: e } if e == error));
}

#[test]
fn notifications_are_classified() {
    let message = classify(Envelope {
        method: Some("m".to_string()),
        params: Some("{}".to_string()),
        subscription: Some(SubscriptionId::Num(1)),
        payload: Some("2".to_string()),
        ..envelope()
    });
    assert!(matches!(
        message,
        Message::SubscriptionNotice { subscription: SubscriptionId::Num(1), payload } if payload == "2"
    ));
    let message = classify(Envelope {
        method: Some("m".to_string()),
        subscription: Some(SubscriptionId::Num(1)),
        ..envelope()
    });
    assert!(matches!(message, Message::Notification { method } if method == "m"));
    let message = classify(Envelope { method: Some("m".to_string()), ..envelope() });
    assert!(matches!(message, Message::Notification { .. }));
}

#[test]
fn what_is_no_message_is_malformed() {
    let malformed = |e: Envelope| matches!(classify(e), Message::Malformed);
    assert!(malformed(envelope()));
    assert!(malformed(Envelope { version: None, id: natural(1), result: Some("1".to_string()), ..envelope() }));
    assert!(malformed(Envelope {
        version: Some("1.0".to_string()),
        id: natural(1),
        result: Some("1".to_string()),
        ..envelope()
    }));
    assert!(malformed(Envelope { id: natural(1), ..envelope() }));
    assert!(malformed(Envelope {
        id: natural(1),
        result: Some("1".to_string()),
        error: ErrorMember::Object(JsonRpcErrorObject::from(JsonRpcErrorCode::InternalError)),
        ..envelope()
    }));
    assert!(malformed(Envelope { id: natural(1), error: ErrorMember::Malformed, ..envelope() }));
    assert!(malformed(Envelope {
        id: natural(1),
        method: Some("m".to_string()),
        result: Some("1".to_string()),
        ..envelope()
    }));
    assert!(malformed(Envelope {
        id: Some(RawId { text: "\"a\"".to_string(), form: IdForm::Text }),
        result: Some("1".to_string()),
        ..envelope()
    }));
    assert!(malformed(Envelope {
        id: Some(RawId { text: "-1".to_string(), form: IdForm::Number }),
        result: Some("1".to_string()),
        ..envelope()
    }));
    assert!(malformed(Envelope { result: Some("1".to_string()), ..envelope() }));
    assert!(malformed(Envelope {
        method: Some("m".to_string()),
        error: ErrorMember::Malformed,
        ..envelope()
    }));
}

#[test]
fn frames_are_classified() {
    assert!(matches!(classify_frame(RawFrame::Malformed), Inbound::Malformed));
    let batch = RawFrame::Batch(vec![
        Envelope { id: natural(1), result: Some("1".to_string()), ..envelope() },
        envelope(),
    ]);
    match classify_frame(batch) {
        Inbound::Batch(messages) => {
            assert_eq!(messages.len(), 2);
            assert!(matches!(messages[0], Message::Response { id: 1, .. }));
            assert!(matches!(messages[1], Message::Malformed));
        }
        other => panic!("expected a batch, got: {:?}", other),
    }
    assert!(matches!(
        read_inbound(r#"{"jsonrpc":"2.0","result":"7","id":3}"#),
        Inbound::Single(Message::Response { id: 3, granted: Some(SubscriptionId::Str(s)), .. }) if s == "7"
    ));
    assert!(matches!(read_inbound("nonsense"), Inbound::Malformed));
}

#[test]
fn subscription_hands_out_items_in_order() {
    let mut sub = Subscription::new(SubscriptionId::Num(1), "unsub".to_string());
    assert!(!sub.is_closed());
    assert_eq!(sub.next(), None);
    assert!(sub.deliver("1".to_string()));
    assert!(sub.deliver("2".to_string()));
    assert_eq!(sub.next(), Some("1".to_string()));
    assert!(sub.deliver("3".to_string()));
    sub.close();
    assert!(sub.is_closed());
    assert!(!sub.is_finished());
    assert!(!sub.deliver("4".to_string()));
    assert_eq!(sub.next(), Some("2".to_string()));
    assert_eq!(sub.next(), Some("3".to_string()));
    assert_eq!(sub.next(), None);
    assert!(sub.is_finished());
    assert_eq!(sub.id(), &SubscriptionId::Num(1));
    assert_eq!(sub.into_unsubscribe(), (SubscriptionId::Num(1), "unsub".to_string()));
}

#[test]
fn builder_sets_what_it_is_told() {
    let builder = WsClientBuilder::default();
    assert_eq!(builder.max_concurrent_requests, DEFAULT_MAX_CONCURRENT_REQUESTS);
    assert_eq!(builder.max_concurrent_requests, 1024);
    assert_eq!(builder.request_timeout, None);
    assert_eq!(builder.certificate_store, CertificateStore::Native);
    let builder = builder
        .max_concurrent_requests(2)
        .request_timeout(Some(500))
        .max_notifs_per_subscription(9)
        .certificate_store(CertificateStore::WebPki)
        .header("Origin".to_string(), "here".to_string());
    assert_eq!(builder.max_concurrent_requests, 2);
    assert_eq!(builder.request_timeout, Some(500));
    assert_eq!(builder.max_notifs_per_subscription, 9);
    assert_eq!(builder.certificate_store, CertificateStore::WebPki);
    assert_eq!(builder.headers.len(), 1);
    assert_eq!(builder.headers[0].name, "Origin");
    let client = builder.multiplexer();
    assert!(client.is_connected());
    assert_eq!(client.pending_len(), 0);
}
