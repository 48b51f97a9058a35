use quorum_credit::webhook::{
    send_step, starts_with, status_is_success, DeliveryStatus, SendOutcome, Timestamp, WebhookError,
    WebhookEvent, WebhookManager,
};

#[test]
fn test_subscribe_webhook() {
    let mut manager = WebhookManager::new();
    let result = manager.subscribe("https://example.com/webhook".to_string(), vec!["loan.created".to_string()]);

    assert!(result.is_ok());
    let sub = result.unwrap();
    assert_eq!(sub.events, vec!["loan.created"]);
}

#[test]
fn test_invalid_webhook_url() {
    let mut manager = WebhookManager::new();
    let result = manager.subscribe("invalid-url".to_string(), vec!["loan.created".to_string()]);

    assert!(result.is_err());
}

#[test]
fn test_unsubscribe_webhook() {
    let mut manager = WebhookManager::new();
    let sub = manager
        .subscribe("https://example.com/webhook".to_string(), vec!["loan.created".to_string()])
        .unwrap();

    let result = manager.unsubscribe(&sub.id);
    assert!(result.is_ok());

    let subs = manager.get_subscriptions();
    assert_eq!(subs.len(), 0);
}

#[test]
fn new_subscription_defaults() {
    let mut manager = WebhookManager::new();
    let sub = manager.subscribe("http://hooks.local/x".to_string(), vec!["a".to_string(), "b".to_string()]).unwrap();
    let id: Vec<char> = sub.id.chars().collect();
    assert_eq!(id.len(), 36);
    for (i, c) in id.iter().enumerate() {
        if [8, 13, 18, 23].contains(&i) {
            assert_eq!(*c, '-');
        } else {
            assert!(c.is_ascii_digit() || ('a'..='f').contains(c));
        }
    }
    assert_eq!(id[14], '4');
    assert!(['8', '9', 'a', 'b'].contains(&id[19]));
    assert!(sub.created_at.secs > 0);
    assert!(sub.created_at.nanos < 1_000_000_000);
    assert!(sub.active);
    assert_eq!(sub.retry_count, 0);
    assert_eq!(sub.max_retries, 3);
    assert_eq!(sub.url, "http://hooks.local/x");
    let stored = manager.get_subscriptions();
    assert_eq!(stored.len(), 1);
    assert_eq!(stored[0].id, sub.id);
    assert_eq!(stored[0].events, vec!["a", "b"]);
}

#[test]
fn url_must_use_http_or_https() {
    let mut manager = WebhookManager::new();
    let ts = Timestamp { secs: 0, nanos: 0 };
    assert!(matches!(
        manager.subscribe_with("ftp://x".to_string(), vec![], "id".to_string(), ts),
        Err(WebhookError::InvalidUrl)
    ));
    assert!(matches!(manager.subscribe_with("http:/x".to_string(), vec![], "id".to_string(), ts), Err(_)));
    assert!(manager.subscribe_with("https://".to_string(), vec![], "id".to_string(), ts).is_ok());
    assert_eq!(manager.get_subscriptions()[0].created_at, ts);
    assert!(starts_with("https://a", "https://"));
    assert!(!starts_with("http", "http://"));
}

#[test]
fn unsubscribe_unknown_is_not_found() {
    let mut manager = WebhookManager::new();
    let ts = Timestamp { secs: 1, nanos: 2 };
    manager.subscribe_with("https://a".to_string(), vec![], "one".to_string(), ts).unwrap();
    manager.subscribe_with("https://b".to_string(), vec![], "two".to_string(), ts).unwrap();
    assert!(matches!(manager.unsubscribe("three"), Err(WebhookError::NotFound)));
    assert!(manager.unsubscribe("one").is_ok());
    let subs = manager.get_subscriptions();
    assert_eq!(subs.len(), 1);
    assert_eq!(subs[0].id, "two");
}

#[test]
fn events_go_to_active_subscribers_of_the_type() {
    let mut manager = WebhookManager::new();
    let ts = Timestamp { secs: 1, nanos: 2 };
    manager.subscribe_with("https://a".to_string(), vec!["loan.created".to_string()], "a".to_string(), ts).unwrap();
    manager.subscribe_with("https://b".to_string(), vec!["loan.repaid".to_string()], "b".to_string(), ts).unwrap();
    manager
        .subscribe_with(
            "https://c".to_string(),
            vec!["loan.repaid".to_string(), "loan.created".to_string()],
            "c".to_string(),
            ts,
        )
        .unwrap();
    manager.subscriptions[2].active = true;
    manager.subscriptions[0].active = false;
    let event = WebhookEvent {
        id: "ev-1".to_string(),
        event_type: "loan.created".to_string(),
        timestamp: ts,
        data: serde_json::Value::Null,
    };
    let targets = manager.deliver_event(&event);
    assert_eq!(targets, vec![2]);
    let deliveries = manager.get_deliveries();
    assert_eq!(deliveries.len(), 1);
    assert_eq!(deliveries[0].webhook_id, "c");
    assert_eq!(deliveries[0].event_id, "ev-1");
    assert_eq!(deliveries[0].status, DeliveryStatus::Pending);
    assert_eq!(deliveries[0].response_code, None);

    let id = deliveries[0].id.clone();
    manager.update_delivery(&id, DeliveryStatus::Success, Some(204), None);
    let deliveries = manager.get_deliveries();
    assert_eq!(deliveries[0].status, DeliveryStatus::Success);
    assert_eq!(deliveries[0].response_code, Some(204));
    manager.update_delivery("missing", DeliveryStatus::Failed, None, Some("x".to_string()));
    assert_eq!(manager.get_deliveries()[0].status, DeliveryStatus::Success);
}

#[test]
fn answers_end_the_delivery() {
    assert!(status_is_success(200));
    assert!(status_is_success(299));
    assert!(!status_is_success(300));
    assert!(!status_is_success(199));
    let ok = send_step(1, 3, SendOutcome::Response(201));
    assert_eq!(ok.status, DeliveryStatus::Success);
    assert_eq!(ok.response_code, Some(201));
    assert_eq!(ok.retry_after_secs, None);
    let bad = send_step(2, 3, SendOutcome::Response(500));
    assert_eq!(bad.status, DeliveryStatus::Failed);
    assert_eq!(bad.response_code, Some(500));
    assert_eq!(bad.retry_after_secs, None);
}

#[test]
fn transport_errors_back_off_exponentially() {
    let first = send_step(1, 3, SendOutcome::TransportError("refused".to_string()));
    assert_eq!(first.status, DeliveryStatus::Retrying);
    assert_eq!(first.retry_after_secs, Some(2));
    assert_eq!(first.error, Some("refused".to_string()));
    let second = send_step(2, 3, SendOutcome::TransportError("refused".to_string()));
    assert_eq!(second.status, DeliveryStatus::Failed);
    assert_eq!(second.retry_after_secs, Some(4));
    let last = send_step(3, 3, SendOutcome::TransportError("refused".to_string()));
    assert_eq!(last.status, DeliveryStatus::Failed);
    assert_eq!(last.retry_after_secs, None);
    assert_eq!(last.response_code, None);
    let big = send_step(63, 64, SendOutcome::TransportError("e".to_string()));
    assert_eq!(big.retry_after_secs, Some(1u64 << 63));
}
