use dodemansknop::dispatch::dispatch_all;
use dodemansknop::ingest::{ping_status_code, PingQueue};
use dodemansknop::notifier::{
    build_notifier, plan_notification, ConfigError, Notifier, NotifyAction, Settings,
    WebhookSettings,
};

fn webhook_settings(headers: Option<Vec<(String, String)>>) -> Settings {
    Settings {
        notifier_type: "webhook".to_string(),
        webhook: Some(WebhookSettings {
            url: "http://localhost:9000/alert".to_string(),
            method: "POST".to_string(),
            headers,
        }),
    }
}

#[test]
fn builds_webhook_notifier() {
    let cfg = webhook_settings(Some(vec![("X-Source".to_string(), "watchdog".to_string())]));
    match build_notifier(&cfg) {
        Ok(Notifier::Webhook { url, method, headers }) => {
            assert_eq!(url, "http://localhost:9000/alert");
            assert_eq!(method, "POST");
            assert_eq!(headers, vec![("X-Source".to_string(), "watchdog".to_string())]);
        }
        other => panic!("expected a webhook notifier, got {:?}", other.is_ok()),
    }
}

#[test]
fn builds_webhook_notifier_without_headers() {
    let cfg = webhook_settings(None);
    match build_notifier(&cfg) {
        Ok(Notifier::Webhook { headers, .. }) => assert!(headers.is_empty()),
        _ => panic!("expected a webhook notifier"),
    }
}

#[test]
fn webhook_without_settings_is_a_config_error() {
    let cfg = Settings { notifier_type: "webhook".to_string(), webhook: None };
    match build_notifier(&cfg) {
        Err(e) => {
            assert!(matches!(e, ConfigError::MissingWebhookSettings));
            assert_eq!(e.message(), "no webhook settings found");
        }
        Ok(_) => panic!("expected a config error"),
    }
}

#[test]
fn builds_noop_notifier() {
    let cfg = Settings { notifier_type: "noop".to_string(), webhook: None };
    assert!(matches!(build_notifier(&cfg), Ok(Notifier::NoOp)));
}

#[test]
fn unknown_notifier_kind_is_a_config_error() {
    let cfg = Settings { notifier_type: "gcm".to_string(), webhook: None };
    match build_notifier(&cfg) {
        Err(ConfigError::UnsupportedNotifier(t)) => assert_eq!(t, "gcm"),
        _ => panic!("expected an unsupported-notifier error"),
    }
}

#[test]
fn noop_notification_succeeds_locally() {
    let action = plan_notification(&Notifier::NoOp, "svc".to_string());
    assert!(matches!(action, NotifyAction::Succeed));
}

#[test]
fn webhook_notification_carries_the_key() {
    let notifier = Notifier::Webhook {
        url: "http://localhost:9000/alert".to_string(),
        method: "PUT".to_string(),
        headers: vec![("X-A".to_string(), "1".to_string())],
    };
    match plan_notification(&notifier, "svc-a".to_string()) {
        NotifyAction::Request { url, method, headers, key } => {
            assert_eq!(url, "http://localhost:9000/alert");
            assert_eq!(method, "PUT");
            assert_eq!(headers, vec![("X-A".to_string(), "1".to_string())]);
            assert_eq!(key, "svc-a");
        }
        NotifyAction::Succeed => panic!("expected a request"),
    }
}

#[test]
fn failed_delivery_does_not_block_the_next_alert() {
    // The notifier fails on k1; k2 still gets its delivery attempt, in order.
    let alerts = vec!["k1".to_string(), "k2".to_string()];
    let outcomes = vec![false, true];
    let log = dispatch_all(&alerts, &outcomes);
    assert_eq!(log.len(), 2);
    assert_eq!(log[0].key, "k1");
    assert!(!log[0].delivered);
    assert_eq!(log[1].key, "k2");
    assert!(log[1].delivered);
}

#[test]
fn dispatch_keeps_alert_order() {
    let alerts: Vec<String> = (0..10).map(|i| format!("svc-{}", i)).collect();
    let outcomes = vec![true; 10];
    let log = dispatch_all(&alerts, &outcomes);
    assert_eq!(log.len(), 10);
    for (i, record) in log.iter().enumerate() {
        assert_eq!(record.key, format!("svc-{}", i));
    }
}

#[test]
fn full_queue_rejects_pings_without_crashing() {
    let mut q = PingQueue::new(2);
    assert!(q.try_enqueue("a".to_string()));
    assert!(q.try_enqueue("b".to_string()));
    assert!(!q.try_enqueue("c".to_string()));
    assert_eq!(q.len(), 2);
    assert_eq!(ping_status_code(false), 503);
    assert_eq!(ping_status_code(true), 200);
}

#[test]
fn queue_hands_pings_out_in_arrival_order() {
    let mut q = PingQueue::new(8);
    assert!(q.try_enqueue("a".to_string()));
    assert!(q.try_enqueue("b".to_string()));
    assert_eq!(q.dequeue(), Some("a".to_string()));
    assert_eq!(q.dequeue(), Some("b".to_string()));
    assert_eq!(q.dequeue(), None);
}
