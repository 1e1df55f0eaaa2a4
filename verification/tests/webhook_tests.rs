//! Webhook-engine behavior: registration and its URL check, the
//! replace-on-reregister policy, unregistration, recipient selection,
//! the retry ladder and its backoff, and payload signing.

use runes_sdk::errors::RuneError;
use runes_sdk::signing::compute_signature;
use runes_sdk::webhook::{
    backoff_delay_ms, default_max_retries, default_retry_delay, delivery_report, signature_for,
    RegisterWebhookRequest, WebhookConfig, WebhookEventType, WebhookManager,
};

fn config(url: &str, secret: Option<&str>, events: Vec<WebhookEventType>) -> WebhookConfig {
    WebhookConfig {
        url: url.to_string(),
        secret: secret.map(|s| s.to_string()),
        events,
        max_retries: 3,
        retry_delay_ms: 1000,
    }
}

#[test]
fn test_register_webhook() {
    let mut manager = WebhookManager::new();
    let result = manager.register_webhook(config(
        "https://example.com/webhook",
        Some("test-secret"),
        vec![WebhookEventType::TransactionConfirmed],
    ));
    assert!(result.is_ok());
    assert_eq!(manager.webhook_count(), 1);
}

#[test]
fn test_register_webhook_invalid_url() {
    let mut manager = WebhookManager::new();
    let result = manager.register_webhook(config(
        "invalid-url",
        None,
        vec![WebhookEventType::TransactionConfirmed],
    ));
    match result {
        Err(RuneError::ConfigError(m)) => assert_eq!(m, "Invalid webhook URL"),
        _ => panic!("an invalid URL must be rejected as a ConfigError"),
    }
    assert_eq!(manager.webhook_count(), 0);
}

#[test]
fn test_unregister_webhook() {
    let mut manager = WebhookManager::new();
    manager
        .register_webhook(config(
            "https://example.com/webhook",
            None,
            vec![WebhookEventType::TransactionConfirmed],
        ))
        .unwrap();

    let result = manager.unregister_webhook("https://example.com/webhook");
    assert!(result.is_ok());
    assert_eq!(manager.webhook_count(), 0);

    // A dispatch after unregistration selects nothing.
    assert!(manager.select_recipients(WebhookEventType::TransactionConfirmed).is_empty());
}

#[test]
fn test_unregister_nonexistent_webhook() {
    let mut manager = WebhookManager::new();
    let result = manager.unregister_webhook("https://nonexistent.com/webhook");
    match result {
        Err(RuneError::ConfigError(m)) => assert_eq!(m, "Webhook not found"),
        _ => panic!("unregistering an unknown URL must be a ConfigError"),
    }
}

#[test]
fn test_dispatch_selection_roundtrip() {
    // A subscriber registered for TransactionConfirmed is selected for
    // exactly that kind, exactly once; dispatching another kind selects
    // nobody.
    let mut manager = WebhookManager::new();
    manager
        .register_webhook(config(
            "https://a.example/hook",
            None,
            vec![WebhookEventType::TransactionConfirmed],
        ))
        .unwrap();

    let selected = manager.select_recipients(WebhookEventType::TransactionConfirmed);
    assert_eq!(selected, vec![0]);
    assert_eq!(manager.config_at(selected[0]).url, "https://a.example/hook");

    // One successful first attempt is exactly one delivery attempt.
    let outcomes = vec![true, true, true];
    let report = delivery_report(&outcomes, manager.config_at(0).max_retries);
    assert!(report.delivered);
    assert_eq!(report.attempts, 1);

    assert!(manager.select_recipients(WebhookEventType::RuneTransfer).is_empty());
    assert!(manager.select_recipients(WebhookEventType::BlockSynced).is_empty());
}

#[test]
fn test_reregistering_replaces() {
    let mut manager = WebhookManager::new();
    manager
        .register_webhook(config(
            "https://a.example/hook",
            None,
            vec![WebhookEventType::TransactionConfirmed],
        ))
        .unwrap();
    manager
        .register_webhook(config("https://a.example/hook", None, vec![
            WebhookEventType::BlockSynced,
        ]))
        .unwrap();

    assert_eq!(manager.webhook_count(), 1);
    assert!(manager.select_recipients(WebhookEventType::TransactionConfirmed).is_empty());
    assert_eq!(manager.select_recipients(WebhookEventType::BlockSynced), vec![0]);
}

#[test]
fn test_retry_ladder_counts_attempts() {
    // An endpoint failing its first two attempts and succeeding on the
    // third receives exactly three attempts under a cap of three.
    let outcomes = vec![false, false, true];
    let report = delivery_report(&outcomes, 3);
    assert!(report.delivered);
    assert_eq!(report.attempts, 3);

    // All attempts failing exhausts the cap without a delivery.
    let outcomes = vec![false, false, false];
    let report = delivery_report(&outcomes, 3);
    assert!(!report.delivered);
    assert_eq!(report.attempts, 3);

    // A success on the second attempt stops the ladder early.
    let outcomes = vec![false, true, false];
    let report = delivery_report(&outcomes, 3);
    assert!(report.delivered);
    assert_eq!(report.attempts, 2);
}

#[test]
fn test_backoff_doubles_and_never_shrinks() {
    assert_eq!(backoff_delay_ms(1000, 1), 1000);
    assert_eq!(backoff_delay_ms(1000, 2), 2000);
    assert_eq!(backoff_delay_ms(1000, 3), 4000);
    assert_eq!(backoff_delay_ms(250, 4), 2000);

    let mut last = 0;
    for attempt in 1..20 {
        let d = backoff_delay_ms(1000, attempt);
        assert!(d >= last);
        last = d;
    }

    // A huge exponent clamps instead of overflowing.
    assert_eq!(backoff_delay_ms(1000, 200), u64::MAX);
}

#[test]
fn test_failed_delivery_counter() {
    let mut manager = WebhookManager::new();
    assert_eq!(manager.failed_delivery_count(), 0);
    manager.record_failed_delivery();
    manager.record_failed_delivery();
    assert_eq!(manager.failed_delivery_count(), 2);
}

#[test]
fn test_signature_known_answer() {
    // HMAC-SHA256 test vector (RFC 4231, case 2), hex-encoded in
    // lowercase as the signature header carries it.
    let sig = compute_signature("Jefe", "what do ya want for nothing?");
    assert_eq!(sig.len(), 64);
    assert_eq!(sig, "5bdcc146bf60754e6a042426089575c75a003f089d2739839dec58b964ec3843");
}

#[test]
fn test_signature_only_with_secret() {
    let with_secret = config("https://a.example/hook", Some("Jefe"), vec![]);
    let sig = signature_for(&with_secret, "what do ya want for nothing?");
    assert_eq!(
        sig.as_deref(),
        Some("5bdcc146bf60754e6a042426089575c75a003f089d2739839dec58b964ec3843"),
    );

    let without_secret = config("https://a.example/hook", None, vec![]);
    assert!(signature_for(&without_secret, "anything").is_none());
}

#[test]
fn test_request_becomes_config_unchanged() {
    let request = RegisterWebhookRequest {
        url: "https://example.com/webhook".to_string(),
        secret: Some("test-secret".to_string()),
        events: vec![WebhookEventType::TransactionConfirmed, WebhookEventType::RuneTransfer],
        max_retries: 5,
        retry_delay: 250,
    };
    let config = request.into_config();
    assert_eq!(config.url, "https://example.com/webhook");
    assert_eq!(config.secret.as_deref(), Some("test-secret"));
    assert_eq!(config.events.len(), 2);
    assert_eq!(config.max_retries, 5);
    assert_eq!(config.retry_delay_ms, 250);
}

#[test]
fn test_defaults() {
    assert_eq!(default_max_retries(), 3);
    assert_eq!(default_retry_delay(), 1000);
}
