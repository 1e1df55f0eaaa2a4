//! Client-handle types, the data model, and the error codes.

use runes_sdk::client::{RpcClient, RunesAPI, WebSocketConfig, WebSocketService};
use runes_sdk::errors::{Error, RuneError};
use runes_sdk::logging::{LogLevel, LoggingConfig};
use runes_sdk::runes::{BatchTransactionRequest, BatchTransactionResponse, RuneTransfer, TransferType};

#[test]
fn test_rune_transfer() {
    let transfer = RuneTransfer {
        rune_id: String::from("test_rune"),
        from_address: String::from("addr1"),
        to_address: String::from("addr2"),
        amount: 100,
        transfer_type: TransferType::Transfer,
        fee: Some(10),
        metadata: None,
    };

    assert_eq!(transfer.rune_id, "test_rune");
    assert_eq!(transfer.amount, 100);
    assert_eq!(transfer.fee, Some(10));
}

#[test]
fn test_rpc_client() {
    let client = RpcClient::new("http://localhost:8332".to_string(), 5000);
    assert_eq!(client.url(), "http://localhost:8332");
    assert_eq!(client.timeout(), 5000);
}

#[test]
fn test_runes_api_holds_its_client() {
    let client = RpcClient::new("http://localhost:8332".to_string(), 5000);
    let api = RunesAPI::new(client);
    assert_eq!(api.client().url(), "http://localhost:8332");
}

#[test]
fn test_websocket_connect_reports_no_transport() {
    let service = WebSocketService::new(WebSocketConfig {
        url: "ws://localhost:1000".to_string(),
        reconnect_interval: Some(1000),
        max_reconnect_attempts: Some(3),
    });
    match service.connect() {
        Err(Error::WebSocketError(m)) => assert_eq!(m, "No WebSocket transport available"),
        _ => panic!("connect must report the missing transport"),
    }
    assert_eq!(service.config().url, "ws://localhost:1000");
}

#[test]
fn test_logging_defaults() {
    let config = LoggingConfig::default();
    assert_eq!(config.log_level, LogLevel::Info);
    assert_eq!(config.log_file_path, "logs/runes-sdk.log");
    assert!(config.json_logging);
    assert!(config.console_logging);
}

#[test]
fn test_batch_request_shapes() {
    let request = BatchTransactionRequest {
        transaction_ids: vec!["tx1".to_string(), "tx2".to_string()],
        include_confirmations: true,
    };
    assert_eq!(request.transaction_ids.len(), 2);

    let response = BatchTransactionResponse {
        transactions: vec![],
        failed_transactions: vec!["tx2".to_string()],
    };
    assert_eq!(response.failed_transactions, vec!["tx2".to_string()]);
}

#[test]
fn test_error_codes_are_stable() {
    let cases = vec![
        (RuneError::NodeConnectionError(String::new()), "NODE_CONNECTION_ERROR"),
        (RuneError::NodeResponseError(String::new()), "NODE_RESPONSE_ERROR"),
        (RuneError::NodeSyncError(String::new()), "NODE_SYNC_ERROR"),
        (RuneError::InvalidTransaction(String::new()), "INVALID_TRANSACTION"),
        (RuneError::InvalidAddress(String::new()), "INVALID_ADDRESS"),
        (RuneError::InvalidRequest(String::new()), "INVALID_REQUEST"),
        (RuneError::RateLimitExceeded, "RATE_LIMIT_EXCEEDED"),
        (RuneError::CacheError(String::new()), "CACHE_ERROR"),
        (RuneError::WebhookError(String::new()), "WEBHOOK_ERROR"),
        (RuneError::WebhookValidationError(String::new()), "WEBHOOK_VALIDATION_ERROR"),
        (RuneError::ConfigError(String::new()), "CONFIG_ERROR"),
        (RuneError::DatabaseError(String::new()), "DATABASE_ERROR"),
        (RuneError::SerializationError(String::new()), "SERIALIZATION_ERROR"),
        (RuneError::InternalError(String::new()), "INTERNAL_ERROR"),
    ];
    for (err, code) in cases {
        assert_eq!(err.error_code(), code);
    }
}
