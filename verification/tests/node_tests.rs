//! Upstream-connection behavior: the connect retry plan, height
//! parsing, the metrics record, and the error codes.

use runes_sdk::errors::RuneError;
use runes_sdk::node::{
    connect_retry_step, max_retries_error, parse_block_height, ConnectStep, MetricsCollector,
};

#[test]
fn test_connect_retry_plan() {
    // Backoff is 2^attempt seconds; the last failed attempt gives up.
    assert_eq!(connect_retry_step(0, 3), ConnectStep::RetryAfterSeconds(1));
    assert_eq!(connect_retry_step(1, 3), ConnectStep::RetryAfterSeconds(2));
    assert_eq!(connect_retry_step(2, 3), ConnectStep::GiveUp);
    assert_eq!(connect_retry_step(0, 1), ConnectStep::GiveUp);
    assert_eq!(connect_retry_step(5, 8), ConnectStep::RetryAfterSeconds(32));
}

#[test]
fn test_connection_retry_error() {
    let err = max_retries_error();
    match &err {
        RuneError::NodeConnectionError(m) => assert_eq!(m, "Max retries exceeded"),
        _ => panic!("exhausted retries must be a NodeConnectionError"),
    }
    assert_eq!(err.error_code(), "NODE_CONNECTION_ERROR");
}

#[test]
fn test_parse_block_height() {
    assert_eq!(parse_block_height("850000").unwrap(), 850_000);
    assert_eq!(parse_block_height("0").unwrap(), 0);
    assert_eq!(parse_block_height("+42").unwrap(), 42);
    assert_eq!(parse_block_height("18446744073709551615").unwrap(), u64::MAX);
}

#[test]
fn test_parse_block_height_rejects_malformed() {
    assert!(parse_block_height("").is_err());
    assert!(parse_block_height("+").is_err());
    assert!(parse_block_height("12a3").is_err());
    assert!(parse_block_height("-5").is_err());
    assert!(parse_block_height(" 7").is_err());
    assert!(parse_block_height("18446744073709551616").is_err());
    assert!(parse_block_height("99999999999999999999999").is_err());
    match parse_block_height("oops") {
        Err(RuneError::NodeConnectionError(m)) => assert_eq!(m, "Invalid height format"),
        _ => panic!("a malformed height must be a NodeConnectionError"),
    }
}

#[test]
fn test_metrics_collector() {
    let mut m = MetricsCollector::new();
    m.connection_opened();
    m.record_request(120);
    m.record_request(80);
    m.record_error();
    m.connection_closed();

    assert_eq!(m.transaction_count, 2);
    assert_eq!(m.error_count, 1);
    assert_eq!(m.response_time_ms_total, 200);
    assert_eq!(m.active_connections, 0);

    // The gauge never goes below zero.
    m.connection_closed();
    assert_eq!(m.active_connections, 0);
}
