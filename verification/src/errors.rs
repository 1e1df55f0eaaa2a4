//! Error kinds shared by all services, with a stable machine-readable code
//! for each kind.

use vstd::prelude::*;

verus! {

/// Every failure a service can report. Recoverable conditions (a rate
/// limit, a missed cache entry, a failed delivery attempt) are ordinary
/// result values of this type, never panics.
#[derive(Debug, Clone, PartialEq)]
pub enum RuneError {
    NodeConnectionError(String),
    NodeResponseError(String),
    NodeSyncError(String),
    InvalidTransaction(String),
    InvalidAddress(String),
    InvalidRequest(String),
    RateLimitExceeded,
    CacheError(String),
    WebhookError(String),
    WebhookValidationError(String),
    ConfigError(String),
    DatabaseError(String),
    SerializationError(String),
    InternalError(String),
}

/// The machine-readable code that `RuneError::error_code` returns for each
/// error kind; the mapping is total and stable.
pub open spec fn spec_error_code(e: RuneError) -> Seq<char> {
    match e {
        RuneError::NodeConnectionError(_) => "NODE_CONNECTION_ERROR"@,
        RuneError::NodeResponseError(_) => "NODE_RESPONSE_ERROR"@,
        RuneError::NodeSyncError(_) => "NODE_SYNC_ERROR"@,
        RuneError::InvalidTransaction(_) => "INVALID_TRANSACTION"@,
        RuneError::InvalidAddress(_) => "INVALID_ADDRESS"@,
        RuneError::InvalidRequest(_) => "INVALID_REQUEST"@,
        RuneError::RateLimitExceeded => "RATE_LIMIT_EXCEEDED"@,
        RuneError::CacheError(_) => "CACHE_ERROR"@,
        RuneError::WebhookError(_) => "WEBHOOK_ERROR"@,
        RuneError::WebhookValidationError(_) => "WEBHOOK_VALIDATION_ERROR"@,
        RuneError::ConfigError(_) => "CONFIG_ERROR"@,
        RuneError::DatabaseError(_) => "DATABASE_ERROR"@,
        RuneError::SerializationError(_) => "SERIALIZATION_ERROR"@,
        RuneError::InternalError(_) => "INTERNAL_ERROR"@,
    }
}

impl RuneError {
    /// The stable upper-case code of this error kind, one per kind.
    pub fn error_code(&self) -> (r: String)
        ensures
            r@ == spec_error_code(*self),
    {
        match self {
            RuneError::NodeConnectionError(_) => "NODE_CONNECTION_ERROR".to_owned(),
            RuneError::NodeResponseError(_) => "NODE_RESPONSE_ERROR".to_owned(),
            RuneError::NodeSyncError(_) => "NODE_SYNC_ERROR".to_owned(),
            RuneError::InvalidTransaction(_) => "INVALID_TRANSACTION".to_owned(),
            RuneError::InvalidAddress(_) => "INVALID_ADDRESS".to_owned(),
            RuneError::InvalidRequest(_) => "INVALID_REQUEST".to_owned(),
            RuneError::RateLimitExceeded => "RATE_LIMIT_EXCEEDED".to_owned(),
            RuneError::CacheError(_) => "CACHE_ERROR".to_owned(),
            RuneError::WebhookError(_) => "WEBHOOK_ERROR".to_owned(),
            RuneError::WebhookValidationError(_) => "WEBHOOK_VALIDATION_ERROR".to_owned(),
            RuneError::ConfigError(_) => "CONFIG_ERROR".to_owned(),
            RuneError::DatabaseError(_) => "DATABASE_ERROR".to_owned(),
            RuneError::SerializationError(_) => "SERIALIZATION_ERROR".to_owned(),
            RuneError::InternalError(_) => "INTERNAL_ERROR".to_owned(),
        }
    }
}

/// Errors of the thin RPC/WebSocket client layer.
#[derive(Debug, Clone, PartialEq)]
pub enum Error {
    InvalidTransaction(String),
    NetworkError(String),
    JsonRpcError(String, String),
    DatabaseError(String),
    NodeConnectionError(String),
    ParseError(String),
    WebSocketError(String),
}

} // verus!
