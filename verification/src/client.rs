//! Thin client-facing value types: the JSON-RPC client handle, the
//! runes API wrapper around it, and the WebSocket service stub.
//!
//! The network calls these handles stand for (an RPC POST, a socket
//! connection) happen outside this crate; here live the handles
//! themselves, their construction, and what they expose to callers.

use vstd::prelude::*;

use crate::errors::Error;

verus! {

/// A handle on a JSON-RPC endpoint: where to call and how long to wait
/// (milliseconds).
#[derive(Debug, Clone)]
pub struct RpcClient {
    url: String,
    timeout: u64,
}

impl RpcClient {
    pub closed spec fn spec_url(self) -> Seq<char> {
        self.url@
    }

    pub closed spec fn spec_timeout(self) -> u64 {
        self.timeout
    }

    pub fn new(url: String, timeout: u64) -> (c: RpcClient)
        ensures
            c.spec_url() == url@,
            c.spec_timeout() == timeout,
    {
        RpcClient { url, timeout }
    }

    /// The endpoint this client calls.
    pub fn url(&self) -> (r: &str)
        ensures
            r@ == self.spec_url(),
    {
        self.url.as_str()
    }

    /// The configured timeout in milliseconds.
    pub fn timeout(&self) -> (r: u64)
        ensures
            r == self.spec_timeout(),
    {
        self.timeout
    }
}

/// The runes lookup API over an RPC client.
#[derive(Debug, Clone)]
pub struct RunesAPI {
    client: RpcClient,
}

impl RunesAPI {
    pub closed spec fn spec_client(self) -> RpcClient {
        self.client
    }

    pub fn new(client: RpcClient) -> (a: RunesAPI)
        ensures
            a.spec_client() == client,
    {
        RunesAPI { client }
    }

    /// The RPC client this API calls through.
    pub fn client(&self) -> (r: &RpcClient)
        ensures
            *r == self.spec_client(),
    {
        &self.client
    }
}

/// WebSocket subscription settings.
#[derive(Debug, Clone)]
pub struct WebSocketConfig {
    pub url: String,
    pub reconnect_interval: Option<u64>,
    pub max_reconnect_attempts: Option<u32>,
}

/// A WebSocket subscription handle. No transport is wired up in this
/// crate, so connecting always reports a `WebSocketError`.
#[derive(Debug, Clone)]
pub struct WebSocketService {
    config: WebSocketConfig,
}

impl WebSocketService {
    pub closed spec fn spec_config(self) -> WebSocketConfig {
        self.config
    }

    pub fn new(config: WebSocketConfig) -> (s: WebSocketService)
        ensures
            s.spec_config() == config,
    {
        WebSocketService { config }
    }

    /// The configured subscription settings.
    pub fn config(&self) -> (r: &WebSocketConfig)
        ensures
            *r == self.spec_config(),
    {
        &self.config
    }

    /// Reports that no WebSocket transport is available here: every
    /// call answers the same `WebSocketError`.
    pub fn connect(&self) -> (r: Result<(), Error>)
        ensures
            r matches Err(Error::WebSocketError(m)) && m@ == "No WebSocket transport available"@,
    {
        Err(Error::WebSocketError("No WebSocket transport available".to_owned()))
    }
}

} // verus!
