//! Plain data types for transactions and rune transfers as the services
//! hold them. Optional structured metadata travels as its raw JSON text,
//! so the types stay plain values.

use vstd::prelude::*;

verus! {

#[derive(Debug, Clone, Copy, PartialEq, Eq, Structural)]
pub enum TransferType {
    Mint,
    Transfer,
    Burn,
}

#[derive(Debug, Clone, Copy, PartialEq, Eq, Structural)]
pub enum TransactionStatus {
    Pending,
    Confirmed,
    Failed,
}

#[derive(Debug, Clone, Copy, PartialEq, Eq, Structural)]
pub enum NetworkType {
    Mainnet,
    Testnet,
}

/// One rune movement inside a transaction.
#[derive(Debug, Clone)]
pub struct RuneTransfer {
    pub rune_id: String,
    pub from_address: String,
    pub to_address: String,
    pub amount: u64,
    pub transfer_type: TransferType,
    pub fee: Option<u64>,
    /// Raw JSON text of optional structured metadata, if any.
    pub metadata: Option<String>,
}

/// A transaction lookup answer, as cached and served.
#[derive(Debug, Clone)]
pub struct RunesTransactionResponse {
    pub transaction_id: String,
    pub runes: Vec<RuneTransfer>,
    pub block_height: Option<u32>,
    pub confirmation_count: u32,
    pub timestamp: u64,
    pub network_type: NetworkType,
    pub status: TransactionStatus,
}

#[derive(Debug, Clone, Copy, PartialEq, Eq, Structural)]
pub enum TransactionType {
    Mint,
    Transfer,
    Burn,
}

/// The wire form of a batch lookup: which transactions to fetch in one
/// request. A batch may be charged more than one admission token.
#[derive(Debug, Clone)]
pub struct BatchTransactionRequest {
    pub transaction_ids: Vec<String>,
    pub include_confirmations: bool,
}

/// The wire form of a batch answer: the transactions found, and the ids
/// whose lookup failed — a failed id never fails the whole batch.
#[derive(Debug, Clone)]
pub struct BatchTransactionResponse {
    pub transactions: Vec<RunesTransactionResponse>,
    pub failed_transactions: Vec<String>,
}

/// A node-level transaction record returned by the RPC client.
#[derive(Debug, Clone)]
pub struct Transaction {
    pub txid: String,
    pub block_height: Option<u64>,
    pub confirmations: u32,
    pub timestamp: u64,
    pub transaction_type: TransactionType,
}

} // verus!
