//! Response-cache behavior: hits and misses, expiry, capacity
//! eviction, invalidation, and the counter readings.

use runes_sdk::cache::{CacheConfig, CacheMetrics, RunesCache};
use runes_sdk::runes::{
    NetworkType, RuneTransfer, RunesTransactionResponse, TransactionStatus, TransferType,
};

fn tx(id: &str, confirmations: u32) -> RunesTransactionResponse {
    RunesTransactionResponse {
        transaction_id: id.to_string(),
        runes: vec![],
        block_height: None,
        confirmation_count: confirmations,
        timestamp: 0,
        network_type: NetworkType::Mainnet,
        status: TransactionStatus::Confirmed,
    }
}

fn transfer(rune_id: &str, amount: u64, from: &str, to: &str) -> RuneTransfer {
    RuneTransfer {
        rune_id: rune_id.to_string(),
        from_address: from.to_string(),
        to_address: to.to_string(),
        amount,
        transfer_type: TransferType::Transfer,
        fee: None,
        metadata: None,
    }
}

fn small_config() -> CacheConfig {
    CacheConfig {
        transaction_cache_size: 2,
        transaction_ttl_ms: 1000,
        address_cache_size: 2,
        address_ttl_ms: 1000,
    }
}

#[test]
fn test_transaction_cache() {
    let mut cache = RunesCache::new(small_config(), CacheMetrics::new());

    // Miss before any set.
    assert!(cache.get_transaction("tx1", 0).is_none());

    cache.set_transaction("tx1".to_string(), tx("tx1", 6), 0).unwrap();
    let cached = cache.get_transaction("tx1", 0).unwrap();
    assert_eq!(cached.transaction_id, "tx1");

    cache.set_transaction("tx2".to_string(), tx("tx2", 3), 0).unwrap();

    // Two seconds later both entries are past their lifetime.
    assert!(cache.get_transaction("tx1", 2000).is_none());
    assert!(cache.get_transaction("tx2", 2000).is_none());
}

#[test]
fn test_address_cache() {
    let mut cache = RunesCache::new(small_config(), CacheMetrics::new());

    assert!(cache.get_address_transfers("addr1", 0).is_none());

    let transfers1 = vec![transfer("rune1", 100, "addr1", "addr2")];
    cache.set_address_transfers("addr1".to_string(), transfers1, 0).unwrap();
    let cached = cache.get_address_transfers("addr1", 0).unwrap();
    assert_eq!(cached.len(), 1);
    assert_eq!(cached[0].rune_id, "rune1");

    let transfers2 = vec![transfer("rune2", 200, "addr2", "addr3")];
    cache.set_address_transfers("addr2".to_string(), transfers2, 0).unwrap();

    assert!(cache.get_address_transfers("addr1", 2000).is_none());
    assert!(cache.get_address_transfers("addr2", 2000).is_none());
}

#[test]
fn test_cache_invalidation() {
    let mut cache = RunesCache::new(
        CacheConfig {
            transaction_cache_size: 100,
            transaction_ttl_ms: 60_000,
            address_cache_size: 100,
            address_ttl_ms: 60_000,
        },
        CacheMetrics::new(),
    );

    cache.set_transaction("tx1".to_string(), tx("tx1", 6), 0).unwrap();
    let transfers = vec![transfer("rune1", 100, "addr1", "addr2")];
    cache.set_address_transfers("addr1".to_string(), transfers.clone(), 0).unwrap();

    cache.invalidate_transaction("tx1");
    assert!(cache.get_transaction("tx1", 0).is_none());
    assert!(cache.get_address_transfers("addr1", 0).is_some());

    cache.invalidate_address("addr1");
    assert!(cache.get_address_transfers("addr1", 0).is_none());

    cache.set_transaction("tx1".to_string(), tx("tx1", 6), 0).unwrap();
    cache.set_address_transfers("addr1".to_string(), transfers, 0).unwrap();

    cache.clear_all();
    assert!(cache.get_transaction("tx1", 0).is_none());
    assert!(cache.get_address_transfers("addr1", 0).is_none());
}

#[test]
fn test_cache_metrics() {
    let mut cache = RunesCache::new(
        CacheConfig {
            transaction_cache_size: 1,
            transaction_ttl_ms: 60_000,
            address_cache_size: 1,
            address_ttl_ms: 60_000,
        },
        CacheMetrics::new(),
    );

    cache.get_transaction("tx1", 0);
    let stats = cache.get_metrics();
    assert_eq!(stats.misses, 1);
    assert_eq!(stats.hits, 0);
    assert_eq!(stats.evictions, 0);

    cache.set_transaction("tx1".to_string(), tx("tx1", 6), 0).unwrap();
    cache.get_transaction("tx1", 0);
    let stats = cache.get_metrics();
    assert_eq!(stats.hits, 1);

    // A second key in a one-entry namespace evicts the first.
    cache.set_transaction("tx2".to_string(), tx("tx2", 3), 0).unwrap();
    let stats = cache.get_metrics();
    assert_eq!(stats.evictions, 1);
}

#[test]
fn test_eviction_under_capacity() {
    // With capacity 1, storing a second key causes exactly one
    // eviction and the first key becomes a miss.
    let mut cache = RunesCache::new(
        CacheConfig {
            transaction_cache_size: 1,
            transaction_ttl_ms: 60_000,
            address_cache_size: 1,
            address_ttl_ms: 60_000,
        },
        CacheMetrics::new(),
    );

    cache.set_transaction("a".to_string(), tx("a", 1), 0).unwrap();
    cache.set_transaction("b".to_string(), tx("b", 2), 0).unwrap();

    assert_eq!(cache.get_metrics().evictions, 1);
    assert!(cache.get_transaction("a", 0).is_none());
    assert_eq!(cache.get_transaction("b", 0).unwrap().transaction_id, "b");
}

#[test]
fn test_overwrite_is_not_an_eviction() {
    let mut cache = RunesCache::new(small_config(), CacheMetrics::new());

    cache.set_transaction("tx1".to_string(), tx("tx1", 1), 0).unwrap();
    cache.set_transaction("tx1".to_string(), tx("tx1", 9), 0).unwrap();

    assert_eq!(cache.get_metrics().evictions, 0);
    assert_eq!(cache.get_metrics().transaction_cache_size, 1);
    assert_eq!(cache.get_transaction("tx1", 0).unwrap().confirmation_count, 9);
}

#[test]
fn test_expiry_boundary() {
    // An entry set at t with a 1000 ms lifetime answers at t+999 and is
    // a miss from t+1000 on.
    let mut cache = RunesCache::new(small_config(), CacheMetrics::new());
    cache.set_transaction("tx1".to_string(), tx("tx1", 6), 500).unwrap();
    assert!(cache.get_transaction("tx1", 1499).is_some());
    assert!(cache.get_transaction("tx1", 1500).is_none());
}
