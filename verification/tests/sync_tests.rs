//! Sync-coordinator behavior: the idle start, starting and stopping,
//! tick-by-tick progress, and the settled end state.

use runes_sdk::sync::SyncService;

#[test]
fn test_sync_service_initialization() {
    let service = SyncService::new(100);
    let status = service.get_sync_status().unwrap();
    assert!(!status.is_syncing);
    assert_eq!(status.current_height, 0);
    assert_eq!(status.target_height, 0);
    assert_eq!(status.progress_milli, 0);
    assert!(status.estimated_time_remaining.is_none());
}

#[test]
fn test_start_sync() {
    let mut service = SyncService::new(100);
    let result = service.start_sync(12_345);
    assert!(result.is_ok());

    let status = service.get_sync_status().unwrap();
    assert!(status.is_syncing);
    assert!(status.target_height > 0);
}

#[test]
fn test_start_sync_is_a_noop_while_syncing() {
    let mut service = SyncService::new(100);
    service.start_sync(10).unwrap();
    service.sync_tick();
    let before = service.get_sync_status().unwrap();
    service.start_sync(99).unwrap();
    let after = service.get_sync_status().unwrap();
    assert_eq!(before, after);
}

#[test]
fn test_stop_sync() {
    let mut service = SyncService::new(100);
    service.start_sync(1000).unwrap();
    service.sync_tick();
    service.sync_tick();

    let result = service.stop_sync();
    assert!(result.is_ok());
    let status = service.get_sync_status().unwrap();
    assert!(!status.is_syncing);

    // Stopping again changes nothing.
    assert!(service.stop_sync().is_ok());
    assert!(!service.get_sync_status().unwrap().is_syncing);
}

#[test]
fn test_sync_progress() {
    let mut service = SyncService::new(100);
    service.start_sync(500).unwrap();

    for _ in 0..5 {
        assert!(service.sync_tick());
    }

    let status = service.get_sync_status().unwrap();
    assert!(status.progress_milli > 0);
    assert!(status.progress_milli <= 1000);
    assert!(status.estimated_time_remaining.is_some());
    assert_eq!(status.current_height, 5);
    // 495 blocks remain at 2 seconds per block.
    assert_eq!(status.estimated_time_remaining, Some(990));
    // 5 of 500 blocks is 1.0% = 10 thousandths.
    assert_eq!(status.progress_milli, 10);
}

#[test]
fn test_sync_runs_to_completion() {
    let mut service = SyncService::new(100);
    service.start_sync(3).unwrap();

    let mut ticks = 0;
    while service.sync_tick() {
        ticks += 1;
        assert!(ticks <= 4);
        let status = service.get_sync_status().unwrap();
        assert!(status.current_height <= status.target_height);
        assert!(status.progress_milli <= 1000);
    }

    let status = service.get_sync_status().unwrap();
    assert!(!status.is_syncing);
    assert_eq!(status.current_height, 3);
    assert_eq!(status.progress_milli, 1000);
    assert!(status.estimated_time_remaining.is_none());
}

#[test]
fn test_start_sync_with_reached_target_completes_immediately() {
    let mut service = SyncService::new(100);
    service.start_sync(2).unwrap();
    while service.sync_tick() {}

    // The chain moved no further: a new sync toward the same height is
    // already complete.
    service.start_sync(2).unwrap();
    let status = service.get_sync_status().unwrap();
    assert!(!status.is_syncing);
    assert_eq!(status.progress_milli, 1000);
}
