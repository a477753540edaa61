use fishgame::cache::{same_bytes, NetworkCache, HEARTBEAT_MICROS, NETWORK_FPS};

#[test]
fn the_heartbeat_is_a_fifteenth_of_a_second() {
    assert_eq!(NETWORK_FPS, 15);
    assert_eq!(HEARTBEAT_MICROS, 66_667);
    assert!((HEARTBEAT_MICROS - 1) * NETWORK_FPS < 1_000_000);
    assert!(HEARTBEAT_MICROS * NETWORK_FPS >= 1_000_000);
}

#[test]
fn a_new_cache_lets_the_first_snapshot_through() {
    let cache = NetworkCache::new();
    assert!(cache.should_send(&[0; 11], 0, false));
    assert!(cache.should_send(&[1; 11], 5, false));
}

#[test]
fn an_unchanged_snapshot_is_held_back_until_the_interval_has_passed() {
    let mut cache = NetworkCache::new();
    let snap = [7u8; 11];
    cache.record_send(&snap, 1_000);
    assert!(!cache.should_send(&snap, 1_000, false));
    assert!(!cache.should_send(&snap, 1_001, false));
    assert!(!cache.should_send(&snap, 1_000 + HEARTBEAT_MICROS - 1, false));
    assert!(cache.should_send(&snap, 1_000 + HEARTBEAT_MICROS, false));
    assert!(cache.should_send(&snap, 1_000 + HEARTBEAT_MICROS + 1, false));
}

#[test]
fn a_changed_snapshot_is_sent_at_once() {
    let mut cache = NetworkCache::new();
    cache.record_send(&[7; 11], 1_000);
    let mut other = [7u8; 11];
    other[10] = 8;
    assert!(cache.should_send(&other, 1_000, false));
}

#[test]
fn a_forced_send_is_never_held_back() {
    let mut cache = NetworkCache::new();
    cache.record_send(&[7; 11], 1_000);
    assert!(cache.should_send(&[7; 11], 1_000, true));
}

#[test]
fn a_clock_that_went_back_counts_as_no_time_passed() {
    let mut cache = NetworkCache::new();
    cache.record_send(&[7; 11], 1_000_000);
    assert!(!cache.should_send(&[7; 11], 5, false));
}

#[test]
fn a_flush_forces_the_next_send() {
    let mut cache = NetworkCache::new();
    cache.record_send(&[0; 11], 10);
    assert!(!cache.should_send(&[0; 11], 11, false));
    cache.flush();
    assert!(cache.should_send(&[0; 11], 11, false));
    assert_eq!(cache.sent_position, [0; 11]);
    assert_eq!(cache.last_send_time, 0);
    cache.record_send(&[0; 11], 12);
    assert!(!cache.should_send(&[0; 11], 13, false));
}

#[test]
fn snapshots_are_compared_byte_by_byte() {
    let a = [1u8, 2, 3, 4, 5, 6, 7, 8, 9, 10, 11];
    let mut b = a;
    assert!(same_bytes(&a, &b));
    b[0] = 0;
    assert!(!same_bytes(&a, &b));
    b = a;
    b[10] = 0;
    assert!(!same_bytes(&a, &b));
}
