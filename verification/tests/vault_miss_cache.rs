use rustconn::clock::Timestamp;
use rustconn::secrets::SecretBackendType;
use rustconn::vault_miss_cache::{
    forget, forget_all, known_missing, known_missing_at, note_missing, note_missing_at, MissCache,
    TTL_SECONDS,
};

/// A moment of the present, so many seconds ago.
fn ago(seconds: i64) -> Timestamp {
    let now = chrono::Utc::now();
    Timestamp { secs: now.timestamp() - seconds, nanos: now.timestamp_subsec_nanos() }
}

#[test]
fn an_unrecorded_connection_is_not_known_missing() {
    let cache = MissCache::new();
    assert!(!known_missing(&cache, 1, SecretBackendType::LibSecret));
}

#[test]
fn a_recorded_connection_is_known_missing_for_that_backend() {
    let mut cache = MissCache::new();
    note_missing(&mut cache, 1, SecretBackendType::LibSecret);
    assert!(known_missing(&cache, 1, SecretBackendType::LibSecret));
}

#[test]
fn a_different_backend_does_not_reuse_the_answer() {
    let mut cache = MissCache::new();
    note_missing(&mut cache, 1, SecretBackendType::LibSecret);
    assert!(!known_missing(&cache, 1, SecretBackendType::Bitwarden));
}

#[test]
fn forget_makes_the_connection_unknown_again() {
    let mut cache = MissCache::new();
    note_missing(&mut cache, 1, SecretBackendType::LibSecret);
    forget(&mut cache, 1);
    assert!(!known_missing(&cache, 1, SecretBackendType::LibSecret));
}

#[test]
fn forget_leaves_other_connections_alone() {
    let mut cache = MissCache::new();
    note_missing(&mut cache, 1, SecretBackendType::LibSecret);
    note_missing(&mut cache, 2, SecretBackendType::LibSecret);
    forget(&mut cache, 1);
    assert!(!known_missing(&cache, 1, SecretBackendType::LibSecret));
    assert!(known_missing(&cache, 2, SecretBackendType::LibSecret));
}

#[test]
fn an_expired_answer_is_not_trusted() {
    let mut cache = MissCache::new();
    note_missing_at(&mut cache, 1, SecretBackendType::LibSecret, ago(TTL_SECONDS + 1));
    assert!(!known_missing(&cache, 1, SecretBackendType::LibSecret));
}

#[test]
fn an_answer_just_inside_the_ttl_is_still_trusted() {
    let mut cache = MissCache::new();
    note_missing_at(&mut cache, 1, SecretBackendType::LibSecret, ago(TTL_SECONDS - 1));
    assert!(known_missing(&cache, 1, SecretBackendType::LibSecret));
}

#[test]
fn a_clock_that_went_backwards_does_not_expire_the_answer() {
    let mut cache = MissCache::new();
    note_missing_at(&mut cache, 1, SecretBackendType::LibSecret, ago(-60));
    assert!(known_missing(&cache, 1, SecretBackendType::LibSecret));
}

#[test]
fn an_answer_lasts_to_the_second() {
    let at = Timestamp { secs: 1_000, nanos: 999_999_999 };
    let mut cache = MissCache::new();
    note_missing_at(&mut cache, 1, SecretBackendType::Pass, at);
    let edge = Timestamp { secs: 1_000 + TTL_SECONDS + 1, nanos: 999_999_998 };
    assert!(known_missing_at(&cache, 1, SecretBackendType::Pass, edge));
    let over = Timestamp { secs: 1_000 + TTL_SECONDS + 1, nanos: 999_999_999 };
    assert!(!known_missing_at(&cache, 1, SecretBackendType::Pass, over));
    let earlier = Timestamp { secs: -5, nanos: 0 };
    assert!(known_missing_at(&cache, 1, SecretBackendType::Pass, earlier));
}

#[test]
fn forget_all_empties_the_cache() {
    let mut cache = MissCache::new();
    note_missing(&mut cache, 1, SecretBackendType::LibSecret);
    note_missing(&mut cache, 2, SecretBackendType::Bitwarden);
    forget_all(&mut cache);
    assert!(!known_missing(&cache, 1, SecretBackendType::LibSecret));
    assert!(!known_missing(&cache, 2, SecretBackendType::Bitwarden));
}
