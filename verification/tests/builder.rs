use lib::common::builder_utils::{check_expirations, BuildError, MAX_EXPIRATION_SECS};
use lib::future::builder::CacheBuilder;
use lib::future::cache::Cache;
use lib::notification::{Configuration, DeliveryMode, RemovalCause};
use lib::time::Duration;
use std::collections::hash_map::RandomState;
use std::sync::Arc;

#[test]
fn built_cache_reports_its_policy() {
    let cache: Cache<char, String> = CacheBuilder::new(100).build();
    let policy = cache.policy();

    assert_eq!(policy.max_capacity(), Some(100));
    assert_eq!(policy.time_to_live(), None);
    assert_eq!(policy.time_to_idle(), None);
    assert_eq!(policy.num_segments(), 1);

    let cache: Cache<char, String> = CacheBuilder::new(100)
        .time_to_live(Duration::from_secs(45 * 60))
        .time_to_idle(Duration::from_secs(15 * 60))
        .build();
    let policy = cache.policy();

    assert_eq!(policy.max_capacity(), Some(100));
    assert_eq!(policy.time_to_live(), Some(Duration::from_secs(45 * 60)));
    assert_eq!(policy.time_to_idle(), Some(Duration::from_secs(15 * 60)));
    assert_eq!(policy.num_segments(), 1);
}

#[test]
#[should_panic(expected = "time_to_live is longer than 1000 years")]
fn build_cache_too_long_ttl() {
    let thousand_years_secs: u64 = 1000 * 365 * 24 * 3600;
    let builder: CacheBuilder<char, String, _> = CacheBuilder::new(100);
    let duration = Duration::from_secs(thousand_years_secs);
    let builder = builder.time_to_live(duration.checked_add(Duration::from_secs(1)).unwrap());
    if let Err(e) = builder.validate() {
        panic!("{}", e.message());
    }
    builder.build();
}

#[test]
#[should_panic(expected = "time_to_idle is longer than 1000 years")]
fn build_cache_too_long_tti() {
    let thousand_years_secs: u64 = 1000 * 365 * 24 * 3600;
    let builder: CacheBuilder<char, String, _> = CacheBuilder::new(100);
    let duration = Duration::from_secs(thousand_years_secs);
    let builder = builder.time_to_idle(duration.checked_add(Duration::from_secs(1)).unwrap());
    if let Err(e) = builder.validate() {
        panic!("{}", e.message());
    }
    builder.build();
}

#[test]
fn thousand_years_is_accepted() {
    let limit = Duration::from_secs(MAX_EXPIRATION_SECS);
    let builder = CacheBuilder::new(10).time_to_live(limit).time_to_idle(limit);
    assert_eq!(builder.validate(), Ok(()));
    let cache: Cache<u32, u32> = builder.build();
    assert_eq!(cache.policy().time_to_live(), Some(limit));
    assert_eq!(cache.policy().time_to_idle(), Some(limit));
}

#[test]
fn one_nanosecond_past_thousand_years_is_refused() {
    let over = Duration::new(MAX_EXPIRATION_SECS, 1);
    let builder = CacheBuilder::<u32, u32, _>::new(10).time_to_idle(over);
    assert_eq!(builder.validate(), Err(BuildError::TimeToIdleTooLong));
    let builder = builder.time_to_live(over);
    assert_eq!(builder.validate(), Err(BuildError::TimeToLiveTooLong));
}

#[test]
fn time_to_live_is_reported_before_time_to_idle() {
    let over = Duration::from_secs(MAX_EXPIRATION_SECS + 1);
    assert_eq!(check_expirations(Some(over), Some(over)), Err(BuildError::TimeToLiveTooLong));
    assert_eq!(check_expirations(None, Some(over)), Err(BuildError::TimeToIdleTooLong));
    assert_eq!(check_expirations(Some(over), None), Err(BuildError::TimeToLiveTooLong));
    assert_eq!(check_expirations(None, None), Ok(()));
}

#[test]
fn build_error_messages() {
    assert_eq!(BuildError::TimeToLiveTooLong.message(), "time_to_live is longer than 1000 years");
    assert_eq!(BuildError::TimeToIdleTooLong.message(), "time_to_idle is longer than 1000 years");
}

#[test]
fn setters_change_only_their_own_setting() {
    let cache: Cache<u64, u64, _, _, _> = CacheBuilder::new(5)
        .name("users")
        .initial_capacity(16)
        .max_capacity(7)
        .support_invalidation_closures()
        .weigher(|_k: &u64, v: &u64| *v as u32)
        .eviction_listener_with_queued_delivery_mode(|_k: Arc<u64>, _v: u64, _c: RemovalCause| {})
        .time_to_live(Duration::from_secs(60))
        .build();
    assert_eq!(cache.name(), Some("users"));
    assert!(cache.is_invalidator_enabled());
    let policy = cache.policy();
    assert_eq!(policy.max_capacity(), Some(7));
    assert_eq!(policy.time_to_live(), Some(Duration::from_secs(60)));
    assert_eq!(policy.time_to_idle(), None);
    assert_eq!(policy.num_segments(), 1);
}

#[test]
fn unnamed_cache_without_invalidation() {
    let cache: Cache<u64, u64> = CacheBuilder::new(5).build();
    assert_eq!(cache.name(), None);
    assert!(!cache.is_invalidator_enabled());
}

#[test]
fn build_with_a_given_hasher() {
    let cache: Cache<u64, u64, RandomState> = CacheBuilder::new(3)
        .time_to_idle(Duration::from_secs(5))
        .build_with_hasher(RandomState::new());
    assert_eq!(cache.policy().max_capacity(), Some(3));
    assert_eq!(cache.policy().time_to_idle(), Some(Duration::from_secs(5)));
}

#[test]
fn queued_delivery_mode_configuration() {
    let conf = Configuration::builder().delivery_mode(DeliveryMode::Queued).build();
    assert_eq!(conf.delivery_mode(), DeliveryMode::Queued);
    assert_eq!(Configuration::builder().build().delivery_mode(), DeliveryMode::Immediate);
    assert_eq!(DeliveryMode::default(), DeliveryMode::Immediate);
}
