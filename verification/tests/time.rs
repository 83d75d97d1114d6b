use lib::time::{Duration, NANOS_PER_SEC};

#[test]
fn from_secs_has_no_fraction() {
    let d = Duration::from_secs(42);
    assert_eq!(d.as_secs(), 42);
    assert_eq!(d.subsec_nanos(), 0);
}

#[test]
fn new_carries_whole_seconds_out_of_nanos() {
    let d = Duration::new(1, 2_500_000_000);
    assert_eq!(d.as_secs(), 3);
    assert_eq!(d.subsec_nanos(), 500_000_000);
    assert_eq!(Duration::new(0, NANOS_PER_SEC - 1).as_secs(), 0);
}

#[test]
fn checked_add_carries_and_detects_overflow() {
    let a = Duration::new(1, 700_000_000);
    let b = Duration::new(2, 600_000_000);
    let c = a.checked_add(b).unwrap();
    assert_eq!(c.as_secs(), 4);
    assert_eq!(c.subsec_nanos(), 300_000_000);
    assert_eq!(Duration::from_secs(u64::MAX).checked_add(Duration::new(0, 1)).map(|d| d.as_secs()), Some(u64::MAX));
    assert_eq!(Duration::new(u64::MAX, 999_999_999).checked_add(Duration::new(0, 1)), None);
    assert_eq!(Duration::from_secs(u64::MAX).checked_add(Duration::from_secs(1)), None);
}

#[test]
fn le_compares_whole_spans() {
    assert!(Duration::new(1, 5).le(&Duration::new(1, 5)));
    assert!(Duration::new(1, 5).le(&Duration::new(1, 6)));
    assert!(Duration::new(1, 999_999_999).le(&Duration::new(2, 0)));
    assert!(!Duration::new(2, 0).le(&Duration::new(1, 999_999_999)));
}
