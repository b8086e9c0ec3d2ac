use typesafe_api::Duration;

#[test]
fn duration_parts() {
    let d = Duration::from_millis(1500);
    assert_eq!(d.as_secs(), 1);
    assert_eq!(d.subsec_nanos(), 500_000_000);
    assert_eq!(d.as_nanos(), 1_500_000_000);
    let s = Duration::from_secs(u64::MAX);
    assert_eq!(s.as_secs(), u64::MAX);
    let std_d = std::time::Duration::new(d.as_secs(), d.subsec_nanos());
    assert_eq!(std_d, std::time::Duration::from_millis(1500));
}

#[test]
fn duration_checked_mul_and_min() {
    let d = Duration::from_millis(500);
    assert_eq!(d.checked_mul(4), Some(Duration::from_secs(2)));
    assert_eq!(Duration::from_secs(u64::MAX).checked_mul(2), None);
    assert_eq!(Duration::from_secs(u64::MAX).checked_mul(1), Some(Duration::from_secs(u64::MAX)));
    assert_eq!(
        std::time::Duration::from_secs(u64::MAX).checked_mul(2),
        None
    );
    assert_eq!(Duration::from_secs(3).min(Duration::from_secs(2)), Duration::from_secs(2));
    assert_eq!(Duration::from_secs(1).min(Duration::from_secs(2)), Duration::from_secs(1));
}

#[test]
fn duration_new_and_from_nanos() {
    let d = Duration::new(2, 1_500_000_000);
    assert_eq!(d.as_secs(), 3);
    assert_eq!(d.subsec_nanos(), 500_000_000);
    assert_eq!(Duration::from_nanos(1_250).as_nanos(), 1_250);
    assert_eq!(Duration::new(u64::MAX, 999_999_999).as_secs(), u64::MAX);
    assert_eq!(Duration::from_nanos(u64::MAX).as_nanos(), u64::MAX as u128);
}
