use typesafe_api::retry::saturating_pow2;
use typesafe_api::{Duration, Reply, RetryPolicy, RetryStep};

fn step(p: &RetryPolicy, attempt: u32, status: u16, retry_after: Option<&[u8]>) -> RetryStep {
    p.next_step(attempt, Reply::Response { status, retry_after })
}

fn millis(d: &Duration) -> u128 {
    d.as_nanos() / 1_000_000
}

#[test]
fn default_policy_values() {
    let p = RetryPolicy::default();
    assert_eq!(p.max_retries, 3);
    assert_eq!(p.initial_backoff, Duration::from_millis(500));
    assert_eq!(p.max_backoff, Duration::from_secs(8));
}

#[test]
fn none_policy_values() {
    let p = RetryPolicy::none();
    assert_eq!(p.max_retries, 0);
    assert_eq!(p.initial_backoff, Duration::from_millis(0));
    assert_eq!(p.max_backoff, Duration::from_millis(0));
}

#[test]
fn default_backoff_doubles_then_caps() {
    let p = RetryPolicy::default();
    let waits: Vec<u128> = (0..8).map(|a| millis(&p.backoff_for(a))).collect();
    assert_eq!(waits, vec![500, 1000, 2000, 4000, 8000, 8000, 8000, 8000]);
}

#[test]
fn backoff_saturates_power_for_large_attempts() {
    let p = RetryPolicy {
        max_retries: 100,
        initial_backoff: Duration::from_millis(1),
        max_backoff: Duration::from_secs(u64::MAX),
    };
    // 2^31 ms, then u32::MAX ms once the power saturates.
    assert_eq!(millis(&p.backoff_for(31)), 2_147_483_648);
    assert_eq!(millis(&p.backoff_for(32)), u32::MAX as u128);
    assert_eq!(millis(&p.backoff_for(1000)), u32::MAX as u128);
}

#[test]
fn saturating_power_of_two() {
    assert_eq!(saturating_pow2(0), 1);
    assert_eq!(saturating_pow2(5), 32);
    assert_eq!(saturating_pow2(31), 2u32.pow(31));
    assert_eq!(saturating_pow2(32), u32::MAX);
    assert_eq!(saturating_pow2(u32::MAX), u32::MAX);
    for a in 0..40u32 {
        assert_eq!(saturating_pow2(a), 2u32.saturating_pow(a));
    }
}

#[test]
fn checked_backoff_reports_overflow() {
    let p = RetryPolicy {
        max_retries: 5,
        initial_backoff: Duration::from_secs(u64::MAX),
        max_backoff: Duration::from_secs(1),
    };
    assert!(p.checked_backoff_for(0).is_some());
    assert!(p.checked_backoff_for(1).is_none());
}

#[test]
fn backoff_never_exceeds_max() {
    let p = RetryPolicy {
        max_retries: 10,
        initial_backoff: Duration::from_millis(300),
        max_backoff: Duration::from_millis(2000),
    };
    let mut previous = 0;
    for a in 0..20 {
        let w = millis(&p.backoff_for(a));
        assert!(w <= 2000);
        assert!(w >= previous);
        previous = w;
    }
}

#[test]
fn success_finishes_on_any_attempt() {
    let p = RetryPolicy::default();
    for status in [200u16, 201, 204, 299] {
        for attempt in [0u32, 2, 3, 50] {
            assert!(matches!(step(&p, attempt, status, None), RetryStep::Finish));
        }
    }
}

#[test]
fn rate_limited_waits_with_backoff() {
    let p = RetryPolicy::default();
    match step(&p, 0, 429, None) {
        RetryStep::Wait { delay, next_attempt } => {
            assert_eq!(delay, Duration::from_millis(500));
            assert_eq!(next_attempt, 1);
        }
        other => panic!("unexpected {:?}", other),
    }
    match step(&p, 2, 529, None) {
        RetryStep::Wait { delay, next_attempt } => {
            assert_eq!(delay, Duration::from_millis(2000));
            assert_eq!(next_attempt, 3);
        }
        other => panic!("unexpected {:?}", other),
    }
}

#[test]
fn retry_after_header_sets_the_wait() {
    let p = RetryPolicy::default();
    match step(&p, 0, 429, Some(b"7")) {
        RetryStep::Wait { delay, .. } => assert_eq!(delay, Duration::from_secs(7)),
        other => panic!("unexpected {:?}", other),
    }
    // A header that is not a number of seconds falls back to the backoff.
    match step(&p, 1, 429, Some(b"Wed, 21 Oct 2015 07:28:00 GMT")) {
        RetryStep::Wait { delay, .. } => assert_eq!(delay, Duration::from_millis(1000)),
        other => panic!("unexpected {:?}", other),
    }
}

#[test]
fn gives_up_after_max_retries() {
    let p = RetryPolicy::default();
    assert!(matches!(step(&p, 3, 429, None), RetryStep::GiveUp));
    assert!(matches!(step(&p, 4, 529, Some(b"1")), RetryStep::GiveUp));
}

#[test]
fn other_errors_are_not_retried() {
    let p = RetryPolicy::default();
    for status in [100u16, 301, 400, 401, 404, 422, 500, 503, 530] {
        assert!(matches!(step(&p, 0, status, None), RetryStep::GiveUp));
    }
}

#[test]
fn none_policy_never_retries() {
    let p = RetryPolicy::none();
    for status in [429u16, 529, 500] {
        assert!(matches!(step(&p, 0, status, Some(b"1")), RetryStep::GiveUp));
    }
}

#[test]
fn a_run_of_rate_limits_sends_at_most_max_retries_plus_one() {
    let p = RetryPolicy::default();
    let mut attempt = 0u32;
    let mut sends = 0;
    loop {
        sends += 1;
        match step(&p, attempt, 429, None) {
            RetryStep::Wait { next_attempt, .. } => attempt = next_attempt,
            _ => break,
        }
    }
    assert_eq!(sends, 4);
}

#[test]
fn failed_send_is_not_retried() {
    for p in [RetryPolicy::default(), RetryPolicy::none()] {
        for attempt in [0u32, 1, 5] {
            assert!(matches!(p.next_step(attempt, Reply::SendFailed), RetryStep::GiveUp));
        }
    }
}

#[test]
fn step_is_defined_only_fails_on_backoff_overflow() {
    let p = RetryPolicy {
        max_retries: 5,
        initial_backoff: Duration::from_secs(u64::MAX),
        max_backoff: Duration::from_secs(1),
    };
    let rate_limited = Reply::Response { status: 429, retry_after: None };
    assert!(p.step_is_defined(0, rate_limited));
    assert!(!p.step_is_defined(1, rate_limited));
    assert!(p.step_is_defined(1, Reply::Response { status: 429, retry_after: Some(b"3") }));
    assert!(p.step_is_defined(1, Reply::Response { status: 500, retry_after: None }));
    assert!(p.step_is_defined(1, Reply::SendFailed));
    assert!(p.step_is_defined(5, rate_limited));
}

#[test]
fn sub_millisecond_backoff() {
    let p = RetryPolicy {
        max_retries: 3,
        initial_backoff: Duration::from_nanos(250),
        max_backoff: Duration::new(0, 900),
    };
    assert_eq!(p.backoff_for(0).as_nanos(), 250);
    assert_eq!(p.backoff_for(1).as_nanos(), 500);
    assert_eq!(p.backoff_for(2).as_nanos(), 900);
}
