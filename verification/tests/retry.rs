use bililive::retry::RetryConfig;
use bililive::retry::RetryContext;
use bililive::TransportError;

#[test]
fn default_policy() {
    let retry = RetryConfig::default();
    assert_eq!(retry.max_attempts(), None);
    assert_eq!(retry.nominal_delay(0), 200);
    assert_eq!(retry.nominal_delay(1), 400);
    assert_eq!(retry.nominal_delay(2), 800);
    assert_eq!(retry.nominal_delay(3), 1_600);
    assert_eq!(retry.nominal_delay(4), 3_200);
    assert_eq!(retry.nominal_delay(5), 6_400);
    assert_eq!(retry.nominal_delay(6), 10_000);
    assert_eq!(retry.nominal_delay(7), 10_000);
    assert_eq!(retry.nominal_delay(u32::MAX), 10_000);
    assert_eq!(retry, RetryConfig::new(200, 10_000, 2_000, 100, None).unwrap());
}

#[test]
fn delays_never_shrink_and_never_pass_the_cap() {
    let configs = [
        RetryConfig::default(),
        RetryConfig::new(1, 1_000, 1_500, 0, Some(3)).unwrap(),
        RetryConfig::new(3, 77, 1_001, 1_000, None).unwrap(),
        RetryConfig::new(500, 100, 3_000, 10, None).unwrap(),
        RetryConfig::new(0, 100, 2_000, 10, None).unwrap(),
        RetryConfig::new(u64::MAX, u64::MAX, u64::MAX, 10, None).unwrap(),
    ];
    let caps = [10_000u64, 1_000, 77, 100, 100, u64::MAX];
    for (retry, cap) in configs.iter().zip(caps) {
        let mut before = retry.nominal_delay(0);
        for attempt in 1..40 {
            let delay = retry.nominal_delay(attempt);
            assert!(before <= delay);
            assert!(delay <= cap);
            before = delay;
        }
    }
}

#[test]
fn fractional_multiplier_is_rounded_once() {
    // 3 * 1.5^k = 3, 4.5, 6.75, 10.125, 15.1875, 22.78..., 34.17...
    let retry = RetryConfig::new(3, 1_000, 1_500, 0, None).unwrap();
    assert_eq!(retry.nominal_delay(0), 3);
    assert_eq!(retry.nominal_delay(1), 4);
    assert_eq!(retry.nominal_delay(2), 6);
    assert_eq!(retry.nominal_delay(3), 10);
    assert_eq!(retry.nominal_delay(4), 15);
    assert_eq!(retry.nominal_delay(5), 22);
    assert_eq!(retry.nominal_delay(6), 34);
    assert_eq!(retry.nominal_delay(14), 875);
    assert_eq!(retry.nominal_delay(15), 1_000);
}

#[test]
fn small_delays_grow_to_the_cap() {
    // 1.5^k = 1.5, 2.25, 3.375, 5.06..., and 1.5^17 = 985.2..., 1.5^18 = 1477.8...
    let retry = RetryConfig::new(1, 1_000, 1_500, 0, None).unwrap();
    assert_eq!(retry.nominal_delay(0), 1);
    assert_eq!(retry.nominal_delay(1), 1);
    assert_eq!(retry.nominal_delay(2), 2);
    assert_eq!(retry.nominal_delay(3), 3);
    assert_eq!(retry.nominal_delay(4), 5);
    assert_eq!(retry.nominal_delay(17), 985);
    assert_eq!(retry.nominal_delay(18), 1_000);
    assert_eq!(retry.nominal_delay(1_000_000), 1_000);
    // 1.001^k passes 2 at k = 694 and 77 at k = 4346.
    let slow = RetryConfig::new(1, 77, 1_001, 0, None).unwrap();
    assert_eq!(slow.nominal_delay(693), 1);
    assert_eq!(slow.nominal_delay(694), 2);
    assert_eq!(slow.nominal_delay(4_345), 76);
    assert_eq!(slow.nominal_delay(4_346), 77);
    assert_eq!(slow.nominal_delay(u32::MAX), 77);
}

#[test]
fn delays_that_cannot_grow() {
    let capped = RetryConfig::new(500, 100, 3_000, 10, None).unwrap();
    assert_eq!(capped.nominal_delay(0), 100);
    assert_eq!(capped.nominal_delay(9), 100);
    let zero = RetryConfig::new(0, 100, 3_000, 10, None).unwrap();
    assert_eq!(zero.nominal_delay(0), 0);
    assert_eq!(zero.nominal_delay(u32::MAX), 0);
    let flat = RetryConfig::new(40, 100, 1_000, 10, None).unwrap();
    assert_eq!(flat.nominal_delay(0), 40);
    assert_eq!(flat.nominal_delay(u32::MAX), 40);
    let huge = RetryConfig::new(u64::MAX - 1, u64::MAX, u64::MAX, 0, None).unwrap();
    assert_eq!(huge.nominal_delay(0), u64::MAX - 1);
    assert_eq!(huge.nominal_delay(1), u64::MAX);
    let wide = RetryConfig::new(7, u64::MAX, 1_000_000, 0, None).unwrap();
    assert_eq!(wide.nominal_delay(5), 7_000_000_000_000_000);
    assert_eq!(wide.nominal_delay(6), 7_000_000_000_000_000_000);
    assert_eq!(wide.nominal_delay(7), u64::MAX);
}

#[test]
fn invalid_policies_are_refused() {
    assert!(RetryConfig::new(200, 10_000, 999, 100, None).is_none());
    assert!(RetryConfig::new(200, 10_000, 0, 100, None).is_none());
    assert!(RetryConfig::new(200, 10_000, 2_000, 1_001, None).is_none());
    assert!(RetryConfig::new(200, 10_000, 1_000, 1_000, Some(0)).is_some());
    assert_eq!(
        RetryConfig::new(200, 10_000, 1_000, 1_000, Some(5)).unwrap().max_attempts(),
        Some(5)
    );
}

#[test]
fn jitter_stays_within_its_share() {
    let retry = RetryConfig::default();
    for nominal in [0u64, 1, 9, 10, 200, 6_400, 10_000] {
        let span = nominal / 10;
        for sample in [0u64, 1, 2, 7, 40, 41, 1_000, 123_456_789, u64::MAX] {
            let actual = retry.jittered(nominal, sample);
            assert!(actual >= nominal - span);
            assert!(actual <= nominal + span);
        }
    }
    assert_eq!(retry.jittered(200, 0), 180);
    assert_eq!(retry.jittered(200, 20), 200);
    assert_eq!(retry.jittered(200, 40), 220);
    assert_eq!(retry.jittered(200, 41), 180);
    assert_eq!(retry.jittered(5, 12_345), 5);
    let none = RetryConfig::new(200, 10_000, 2_000, 0, None).unwrap();
    assert_eq!(none.jittered(777, 99), 777);
    let full = RetryConfig::new(200, 10_000, 2_000, 1_000, None).unwrap();
    assert_eq!(full.jittered(100, 0), 0);
    assert_eq!(full.jittered(100, 200), 200);
    assert_eq!(full.jittered(u64::MAX, u64::MAX - 1), u64::MAX - 1);
    // A delay that jitter would move past the end of the clock stops there.
    assert_eq!(retry.jittered(u64::MAX, 2 * (u64::MAX / 10)), u64::MAX);
    assert_eq!(retry.jittered(u64::MAX, 0), u64::MAX - u64::MAX / 10);
}

#[test]
fn context_rotates_and_counts() {
    let mut context = RetryContext::new(3);
    assert_eq!(context.attempts(), 0);
    assert_eq!(context.cursor(), 0);
    assert_eq!(context.last_failure(), None);
    assert_eq!(context.next_server(), 0);
    assert_eq!(context.next_server(), 1);
    assert_eq!(context.next_server(), 2);
    assert_eq!(context.next_server(), 0);
    assert_eq!(context.cursor(), 1);
    context.record_failure(TransportError::Handshake);
    context.record_failure(TransportError::Io);
    assert_eq!(context.attempts(), 2);
    assert_eq!(context.last_failure(), Some(TransportError::Io));
    context.record_loss(TransportError::Closed);
    assert_eq!(context.attempts(), 2);
    assert_eq!(context.last_failure(), Some(TransportError::Closed));
    context.reset();
    assert_eq!(context.attempts(), 0);
    assert_eq!(context.cursor(), 1);
    assert_eq!(context.last_failure(), Some(TransportError::Closed));
    let mut single = RetryContext::new(1);
    assert_eq!(single.next_server(), 0);
    assert_eq!(single.next_server(), 0);
}
