use redis_utils::policy::RetryPolicy;

#[test]
fn fixed_policy_caps_are_constant() {
    let p = RetryPolicy::Fixed { delay_ms: 10, attempts: 15 };
    let caps = p.delay_caps();
    assert_eq!(caps, vec![10u64; 15]);
    assert_eq!(caps.iter().sum::<u64>(), 150);
}

#[test]
fn exponential_policy_caps_double() {
    let p = RetryPolicy::ExponentialJittered { base_ms: 10, attempts: 3 };
    let caps = p.delay_caps();
    assert_eq!(caps, vec![10, 20, 40]);
    assert_eq!(caps.iter().sum::<u64>(), 70);
}

#[test]
fn exponential_cap_saturates() {
    let p = RetryPolicy::ExponentialJittered { base_ms: 1, attempts: 100 };
    assert_eq!(p.delay_cap(0), 1);
    assert_eq!(p.delay_cap(10), 1024);
    assert_eq!(p.delay_cap(63), 1u64 << 63);
    assert_eq!(p.delay_cap(64), u64::MAX);
    assert_eq!(p.delay_cap(99), u64::MAX);
    let q = RetryPolicy::ExponentialJittered { base_ms: u64::MAX / 2 + 1, attempts: 2 };
    assert_eq!(q.delay_cap(1), u64::MAX);
    let z = RetryPolicy::ExponentialJittered { base_ms: 0, attempts: 70 };
    assert_eq!(z.delay_cap(69), 0);
}

#[test]
fn empty_budget_has_no_caps() {
    let p = RetryPolicy::Fixed { delay_ms: 5, attempts: 0 };
    assert_eq!(p.attempts(), 0);
    assert!(p.delay_caps().is_empty());
}

#[test]
fn delay_from_sample_clamps_to_cap() {
    let p = RetryPolicy::ExponentialJittered { base_ms: 10, attempts: 3 };
    assert_eq!(p.delay_from_sample(2, 7), 7);
    assert_eq!(p.delay_from_sample(2, 40), 40);
    assert_eq!(p.delay_from_sample(2, 41), 40);
    assert_eq!(p.delay_from_sample(0, u64::MAX), 10);
    let f = RetryPolicy::Fixed { delay_ms: 10, attempts: 3 };
    assert_eq!(f.delay_from_sample(1, 3), 10);
}

#[test]
fn fixed_next_delay_is_the_delay() {
    let p = RetryPolicy::Fixed { delay_ms: 25, attempts: 4 };
    for i in 0..4 {
        assert_eq!(p.next_delay(i), 25);
    }
}

#[test]
fn jittered_next_delay_is_drawn_below_cap() {
    let p = RetryPolicy::ExponentialJittered { base_ms: 1000, attempts: 3 };
    let mut below = 0;
    for _ in 0..200 {
        let d = p.next_delay(0);
        assert!(d <= 1000);
        if d < 1000 {
            below += 1;
        }
    }
    assert!(below > 0);
    for _ in 0..50 {
        assert!(p.next_delay(2) <= 4000);
    }
}

#[test]
fn worst_case_added_latency() {
    let f = RetryPolicy::Fixed { delay_ms: 10, attempts: 15 };
    assert_eq!(f.max_total_delay_ms(), 140);
    let e = RetryPolicy::ExponentialJittered { base_ms: 10, attempts: 3 };
    assert_eq!(e.max_total_delay_ms(), 30);
    assert!(e.max_total_delay_ms() <= 70);
    let one = RetryPolicy::Fixed { delay_ms: 10, attempts: 1 };
    assert_eq!(one.max_total_delay_ms(), 0);
    let none = RetryPolicy::Fixed { delay_ms: 10, attempts: 0 };
    assert_eq!(none.max_total_delay_ms(), 0);
    let huge = RetryPolicy::Fixed { delay_ms: u64::MAX, attempts: 3 };
    assert_eq!(huge.max_total_delay_ms(), 2 * (u64::MAX as u128));
}
