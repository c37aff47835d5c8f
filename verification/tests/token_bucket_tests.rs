use resilience_core::token_bucket::{FailureKind, TokenBucket};

#[test]
fn test_unlimited_token_bucket() {
    let mut bucket = TokenBucket::unlimited();

    // Should always acquire permits regardless of error type
    assert!(bucket.acquire(&FailureKind::ThrottlingError).is_some());
    assert!(bucket.acquire(&FailureKind::TransientError).is_some());

    // Should have maximum capacity
    assert_eq!(bucket.max_permits(), u64::MAX);

    // Should have zero retry costs
    assert_eq!(bucket.retry_cost(), 0);
    assert_eq!(bucket.timeout_retry_cost(), 0);

    // The loop count is arbitrary; should obtain permits without limit
    let mut permits = Vec::new();
    for _ in 0..100 {
        let permit = bucket.acquire(&FailureKind::ThrottlingError);
        assert!(permit.is_some());
        permits.push(permit);
        // Available permits should stay constant
        assert_eq!(u64::MAX, bucket.available_permits());
    }
}

#[test]
fn test_bounded_permits_exhaustion() {
    let mut bucket = TokenBucket::new(10);
    let mut permits = Vec::new();

    for _ in 0..100 {
        let permit = bucket.acquire(&FailureKind::ThrottlingError);
        if let Some(p) = permit {
            permits.push(p);
        } else {
            break;
        }
    }

    assert_eq!(permits.len(), 2); // 10 capacity / 5 retry cost = 2 permits

    // Verify next acquisition fails
    assert!(bucket.acquire(&FailureKind::ThrottlingError).is_none());
}

#[test]
fn test_fractional_tokens_accumulate_and_convert() {
    // A reward of 0.4 tokens per success, in thousandths of a token.
    let mut bucket = TokenBucket::builder().capacity(10).success_reward(400).build();

    // acquire 10 tokens to bring capacity below max so we can test accumulation
    let _hold_permit = bucket.acquire(&FailureKind::TransientError);
    assert_eq!(bucket.available_permits(), 0);

    // First success: 0.4 fractional tokens
    bucket.reward_success();
    assert_eq!(bucket.available_permits(), 0);

    // Second success: 0.8 fractional tokens
    bucket.reward_success();
    assert_eq!(bucket.available_permits(), 0);

    // Third success: 1.2 fractional tokens -> 1 full token added
    bucket.reward_success();
    assert_eq!(bucket.available_permits(), 1);
}

#[test]
fn test_fractional_tokens_respect_max_capacity() {
    // A reward of 2.0 tokens per success, in thousandths of a token.
    let mut bucket = TokenBucket::builder().capacity(10).success_reward(2000).build();

    for _ in 0..20 {
        bucket.reward_success();
    }

    assert!(bucket.available_permits() == 10);
}

#[test]
fn test_builder_with_custom_values() {
    // A reward of 0.5 tokens per success, in thousandths of a token.
    let bucket = TokenBucket::builder()
        .capacity(100)
        .retry_cost(10)
        .timeout_retry_cost(20)
        .success_reward(500)
        .build();

    assert_eq!(bucket.max_permits(), 100);
    assert_eq!(bucket.retry_cost(), 10);
    assert_eq!(bucket.timeout_retry_cost(), 20);
    assert_eq!(bucket.success_reward(), 500);
}

#[test]
fn test_reward_carry_remainder() {
    // 0.4 + 0.4 + 0.4 = 1.2: one whole token credited, 0.2 carried. Two more
    // rewards bring the carry to 1.0: a second whole token.
    let mut bucket = TokenBucket::builder().capacity(10).success_reward(400).build();
    let _hold = bucket.acquire(&FailureKind::TransientError);
    assert_eq!(bucket.available_permits(), 0);
    for _ in 0..3 {
        bucket.reward_success();
    }
    assert_eq!(bucket.available_permits(), 1);
    for _ in 0..2 {
        bucket.reward_success();
    }
    assert_eq!(bucket.available_permits(), 2);
}

#[test]
fn test_timeout_cost_charged_for_transient() {
    // Default costs: 5 standard, 10 for a transient/timeout failure. A
    // bucket of 10 admits exactly one transient retry.
    let mut bucket = TokenBucket::new(10);
    let permit = bucket.acquire(&FailureKind::TransientError);
    assert!(permit.is_some());
    assert_eq!(permit.unwrap().cost(), 10);
    assert_eq!(bucket.available_permits(), 0);
    assert!(bucket.acquire(&FailureKind::TransientError).is_none());
}

#[test]
fn test_regenerate_a_token_caps_at_capacity() {
    let mut bucket = TokenBucket::new(10);
    // Full bucket: regeneration must not overfill.
    bucket.regenerate_a_token();
    assert_eq!(bucket.available_permits(), 10);
    let _p1 = bucket.acquire(&FailureKind::ThrottlingError);
    let _p2 = bucket.acquire(&FailureKind::ThrottlingError);
    assert_eq!(bucket.available_permits(), 0);
    // Spending is refused below the cost, never a partial charge.
    assert!(bucket.acquire(&FailureKind::ThrottlingError).is_none());
    bucket.regenerate_a_token();
    assert_eq!(bucket.available_permits(), 1);
}

#[test]
fn test_exhaustion_leaves_remainder_unspendable() {
    // floor(25 / 10) = 2 transient retries; the 5 leftover tokens are below
    // the cost and admit nothing until replenished.
    let mut bucket = TokenBucket::new(25);
    assert!(bucket.acquire(&FailureKind::TransientError).is_some());
    assert!(bucket.acquire(&FailureKind::TransientError).is_some());
    assert!(bucket.acquire(&FailureKind::TransientError).is_none());
    assert_eq!(bucket.available_permits(), 5);
    for _ in 0..5 {
        bucket.regenerate_a_token();
    }
    assert!(bucket.acquire(&FailureKind::TransientError).is_some());
}

#[test]
fn test_default_bucket_configuration() {
    let bucket = TokenBucket::default();
    assert_eq!(bucket.max_permits(), 500);
    assert_eq!(bucket.available_permits(), 500);
    assert_eq!(bucket.retry_cost(), 5);
    assert_eq!(bucket.timeout_retry_cost(), 10);
    assert_eq!(bucket.success_reward(), 0);
}
