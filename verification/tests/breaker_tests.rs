use edge_agent::breaker::CircuitBreaker;

#[test]
fn test_circuit_breaker_opens_after_threshold() {
    let mut cb = CircuitBreaker::new("test", 3, 30_000);

    assert!(!cb.is_open(0));
    cb.record_failure(0);
    cb.record_failure(0);
    assert!(!cb.is_open(0)); // Still 2 failures

    cb.record_failure(0);
    assert!(cb.is_open(0)); // Now 3, should open
}

#[test]
fn test_success_resets_failure_count() {
    let mut cb = CircuitBreaker::new("test", 3, 30_000);

    cb.record_failure(0);
    cb.record_failure(0);
    cb.record_success();

    assert_eq!(cb.failure_count(), 0);
    assert!(!cb.is_open(0));
}

#[test]
fn test_half_open_closes_after_successes() {
    let mut cb = CircuitBreaker::new("test", 1, 1);

    // Open the circuit
    cb.record_failure(0);
    assert!(cb.is_open(0));

    // After the recovery timeout the breaker half-opens
    assert!(!cb.is_open(5));

    // Record successes to close
    cb.record_success();
    cb.record_success();

    assert_eq!(cb.state_name(), "closed");
}

#[test]
fn test_half_open_failure_reopens() {
    let mut cb = CircuitBreaker::new("gate", 2, 100);
    cb.record_failure(10);
    cb.record_failure(10);
    assert_eq!(cb.state_name(), "open");
    assert!(!cb.is_open(110)); // recovered: half-open
    assert_eq!(cb.state_name(), "half_open");
    cb.record_failure(120); // one failure reopens immediately
    assert_eq!(cb.state_name(), "open");
    assert!(cb.is_open(130));
}

#[test]
fn test_reset_returns_to_closed() {
    let mut cb = CircuitBreaker::new("gate", 1, 1_000_000);
    cb.record_failure(0);
    assert!(cb.is_open(1));
    cb.reset();
    assert_eq!(cb.state_name(), "closed");
    assert_eq!(cb.failure_count(), 0);
    assert!(!cb.is_open(2));
}
