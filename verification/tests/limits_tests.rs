use edge_agent::limits::{ExecutionContext, ScriptLimits, ScriptRateLimiter};

#[test]
fn test_default_limits() {
    let limits = ScriptLimits::default();
    assert_eq!(limits.max_execution_time_ms, 30_000);
    assert_eq!(limits.max_actions_per_run, 50);
    assert_eq!(limits.max_call_depth, 5);
}

#[test]
fn test_rate_limiter() {
    let mut limiter = ScriptRateLimiter::new(5);

    for i in 0..5 {
        assert!(limiter.check("script1", 0), "Attempt {} should succeed", i);
    }

    // 6th attempt should fail
    assert!(!limiter.check("script1", 0), "6th attempt should fail");
}

#[test]
fn test_execution_context_action_limit() {
    let limits = ScriptLimits { max_actions_per_run: 3, ..Default::default() };
    let mut ctx = ExecutionContext::new(limits, 0);

    assert!(ctx.record_action(0).is_ok());
    assert!(ctx.record_action(0).is_ok());
    assert!(ctx.record_action(0).is_ok());
    assert!(ctx.record_action(0).is_err());
}

#[test]
fn test_execution_context_depth() {
    let limits = ScriptLimits { max_call_depth: 2, ..Default::default() };
    let mut ctx = ExecutionContext::new(limits, 0);

    assert!(ctx.enter_nested().is_ok());
    assert!(ctx.enter_nested().is_ok());
    assert!(ctx.enter_nested().is_err());

    ctx.exit_nested();
    assert!(ctx.enter_nested().is_ok());
}

#[test]
fn test_rate_window_rolls_after_a_minute() {
    let mut limiter = ScriptRateLimiter::new(2);
    assert!(limiter.check("s", 0));
    assert!(limiter.check("s", 1_000));
    assert!(!limiter.check("s", 2_000));
    // A fresh window opens once 60 s have elapsed since the window start.
    assert!(limiter.check("s", 60_000));
    assert_eq!(limiter.current_rate("s"), 1);
}

#[test]
fn test_rate_limiter_per_script_windows() {
    let mut limiter = ScriptRateLimiter::new(1);
    assert!(limiter.check("a", 0));
    assert!(!limiter.check("a", 1));
    // Another script has its own window.
    assert!(limiter.check("b", 1));
    limiter.reset("a", 2);
    assert!(limiter.check("a", 3));
}

#[test]
fn test_time_budget_and_remaining() {
    let limits = ScriptLimits { max_execution_time_ms: 100, ..Default::default() };
    let mut ctx = ExecutionContext::new(limits, 1_000);
    assert!(!ctx.is_time_exceeded(1_100));
    assert!(ctx.is_time_exceeded(1_101));
    assert_eq!(ctx.remaining_time(1_040), 60);
    assert_eq!(ctx.remaining_time(2_000), 0);
    assert!(ctx.record_action(1_101).is_err());
    assert!(ctx.record_action(1_100).is_ok());
}

#[test]
fn test_delay_allowance() {
    let limits = ScriptLimits::default();
    let ctx = ExecutionContext::new(limits, 0);
    assert!(ctx.is_delay_allowed(60_000));
    assert!(!ctx.is_delay_allowed(60_001));
}

#[test]
fn test_frequency_presets() {
    let hi = ScriptLimits::high_frequency();
    assert_eq!(hi.max_execution_time_ms, 5_000);
    assert_eq!(hi.max_actions_per_run, 10);
    assert_eq!(hi.max_call_depth, 2);
    assert_eq!(hi.max_delay_ms, 5_000);
    assert_eq!(hi.rate_limit_per_minute, 120);
    let lo = ScriptLimits::low_frequency();
    assert_eq!(lo.max_execution_time_ms, 60_000);
    assert_eq!(lo.max_actions_per_run, 100);
    assert_eq!(lo.max_call_depth, 10);
    assert_eq!(lo.max_delay_ms, 300_000);
    assert_eq!(lo.rate_limit_per_minute, 10);
}
