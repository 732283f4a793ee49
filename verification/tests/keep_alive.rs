use std::sync::atomic::{AtomicUsize, Ordering};
use std::sync::Arc;
use std::time::Duration;

use rmlx_server::keep_alive::{
    on_timer, parse_duration_spec, policy_from_env, policy_from_request_field, DecodeLease,
    DecodeLeaseGuard, GuardedStream, KeepAlivePolicy, LeaseCount, TimerAction,
};

// ── Duration texts ───────────────────────────────────────────────────────────

#[test]
fn parse_int_seconds() {
    assert_eq!(
        parse_duration_spec("30").unwrap(),
        KeepAlivePolicy::Idle(Duration::from_secs(30))
    );
    assert_eq!(
        parse_duration_spec("900").unwrap(),
        KeepAlivePolicy::Idle(Duration::from_secs(900))
    );
}

#[test]
fn parse_seconds_suffix() {
    assert_eq!(
        parse_duration_spec("30s").unwrap(),
        KeepAlivePolicy::Idle(Duration::from_secs(30))
    );
}

#[test]
fn parse_minutes_suffix() {
    assert_eq!(
        parse_duration_spec("15m").unwrap(),
        KeepAlivePolicy::Idle(Duration::from_secs(15 * 60))
    );
}

#[test]
fn parse_hours_suffix() {
    assert_eq!(
        parse_duration_spec("2h").unwrap(),
        KeepAlivePolicy::Idle(Duration::from_secs(2 * 3600))
    );
    assert_eq!(
        parse_duration_spec("24h").unwrap(),
        KeepAlivePolicy::Idle(Duration::from_secs(24 * 3600))
    );
}

#[test]
fn parse_zero_unloads_after() {
    assert_eq!(
        parse_duration_spec("0").unwrap(),
        KeepAlivePolicy::UnloadAfter
    );
    assert_eq!(
        parse_duration_spec("0s").unwrap(),
        KeepAlivePolicy::UnloadAfter
    );
}

#[test]
fn parse_negative_pins() {
    assert_eq!(parse_duration_spec("-1").unwrap(), KeepAlivePolicy::Pin);
    assert_eq!(parse_duration_spec("-1s").unwrap(), KeepAlivePolicy::Pin);
    assert_eq!(parse_duration_spec("-30m").unwrap(), KeepAlivePolicy::Pin);
}

#[test]
fn parse_whitespace_tolerant() {
    assert_eq!(
        parse_duration_spec("  15m  ").unwrap(),
        KeepAlivePolicy::Idle(Duration::from_secs(900))
    );
}

#[test]
fn parse_rejects_empty() {
    assert!(parse_duration_spec("").is_err());
    assert!(parse_duration_spec("   ").is_err());
}

#[test]
fn parse_rejects_bad_unit() {
    assert!(parse_duration_spec("5d").is_err());
    assert!(parse_duration_spec("5x").is_err());
}

#[test]
fn parse_rejects_bad_number() {
    assert!(parse_duration_spec("abc").is_err());
    assert!(parse_duration_spec("12.5m").is_err()); // fractional not supported
}

#[test]
fn parse_rejects_missing_number() {
    assert!(parse_duration_spec("m").is_err());
    assert!(parse_duration_spec("-m").is_err());
    assert!(parse_duration_spec("-").is_err());
}

#[test]
fn parse_messages_name_the_problem() {
    assert_eq!(
        parse_duration_spec(" ").unwrap_err(),
        "empty duration spec"
    );
    assert_eq!(
        parse_duration_spec("-").unwrap_err(),
        "duration spec '-' missing numeric body"
    );
    assert_eq!(
        parse_duration_spec("-m").unwrap_err(),
        "duration spec '-m' missing numeric value"
    );
    assert_eq!(
        parse_duration_spec("5d").unwrap_err(),
        "duration spec '5d' has unknown unit 'd' (expected s | m | h)"
    );
    let bad = "ab".parse::<u64>().unwrap_err().to_string();
    assert_eq!(
        parse_duration_spec("abc").unwrap_err(),
        format!("duration spec 'abc' has invalid number 'ab': {bad}")
    );
}

#[test]
fn parse_rejects_bad_unit_whatever_the_number() {
    assert!(parse_duration_spec("-5d").is_err());
    assert!(parse_duration_spec("0d").is_err());
}

#[test]
fn parse_saturates() {
    assert_eq!(
        parse_duration_spec("18446744073709551615h").unwrap(),
        KeepAlivePolicy::Idle(Duration::from_secs(u64::MAX))
    );
    assert!(parse_duration_spec("18446744073709551616").is_err());
}

#[test]
fn env_setting_is_read_or_absent() {
    assert_eq!(policy_from_env(None).unwrap(), None);
    assert_eq!(
        policy_from_env(Some("2m".to_owned())).unwrap(),
        Some(KeepAlivePolicy::Idle(Duration::from_secs(120)))
    );
    assert!(policy_from_env(Some("soon".to_owned())).is_err());
}

// ── Precedence ───────────────────────────────────────────────────────────────

#[test]
fn resolve_request_wins_over_env_and_flag() {
    let r = KeepAlivePolicy::resolve(
        Some(KeepAlivePolicy::Pin),
        Some(KeepAlivePolicy::Idle(Duration::from_secs(60))),
        Some(KeepAlivePolicy::Idle(Duration::from_secs(120))),
    );
    assert_eq!(r, KeepAlivePolicy::Pin);
}

#[test]
fn resolve_env_wins_over_flag() {
    let r = KeepAlivePolicy::resolve(
        None,
        Some(KeepAlivePolicy::Idle(Duration::from_secs(60))),
        Some(KeepAlivePolicy::Idle(Duration::from_secs(120))),
    );
    assert_eq!(r, KeepAlivePolicy::Idle(Duration::from_secs(60)));
}

#[test]
fn resolve_flag_wins_when_no_request_or_env() {
    let r = KeepAlivePolicy::resolve(
        None,
        None,
        Some(KeepAlivePolicy::Idle(Duration::from_secs(120))),
    );
    assert_eq!(r, KeepAlivePolicy::Idle(Duration::from_secs(120)));
}

#[test]
fn resolve_default_15m_when_nothing_set() {
    let r = KeepAlivePolicy::resolve(None, None, None);
    assert_eq!(
        r,
        KeepAlivePolicy::Idle(Duration::from_secs(KeepAlivePolicy::DEFAULT_TTL_SECS))
    );
    assert_eq!(KeepAlivePolicy::DEFAULT_TTL_SECS, 900);
}

// ── Idle time ────────────────────────────────────────────────────────────────

#[test]
fn ttl_pin_is_none() {
    assert_eq!(KeepAlivePolicy::Pin.ttl(), None);
}

#[test]
fn ttl_unload_after_is_near_zero() {
    let t = KeepAlivePolicy::UnloadAfter.ttl().unwrap();
    assert!(t.as_millis() <= 10);
}

#[test]
fn ttl_idle_is_duration() {
    assert_eq!(
        KeepAlivePolicy::Idle(Duration::from_secs(123)).ttl(),
        Some(Duration::from_secs(123))
    );
}

#[test]
fn logged_seconds_are_of_idle_policies_only() {
    assert_eq!(KeepAlivePolicy::Pin.ttl_secs_for_log(), 0);
    assert_eq!(KeepAlivePolicy::UnloadAfter.ttl_secs_for_log(), 0);
    assert_eq!(
        KeepAlivePolicy::Idle(Duration::from_millis(2500)).ttl_secs_for_log(),
        2
    );
}

// ── Request field ────────────────────────────────────────────────────────────

#[test]
fn request_field_negative_pins() {
    assert_eq!(
        policy_from_request_field(Some(-1)),
        Some(KeepAlivePolicy::Pin)
    );
}

#[test]
fn request_field_zero_unloads_after() {
    assert_eq!(
        policy_from_request_field(Some(0)),
        Some(KeepAlivePolicy::UnloadAfter)
    );
}

#[test]
fn request_field_positive_idle() {
    assert_eq!(
        policy_from_request_field(Some(60)),
        Some(KeepAlivePolicy::Idle(Duration::from_secs(60)))
    );
}

#[test]
fn request_field_absent_is_none() {
    assert_eq!(policy_from_request_field(None), None);
}

// ── Decode lease ─────────────────────────────────────────────────────────────

#[test]
fn decode_lease_increments_on_acquire() {
    let lease: DecodeLease = Arc::new(AtomicUsize::new(0));
    let g = DecodeLeaseGuard::acquire(Arc::clone(&lease));
    assert_eq!(g.count(), 1);
    drop(g);
    assert_eq!(lease.load(Ordering::Acquire), 0);
}

#[test]
fn decode_lease_nests() {
    let lease: DecodeLease = Arc::new(AtomicUsize::new(0));
    let g1 = DecodeLeaseGuard::acquire(Arc::clone(&lease));
    let g2 = DecodeLeaseGuard::acquire(Arc::clone(&lease));
    assert_eq!(g1.count(), 2);
    drop(g1);
    assert_eq!(g2.count(), 1);
    drop(g2);
    assert_eq!(lease.load(Ordering::Acquire), 0);
}

#[test]
fn guarded_stream_holds_the_lease() {
    let lease: DecodeLease = Arc::new(AtomicUsize::new(0));
    let guard = DecodeLeaseGuard::acquire(Arc::clone(&lease));
    let stream = GuardedStream::new(vec![1, 2, 3], Some(guard));
    assert_eq!(lease.load(Ordering::Acquire), 1);
    assert_eq!(
        on_timer(lease.load(Ordering::Acquire)),
        TimerAction::Rearm
    );
    drop(stream);
    assert_eq!(
        on_timer(lease.load(Ordering::Acquire)),
        TimerAction::Unload
    );
}

#[test]
fn leases_are_counted_until_they_are_released() {
    let mut held = LeaseCount::new();
    assert_eq!(held.count(), 0);
    held.acquire();
    held.acquire();
    assert_eq!(held.count(), 2);
    held.release();
    assert_eq!(on_timer(held.count()), TimerAction::Rearm);
    held.release();
    assert_eq!(on_timer(held.count()), TimerAction::Unload);
}
