use link_core::limit::{Admission, DirectLimiter, KeyedLimiter, Rate};
use link_core::peer::PeerId;

const SECOND: u64 = 1_000_000_000;

#[test]
fn rate_constructors() {
    let r = Rate::per_second(1);
    assert_eq!(r.interval_nanos, SECOND);
    assert_eq!(r.burst, 1);
    let r = Rate::per_minute(30);
    assert_eq!(r.interval_nanos, 2 * SECOND);
    assert_eq!(r.burst, 30);
    let r = Rate::per_second(1).allow_burst(10);
    assert_eq!(r.interval_nanos, SECOND);
    assert_eq!(r.burst, 10);
}

#[test]
fn admission_under_quota() {
    // One token per second with a burst of five: five immediate grants,
    // the sixth refused, one more after a second of idleness.
    let mut limiter = DirectLimiter::new(Rate::per_second(1).allow_burst(5));
    for _ in 0..5 {
        assert_eq!(limiter.check_at(0), Admission::Granted);
    }
    assert_eq!(limiter.check_at(0), Admission::TooSoon);
    assert_eq!(limiter.check_at(SECOND), Admission::Granted);
    assert_eq!(limiter.check_at(SECOND), Admission::TooSoon);
}

#[test]
fn keyed_isolation() {
    // Exhausting peer A's token must not affect peer B.
    let mut limiter = KeyedLimiter::new(Rate::per_second(1).allow_burst(1));
    let a = PeerId::new(1);
    let b = PeerId::new(2);
    assert_eq!(limiter.check_key_at(a, 0), Admission::Granted);
    assert_eq!(limiter.check_key_at(a, 0), Admission::TooSoon);
    assert_eq!(limiter.check_key_at(b, 0), Admission::Granted);
    assert_eq!(limiter.check_key_at(b, 0), Admission::TooSoon);
}

#[test]
fn keyed_sweep_drops_only_quiet_peers() {
    let mut limiter = KeyedLimiter::new(Rate::per_second(1).allow_burst(2));
    let busy = PeerId::new(0);
    // The busy peer consumes both tokens: its bucket owes time well past
    // the sweep instant.
    assert_eq!(limiter.check_key_at(busy, 0), Admission::Granted);
    assert_eq!(limiter.check_key_at(busy, 0), Admission::Granted);
    // Many peers touch a token once and go quiet.
    for i in 1..1000u64 {
        assert_eq!(limiter.check_key_at(PeerId::new(i), 0), Admission::Granted);
    }
    assert_eq!(limiter.len(), 1000);
    // A second and a half later every quiet peer's bucket is full again;
    // the busy peer still owes half a second.
    let later: u64 = 3 * SECOND / 2;
    limiter.retain_recent_at(later);
    assert_eq!(limiter.len(), 1);
    // Admission is unchanged by the sweep: quiet peers still get their
    // fresh burst, the busy peer is still debited.
    assert_eq!(limiter.check_key_at(PeerId::new(5), later), Admission::Granted);
    assert_eq!(limiter.check_key_at(busy, later), Admission::Granted);
    assert_eq!(limiter.check_key_at(busy, later), Admission::TooSoon);
}

#[test]
fn keyed_sweep_after_threshold_of_inactive_keys() {
    // Insert more than the sweep threshold of keys, all inactive by the
    // time of the sweep; one further admission at a later instant shrinks
    // the map, and admission stays correct for untouched peers.
    let mut limiter = KeyedLimiter::new(Rate::per_minute(1).allow_burst(1));
    for i in 0..9000u64 {
        limiter.check_key_at(PeerId::new(i), 0);
    }
    assert_eq!(limiter.len(), 9000);
    let minute: u64 = 60 * SECOND;
    limiter.retain_recent_at(2 * minute);
    assert!(limiter.len() < 8192);
    assert_eq!(limiter.len(), 0);
    assert_eq!(
        limiter.check_key_at(PeerId::new(123), 2 * minute),
        Admission::Granted
    );
}

#[test]
fn direct_limiter_with_own_clock_answers() {
    let mut limiter = DirectLimiter::new(Rate::per_second(1).allow_burst(2));
    // Two tokens of burst are available immediately on the real clock.
    assert_eq!(limiter.check(), Admission::Granted);
    assert_eq!(limiter.check(), Admission::Granted);
    assert_eq!(limiter.check(), Admission::TooSoon);
}

#[test]
fn keyed_limiter_with_own_clock_answers() {
    let mut limiter = KeyedLimiter::new(Rate::per_second(1).allow_burst(1));
    let p = PeerId::new(9);
    assert_eq!(limiter.check_key(p), Admission::Granted);
    assert_eq!(limiter.check_key(p), Admission::TooSoon);
    limiter.retain_recent();
    assert_eq!(limiter.len(), 1);
}
