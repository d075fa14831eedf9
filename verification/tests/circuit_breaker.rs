use std::time::{Duration, Instant};

use iot_airquality_ingestor::{CircuitBreaker, State};

#[test]
fn new_breaker_is_closed_and_admits() {
    let mut cb = CircuitBreaker::new(3, Duration::from_secs(30));
    assert_eq!(cb.state(), State::Closed);
    assert_eq!(cb.current_state_code(), 0);
    assert_eq!(cb.consecutive_failures(), 0);
    assert_eq!(cb.failure_threshold(), 3);
    assert!(cb.can_execute());
    assert_eq!(cb.state(), State::Closed);
}

#[test]
fn trips_open_when_threshold_reached() {
    let mut cb = CircuitBreaker::new(3, Duration::from_secs(3600));
    cb.record_failure();
    cb.record_failure();
    assert_eq!(cb.state(), State::Closed);
    assert_eq!(cb.consecutive_failures(), 2);
    assert!(cb.can_execute());
    cb.record_failure();
    assert_eq!(cb.state(), State::Open);
    assert_eq!(cb.current_state_code(), 2);
    assert_eq!(cb.consecutive_failures(), 3);
}

#[test]
fn open_breaker_blocks_until_cooldown() {
    let mut cb = CircuitBreaker::new(1, Duration::from_secs(3600));
    cb.record_failure();
    assert_eq!(cb.state(), State::Open);
    assert!(!cb.can_execute());
    assert!(!cb.can_execute());
    assert_eq!(cb.state(), State::Open);
}

#[test]
fn expired_cooldown_lets_one_probe_through() {
    let mut cb = CircuitBreaker::new(1, Duration::from_secs(0));
    cb.record_failure();
    assert_eq!(cb.state(), State::Open);
    assert!(cb.can_execute());
    assert_eq!(cb.state(), State::HalfOpen);
    assert_eq!(cb.current_state_code(), 1);
    // HalfOpen keeps admitting
    assert!(cb.can_execute());
    assert_eq!(cb.state(), State::HalfOpen);
}

#[test]
fn failed_probe_reopens_even_below_threshold() {
    let mut cb = CircuitBreaker::new(10, Duration::from_secs(0));
    for _ in 0..10 {
        cb.record_failure();
    }
    assert_eq!(cb.state(), State::Open);
    assert!(cb.can_execute());
    assert_eq!(cb.state(), State::HalfOpen);
    cb.record_failure();
    assert_eq!(cb.state(), State::Open);
    assert_eq!(cb.consecutive_failures(), 11);
}

#[test]
fn success_resets_to_closed() {
    let mut cb = CircuitBreaker::new(2, Duration::from_secs(0));
    cb.record_failure();
    cb.record_failure();
    assert!(cb.can_execute());
    assert_eq!(cb.state(), State::HalfOpen);
    cb.record_success();
    assert_eq!(cb.state(), State::Closed);
    assert_eq!(cb.consecutive_failures(), 0);
    assert_eq!(cb.current_state_code(), 0);
    cb.record_failure();
    assert_eq!(cb.state(), State::Closed);
}

#[test]
fn zero_threshold_trips_on_first_failure() {
    let mut cb = CircuitBreaker::new(0, Duration::from_secs(60));
    assert_eq!(cb.state(), State::Closed);
    cb.record_failure();
    assert_eq!(cb.state(), State::Open);
}

#[test]
fn admission_with_given_clock_answer() {
    let mut cb = CircuitBreaker::new(1, Duration::from_secs(30));
    assert!(cb.can_execute_after(false));
    assert_eq!(cb.state(), State::Closed);
    cb.record_failure();
    assert!(!cb.can_execute_after(false));
    assert_eq!(cb.state(), State::Open);
    assert!(cb.can_execute_after(true));
    assert_eq!(cb.state(), State::HalfOpen);
    assert!(cb.can_execute_after(false));
    assert_eq!(cb.state(), State::HalfOpen);
}

#[test]
fn cooldown_is_measured_from_the_trip() {
    let t0 = Instant::now();
    let mut cb = CircuitBreaker::new(1, Duration::from_secs(60));
    cb.record_failure_at(t0);
    assert_eq!(cb.state(), State::Open);
    assert!(!cb.can_execute_at(t0 + Duration::from_secs(59)));
    assert_eq!(cb.state(), State::Open);
    assert!(cb.can_execute_at(t0 + Duration::from_secs(60)));
    assert_eq!(cb.state(), State::HalfOpen);
}

#[test]
fn failed_probe_restarts_the_cooldown() {
    let t0 = Instant::now();
    let mut cb = CircuitBreaker::new(1, Duration::from_secs(60));
    cb.record_failure_at(t0);
    assert!(cb.can_execute_at(t0 + Duration::from_secs(60)));
    cb.record_failure_at(t0 + Duration::from_secs(60));
    assert_eq!(cb.state(), State::Open);
    assert!(!cb.can_execute_at(t0 + Duration::from_secs(61)));
    assert!(!cb.can_execute_at(t0 + Duration::from_secs(119)));
    assert!(cb.can_execute_at(t0 + Duration::from_secs(120)));
    assert_eq!(cb.state(), State::HalfOpen);
}

#[test]
fn failures_below_threshold_do_not_open() {
    let t0 = Instant::now();
    let mut cb = CircuitBreaker::new(3, Duration::from_secs(60));
    cb.record_failure_at(t0);
    cb.record_failure_at(t0 + Duration::from_secs(1));
    assert_eq!(cb.state(), State::Closed);
    assert!(cb.can_execute_at(t0 + Duration::from_secs(2)));
    cb.record_failure_at(t0 + Duration::from_secs(10));
    assert_eq!(cb.state(), State::Open);
    assert!(!cb.can_execute_at(t0 + Duration::from_secs(69)));
    assert!(cb.can_execute_at(t0 + Duration::from_secs(70)));
}

#[test]
fn cooldown_is_compared_to_the_nanosecond() {
    let t0 = Instant::now();
    let mut cb = CircuitBreaker::new(1, Duration::from_millis(1500));
    cb.record_failure_at(t0);
    assert!(!cb.can_execute_at(t0 + Duration::from_nanos(1_499_999_999)));
    assert_eq!(cb.state(), State::Open);
    assert!(cb.can_execute_at(t0 + Duration::from_nanos(1_500_000_000)));
    assert_eq!(cb.state(), State::HalfOpen);
}
