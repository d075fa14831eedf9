//! Circuit breaker guarding the InfluxDB HTTP transport.
//!
//! The breaker is a three-state machine (Closed, Open, HalfOpen). Its
//! transitions are specified over [`BreakerView`]; the clock is the only
//! input that is not modelled, and every function that reads it says what
//! holds whatever the clock answered.

use std::time::{Duration, Instant};
use vstd::prelude::*;

verus! {

/// The monotonic clock instant type of std, carried through opaquely.
#[verifier::external_type_specification]
#[verifier::external_body]
pub struct ExInstant(Instant);

/// Reads the monotonic clock (`std::time::Instant::now`).
/// Nothing is stated of the result: it is the current time.
#[verifier::external_body]
pub(crate) fn instant_now() -> Instant {
    Instant::now()
}

/// The time from `earlier` to `later` on the monotonic clock: the result of
/// `std::time::Instant::duration_since` (zero when `earlier` is the later
/// instant), a function of the two instants alone.
pub uninterp spec fn duration_between(later: Instant, earlier: Instant) -> Duration;

/// `later.duration_since(earlier)` (`std::time::Instant::duration_since`,
/// which saturates at zero and does not panic); the result is
/// [`duration_between`] of the two instants.
#[verifier::external_body]
fn duration_since(later: &Instant, earlier: &Instant) -> (d: Duration)
    ensures
        d == duration_between(*later, *earlier),
{
    later.duration_since(*earlier)
}

/// The length of a duration in nanoseconds: the result of
/// `std::time::Duration::as_nanos`, a function of the duration alone.
pub uninterp spec fn duration_nanos(d: Duration) -> u128;

/// The total number of nanoseconds in `d` (`std::time::Duration::as_nanos`,
/// which never panics); the result is [`duration_nanos`] of the argument.
#[verifier::external_body]
fn duration_as_nanos(d: &Duration) -> (nanos: u128)
    ensures
        nanos == duration_nanos(*d),
{
    d.as_nanos()
}

/// A duration of whole seconds (`std::time::Duration::from_secs`, which
/// never panics): its length is `secs` times 10^9 nanoseconds.
#[verifier::external_body]
pub(crate) fn duration_from_secs(secs: u64) -> (d: Duration)
    ensures
        duration_nanos(d) == secs as int * 1_000_000_000,
{
    Duration::from_secs(secs)
}

/// The three states of the breaker.
#[derive(Debug, Clone, Copy, PartialEq, Eq, Structural)]
pub enum State {
    Closed,
    Open,
    HalfOpen,
}

/// Mathematical model of a breaker: its state, its failure counter, and
/// the threshold and cooldown (in nanoseconds) it was made with. The
/// instant at which it last opened is given by [`CircuitBreaker::opened_at`].
pub struct BreakerView {
    pub state: State,
    pub consecutive_failures: nat,
    pub failure_threshold: nat,
    pub cooldown_nanos: nat,
}

/// The model of a freshly built breaker.
pub open spec fn initial_view(failure_threshold: nat, cooldown_nanos: nat) -> BreakerView {
    BreakerView { state: State::Closed, consecutive_failures: 0, failure_threshold, cooldown_nanos }
}

/// Whether a failure recorded in `v` trips the breaker to Open.
pub open spec fn failure_trips(v: BreakerView) -> bool {
    v.state == State::HalfOpen || v.consecutive_failures + 1 >= v.failure_threshold
}

/// The model after one recorded failure.
pub open spec fn after_failure(v: BreakerView) -> BreakerView {
    BreakerView {
        state: if failure_trips(v) { State::Open } else { v.state },
        consecutive_failures: v.consecutive_failures + 1,
        ..v
    }
}

/// The model after one recorded success: back to Closed with no failures.
pub open spec fn after_success(v: BreakerView) -> BreakerView {
    initial_view(v.failure_threshold, v.cooldown_nanos)
}

/// Whether a request may proceed in `v`, given whether the cooldown has
/// elapsed since the breaker opened.
pub open spec fn admits(v: BreakerView, cooldown_elapsed: bool) -> bool {
    match v.state {
        State::Closed => true,
        State::HalfOpen => true,
        State::Open => cooldown_elapsed,
    }
}

/// The model after a request was asked for: an Open breaker whose cooldown
/// has elapsed moves to HalfOpen; every other state is kept.
pub open spec fn after_admission(v: BreakerView, cooldown_elapsed: bool) -> BreakerView {
    if v.state == State::Open && cooldown_elapsed {
        BreakerView { state: State::HalfOpen, ..v }
    } else {
        v
    }
}

/// The model after `k` consecutive recorded failures.
pub open spec fn after_failures(v: BreakerView, k: nat) -> BreakerView
    decreases k,
{
    if k == 0 {
        v
    } else {
        after_failure(after_failures(v, (k - 1) as nat))
    }
}

/// Whether, at the instant `now`, the cooldown has elapsed since the
/// breaker opened at `opened_at`: the time between the two instants is at
/// least the cooldown. A breaker that never opened has no cooldown running.
pub open spec fn cooldown_elapsed_at(opened_at: Option<Instant>, cooldown_nanos: nat, now: Instant) -> bool {
    match opened_at {
        Some(t) => duration_nanos(duration_between(now, t)) >= cooldown_nanos,
        None => false,
    }
}

/// The opening instant after a failure recorded at `now`: a failure that
/// trips the breaker (re)starts the cooldown at `now`; any other failure
/// keeps the opening instant.
pub open spec fn opened_after_failure(v: BreakerView, opened_at: Option<Instant>, now: Instant) -> Option<Instant> {
    if failure_trips(v) {
        Some(now)
    } else {
        opened_at
    }
}

/// The numeric code of a state exported as a gauge: 0 Closed, 1 HalfOpen, 2 Open.
pub open spec fn state_code(s: State) -> u32 {
    match s {
        State::Closed => 0,
        State::HalfOpen => 1,
        State::Open => 2,
    }
}

/// Circuit breaker for upstream writes.
pub struct CircuitBreaker {
    failure_threshold: u32,
    cooldown_duration: Duration,
    current_state: State,
    consecutive_failures: u32,
    opened_at: Option<Instant>,
}

impl CircuitBreaker {
    /// The model of this breaker.
    pub closed spec fn view(&self) -> BreakerView {
        BreakerView {
            state: self.current_state,
            consecutive_failures: self.consecutive_failures as nat,
            failure_threshold: self.failure_threshold as nat,
            cooldown_nanos: duration_nanos(self.cooldown_duration) as nat,
        }
    }

    /// The instant at which the breaker last opened, while it is not Closed.
    pub closed spec fn opened_at(&self) -> Option<Instant> {
        self.opened_at
    }

    /// Internal consistency: the breaker has an opening instant exactly when
    /// it is not Closed.
    pub closed spec fn wf(&self) -> bool {
        (self.current_state == State::Closed) == self.opened_at.is_none()
    }

    /// A Closed breaker with no failures recorded.
    pub fn new(failure_threshold: u32, cooldown_duration: Duration) -> (breaker: Self)
        ensures
            breaker.wf(),
            breaker.view() == initial_view(failure_threshold as nat, duration_nanos(cooldown_duration) as nat),
            breaker.opened_at() is None,
    {
        CircuitBreaker {
            failure_threshold,
            cooldown_duration,
            current_state: State::Closed,
            consecutive_failures: 0,
            opened_at: None,
        }
    }

    /// Decides whether an outbound request may proceed, given whether the
    /// cooldown has elapsed since the breaker opened. An Open breaker whose
    /// cooldown has elapsed moves to HalfOpen and lets one probe through.
    pub fn can_execute_after(&mut self, cooldown_elapsed: bool) -> (allowed: bool)
        requires
            old(self).wf(),
        ensures
            final(self).wf(),
            allowed == admits(old(self).view(), cooldown_elapsed),
            final(self).view() == after_admission(old(self).view(), cooldown_elapsed),
            final(self).opened_at() == old(self).opened_at(),
    {
        match self.current_state {
            State::Closed => true,
            State::Open => {
                if cooldown_elapsed {
                    self.current_state = State::HalfOpen;
                    true
                } else {
                    false
                }
            },
            State::HalfOpen => true,
        }
    }

    /// Decides whether an outbound request may proceed at the instant
    /// `now`: an Open breaker lets a probe through, moving to HalfOpen, once
    /// the cooldown has elapsed since it opened.
    pub fn can_execute_at(&mut self, now: Instant) -> (allowed: bool)
        requires
            old(self).wf(),
        ensures
            final(self).wf(),
            allowed == admits(
                old(self).view(),
                cooldown_elapsed_at(old(self).opened_at(), old(self).view().cooldown_nanos, now),
            ),
            final(self).view() == after_admission(
                old(self).view(),
                cooldown_elapsed_at(old(self).opened_at(), old(self).view().cooldown_nanos, now),
            ),
            final(self).opened_at() == old(self).opened_at(),
            old(self).view().cooldown_nanos == 0 ==> allowed,
    {
        let mut elapsed = false;
        if let Some(opened_at) = &self.opened_at {
            let since = duration_since(&now, opened_at);
            elapsed = duration_as_nanos(&since) >= duration_as_nanos(&self.cooldown_duration);
        }
        self.can_execute_after(elapsed)
    }

    /// Determines whether an outbound request may proceed, reading the clock
    /// for the current instant (see [`CircuitBreaker::can_execute_at`]).
    pub fn can_execute(&mut self) -> (allowed: bool)
        requires
            old(self).wf(),
        ensures
            final(self).wf(),
            final(self).opened_at() == old(self).opened_at(),
            exists|now: Instant|
                {
                    &&& allowed == admits(
                        old(self).view(),
                        #[trigger] cooldown_elapsed_at(old(self).opened_at(), old(self).view().cooldown_nanos, now),
                    )
                    &&& final(self).view() == after_admission(
                        old(self).view(),
                        cooldown_elapsed_at(old(self).opened_at(), old(self).view().cooldown_nanos, now),
                    )
                },
    {
        let now = instant_now();
        self.can_execute_at(now)
    }

    /// The state as a gauge code: 0 Closed, 1 HalfOpen, 2 Open.
    pub fn current_state_code(&self) -> (code: u32)
        ensures
            code == state_code(self.view().state),
    {
        match self.current_state {
            State::Closed => 0,
            State::HalfOpen => 1,
            State::Open => 2,
        }
    }

    /// Records a successful write and resets the breaker to Closed.
    pub fn record_success(&mut self)
        requires
            old(self).wf(),
        ensures
            final(self).wf(),
            final(self).view() == after_success(old(self).view()),
            final(self).opened_at() is None,
    {
        self.current_state = State::Closed;
        self.consecutive_failures = 0;
        self.opened_at = None;
    }

    /// Records a failed write at the instant `now`; trips to Open when the
    /// failure threshold is reached or when the failing request was the
    /// HalfOpen probe, and every trip restarts the cooldown at `now`.
    pub fn record_failure_at(&mut self, now: Instant)
        requires
            old(self).wf(),
            old(self).view().consecutive_failures < u32::MAX,
        ensures
            final(self).wf(),
            final(self).view() == after_failure(old(self).view()),
            final(self).opened_at() == opened_after_failure(old(self).view(), old(self).opened_at(), now),
    {
        self.consecutive_failures = self.consecutive_failures + 1;
        if self.current_state == State::HalfOpen
            || self.consecutive_failures >= self.failure_threshold {
            self.current_state = State::Open;
            self.opened_at = Some(now);
        }
    }

    /// Records a failed write, reading the clock for the current instant
    /// (see [`CircuitBreaker::record_failure_at`]).
    pub fn record_failure(&mut self)
        requires
            old(self).wf(),
            old(self).view().consecutive_failures < u32::MAX,
        ensures
            final(self).wf(),
            final(self).view() == after_failure(old(self).view()),
            exists|now: Instant|
                final(self).opened_at() == #[trigger] opened_after_failure(
                    old(self).view(),
                    old(self).opened_at(),
                    now,
                ),
    {
        let now = instant_now();
        self.record_failure_at(now);
    }

    /// The current state.
    pub fn state(&self) -> (s: State)
        ensures
            s == self.view().state,
    {
        self.current_state
    }

    /// The number of failures recorded since the last success.
    pub fn consecutive_failures(&self) -> (n: u32)
        ensures
            n == self.view().consecutive_failures,
    {
        self.consecutive_failures
    }

    /// The failure threshold the breaker was made with.
    pub fn failure_threshold(&self) -> (n: u32)
        ensures
            n == self.view().failure_threshold,
    {
        self.failure_threshold
    }
}

/// Law: once the failures recorded since the last success reach the
/// threshold, the breaker is Open, whatever state it started in.
pub proof fn lemma_failures_reaching_threshold_open(v: BreakerView, k: nat)
    requires
        k >= 1,
        v.consecutive_failures + k >= v.failure_threshold,
    ensures
        after_failures(v, k).state == State::Open,
        after_failures(v, k).consecutive_failures == v.consecutive_failures + k,
{
    lemma_failure_count(v, (k - 1) as nat);
    lemma_failure_count(v, k);
}

proof fn lemma_failure_count(v: BreakerView, k: nat)
    ensures
        after_failures(v, k).consecutive_failures == v.consecutive_failures + k,
        after_failures(v, k).failure_threshold == v.failure_threshold,
    decreases k,
{
    if k > 0 {
        lemma_failure_count(v, (k - 1) as nat);
    }
}

/// Law: fewer failures than the threshold, starting from a freshly reset
/// breaker, leave it Closed.
pub proof fn lemma_failures_below_threshold_stay_closed(threshold: nat, cooldown_nanos: nat, k: nat)
    requires
        k < threshold,
    ensures
        after_failures(initial_view(threshold, cooldown_nanos), k).state == State::Closed,
    decreases k,
{
    if k > 0 {
        lemma_failures_below_threshold_stay_closed(threshold, cooldown_nanos, (k - 1) as nat);
        lemma_failure_count(initial_view(threshold, cooldown_nanos), (k - 1) as nat);
    }
}

/// Law: a failure that trips the breaker opens it and restarts the
/// cooldown at the instant of the failure: at any later instant `t` the
/// breaker admits a probe exactly when the time from the failure to `t` is
/// at least the cooldown, whatever instant it had opened at before.
pub proof fn lemma_trip_restarts_cooldown(v: BreakerView, opened_at: Option<Instant>, now: Instant, t: Instant)
    requires
        failure_trips(v),
    ensures
        after_failure(v).state == State::Open,
        opened_after_failure(v, opened_at, now) == Some(now),
        admits(
            after_failure(v),
            cooldown_elapsed_at(opened_after_failure(v, opened_at, now), v.cooldown_nanos, t),
        ) == (duration_nanos(duration_between(t, now)) >= v.cooldown_nanos),
{
}

/// Law: a failure that does not trip the breaker leaves the running
/// cooldown as it was.
pub proof fn lemma_non_tripping_failure_keeps_cooldown(v: BreakerView, opened_at: Option<Instant>, now: Instant)
    requires
        !failure_trips(v),
    ensures
        opened_after_failure(v, opened_at, now) == opened_at,
        after_failure(v).state == v.state,
{
}

/// Law: a success always brings the breaker back to its initial Closed
/// state, whatever happened before.
pub proof fn lemma_success_resets(v: BreakerView)
    ensures
        after_success(v) == initial_view(v.failure_threshold, v.cooldown_nanos),
        after_success(v).state == State::Closed,
{
}

/// Law: a failed HalfOpen probe re-opens the breaker.
pub proof fn lemma_failed_probe_reopens(v: BreakerView)
    requires
        v.state == State::HalfOpen,
    ensures
        after_failure(v).state == State::Open,
{
}

/// Law: an Open breaker whose cooldown has not elapsed refuses the request
/// and stays as it is; Closed and HalfOpen breakers always let it through
/// and stay as they are.
pub proof fn lemma_admission(v: BreakerView, cooldown_elapsed: bool)
    ensures
        v.state == State::Open && !cooldown_elapsed ==> !admits(v, cooldown_elapsed)
            && after_admission(v, cooldown_elapsed) == v,
        v.state != State::Open ==> admits(v, cooldown_elapsed) && after_admission(
            v,
            cooldown_elapsed,
        ) == v,
        v.state == State::Open && cooldown_elapsed ==> admits(v, cooldown_elapsed)
            && after_admission(v, cooldown_elapsed).state == State::HalfOpen,
{
}

/// Law: a recorded failure never closes the breaker (only a success does),
/// and never leaves it HalfOpen.
pub proof fn lemma_failure_never_closes(v: BreakerView)
    ensures
        after_failure(v).state == State::Closed ==> v.state == State::Closed,
        after_failure(v).state != State::HalfOpen,
{
}

/// Law: the gauge codes of the three states are distinct and below 3.
pub proof fn lemma_state_codes_distinct(a: State, b: State)
    ensures
        state_code(a) < 3,
        state_code(a) == state_code(b) ==> a == b,
{
}

} // verus!
