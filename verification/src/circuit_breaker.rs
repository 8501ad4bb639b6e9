//! Per-endpoint circuit breaker guarding upstream calls from cascading
//! failure.
//!
//! The breaker is a three-state machine. While `Closed` it counts
//! consecutive retryable failures and opens once they reach
//! `failure_threshold`; while `Open` it rejects every call pre-flight until
//! `timeout_duration_ms` has elapsed, then lets exactly the next call
//! through as a probe in `HalfOpen`; `success_threshold` consecutive
//! successes close it again, and any counted failure while half-open
//! reopens it at once. Non-retryable failures pass through without touching
//! the state, and any success while closed resets the failure counter.
//!
//! Time is passed in by the caller as a monotonic millisecond reading, and
//! every transition is observable through `state_value` (0 = closed,
//! 1 = open, 2 = half-open), which a caller forwards to its metrics sink.

use vstd::prelude::*;

use crate::rpc_error::RpcError;

verus! {

/// Tuning knobs of one breaker instance. Immutable once constructed.
#[derive(Debug, Clone, Copy, PartialEq, Eq, Structural)]
pub struct CircuitBreakerConfig {
    /// Number of consecutive retryable failures before opening the circuit.
    pub failure_threshold: u32,
    /// Number of successes in half-open required to close the circuit.
    pub success_threshold: u32,
    /// Time to wait while open before trying half-open, in milliseconds.
    pub timeout_duration_ms: u64,
    /// Maximum probe calls in half-open before deciding.
    pub half_open_max_calls: u32,
}

impl CircuitBreakerConfig {
    /// Both thresholds must be at least one for the counters to mean
    /// anything.
    pub open spec fn wf(&self) -> bool {
        self.failure_threshold >= 1 && self.success_threshold >= 1
    }
}

impl Default for CircuitBreakerConfig {
    /// Five consecutive failures open the circuit, two half-open successes
    /// close it, and an open circuit is probed after thirty seconds.
    fn default() -> (c: Self)
        ensures
            c == (CircuitBreakerConfig {
                failure_threshold: 5,
                success_threshold: 2,
                timeout_duration_ms: 30_000,
                half_open_max_calls: 3,
            }),
            c.wf(),
    {
        CircuitBreakerConfig {
            failure_threshold: 5,
            success_threshold: 2,
            timeout_duration_ms: 30_000,
            half_open_max_calls: 3,
        }
    }
}

/// The three states of one breaker. Counters reset to zero on every state
/// change; `opened_at_ms` is the monotonic reading at which the circuit
/// opened.
#[derive(Debug, Clone, Copy, PartialEq, Eq, Structural)]
pub enum CircuitState {
    Closed { failure_count: u32 },
    Open { opened_at_ms: u64 },
    HalfOpen { success_count: u32 },
}

/// Call admission: an open breaker whose cooldown has elapsed moves to
/// half-open and admits the call as a probe; an open breaker within the
/// cooldown rejects; any other state admits without change. Returns the
/// admission verdict and the state after admission.
pub open spec fn spec_admit(s: CircuitState, cfg: CircuitBreakerConfig, now_ms: u64) -> (
    bool,
    CircuitState,
) {
    match s {
        CircuitState::Open { opened_at_ms } => {
            if now_ms >= opened_at_ms + cfg.timeout_duration_ms {
                (true, CircuitState::HalfOpen { success_count: 0 })
            } else {
                (false, s)
            }
        },
        _ => (true, s),
    }
}

/// Success transition: progress toward closing while half-open, and a
/// reset of the failure counter otherwise.
pub open spec fn spec_on_success(s: CircuitState, cfg: CircuitBreakerConfig) -> CircuitState {
    match s {
        CircuitState::HalfOpen { success_count } => {
            if success_count + 1 >= cfg.success_threshold {
                CircuitState::Closed { failure_count: 0 }
            } else {
                CircuitState::HalfOpen { success_count: (success_count + 1) as u32 }
            }
        },
        _ => CircuitState::Closed { failure_count: 0 },
    }
}

/// Counted-failure transition: a closed breaker counts up and opens at the
/// threshold, a half-open breaker reopens at once, and an open breaker
/// keeps its original opening time.
pub open spec fn spec_on_failure(s: CircuitState, cfg: CircuitBreakerConfig, now_ms: u64)
    -> CircuitState {
    match s {
        CircuitState::Closed { failure_count } => {
            if failure_count + 1 >= cfg.failure_threshold {
                CircuitState::Open { opened_at_ms: now_ms }
            } else {
                CircuitState::Closed { failure_count: (failure_count + 1) as u32 }
            }
        },
        CircuitState::HalfOpen { .. } => CircuitState::Open { opened_at_ms: now_ms },
        CircuitState::Open { opened_at_ms } => CircuitState::Open { opened_at_ms },
    }
}

/// What the wrapped operation would do, were it invoked.
#[derive(Debug, Clone, Copy, PartialEq, Eq, Structural)]
pub enum CallEvent {
    Succeed,
    Fail { retryable: bool },
}

/// One whole guarded call at reading `now_ms`: admission first, then — only
/// if the call was admitted — the outcome transition. Returns whether the
/// operation was invoked at all, and the state after the call. Failures
/// that are not retryable leave the state untouched.
pub open spec fn spec_call(
    s: CircuitState,
    cfg: CircuitBreakerConfig,
    now_ms: u64,
    ev: CallEvent,
) -> (bool, CircuitState) {
    let (allowed, after_admit) = spec_admit(s, cfg, now_ms);
    if !allowed {
        (false, after_admit)
    } else {
        match ev {
            CallEvent::Succeed => (true, spec_on_success(after_admit, cfg)),
            CallEvent::Fail { retryable } => (
                true,
                if retryable {
                    spec_on_failure(after_admit, cfg, now_ms)
                } else {
                    after_admit
                },
            ),
        }
    }
}

/// The state after a whole sequence of guarded calls, all at the same
/// reading `now_ms`.
pub open spec fn spec_run_calls(
    s: CircuitState,
    cfg: CircuitBreakerConfig,
    now_ms: u64,
    evs: Seq<CallEvent>,
) -> CircuitState
    decreases evs.len(),
{
    if evs.len() == 0 {
        s
    } else {
        spec_call(spec_run_calls(s, cfg, now_ms, evs.drop_last()), cfg, now_ms, evs.last()).1
    }
}

/// The count of consecutive retryable failures at the end of `evs`: reset
/// by a success, increased by a retryable failure, and left alone by a
/// failure that is not retryable.
pub open spec fn consecutive_retryable_failures(evs: Seq<CallEvent>) -> nat
    decreases evs.len(),
{
    if evs.len() == 0 {
        0
    } else {
        match evs.last() {
            CallEvent::Succeed => 0,
            CallEvent::Fail { retryable } => {
                if retryable {
                    consecutive_retryable_failures(evs.drop_last()) + 1
                } else {
                    consecutive_retryable_failures(evs.drop_last())
                }
            },
        }
    }
}

/// One breaker instance: the guarded state, its configuration, and the
/// endpoint name it reports under.
pub struct CircuitBreaker {
    state: CircuitState,
    config: CircuitBreakerConfig,
    endpoint_name: String,
}

impl CircuitBreaker {
    /// The current machine state.
    pub closed spec fn spec_state(&self) -> CircuitState {
        self.state
    }

    /// The configuration given at construction.
    pub closed spec fn spec_config(&self) -> CircuitBreakerConfig {
        self.config
    }

    /// The endpoint name given at construction.
    pub closed spec fn spec_endpoint(&self) -> Seq<char> {
        self.endpoint_name@
    }

    /// Internal consistency: the configuration is sensible and each counter
    /// stays strictly below its threshold (it resets on the transition that
    /// would reach it).
    pub open spec fn wf(&self) -> bool {
        &&& self.spec_config().wf()
        &&& match self.spec_state() {
            CircuitState::Closed { failure_count } => failure_count
                < self.spec_config().failure_threshold,
            CircuitState::HalfOpen { success_count } => success_count
                < self.spec_config().success_threshold,
            CircuitState::Open { .. } => true,
        }
    }

    /// A fresh breaker starts closed with a clean failure counter.
    pub fn new(config: CircuitBreakerConfig, endpoint_name: String) -> (cb: Self)
        requires
            config.wf(),
        ensures
            cb.wf(),
            cb.spec_state() == (CircuitState::Closed { failure_count: 0 }),
            cb.spec_config() == config,
            cb.spec_endpoint() == endpoint_name@,
    {
        CircuitBreaker { state: CircuitState::Closed { failure_count: 0 }, config, endpoint_name }
    }

    /// Admission check, to be made once before each wrapped call. When it
    /// returns false the caller must fail with `CircuitBreakerOpen` without
    /// invoking the operation; when it returns true the caller invokes the
    /// operation and reports the outcome through `on_success` or
    /// `on_error`.
    pub fn begin_call(&mut self, now_ms: u64) -> (allowed: bool)
        requires
            old(self).wf(),
        ensures
            final(self).wf(),
            (allowed, final(self).spec_state()) == spec_admit(
                old(self).spec_state(),
                old(self).spec_config(),
                now_ms,
            ),
            final(self).spec_config() == old(self).spec_config(),
            final(self).spec_endpoint() == old(self).spec_endpoint(),
    {
        match self.state {
            CircuitState::Open { opened_at_ms } => {
                if now_ms >= opened_at_ms && now_ms - opened_at_ms >= self.config.timeout_duration_ms {
                    self.state = CircuitState::HalfOpen { success_count: 0 };
                    true
                } else {
                    false
                }
            },
            _ => true,
        }
    }

    /// Report that an admitted call succeeded.
    pub fn on_success(&mut self)
        requires
            old(self).wf(),
        ensures
            final(self).wf(),
            final(self).spec_state() == spec_on_success(
                old(self).spec_state(),
                old(self).spec_config(),
            ),
            final(self).spec_config() == old(self).spec_config(),
            final(self).spec_endpoint() == old(self).spec_endpoint(),
    {
        match self.state {
            CircuitState::HalfOpen { success_count } => {
                if success_count + 1 >= self.config.success_threshold {
                    self.state = CircuitState::Closed { failure_count: 0 };
                } else {
                    self.state = CircuitState::HalfOpen { success_count: success_count + 1 };
                }
            },
            _ => {
                self.state = CircuitState::Closed { failure_count: 0 };
            },
        }
    }

    /// Report a counted failure of an admitted call.
    pub fn on_failure(&mut self, now_ms: u64)
        requires
            old(self).wf(),
        ensures
            final(self).wf(),
            final(self).spec_state() == spec_on_failure(
                old(self).spec_state(),
                old(self).spec_config(),
                now_ms,
            ),
            final(self).spec_config() == old(self).spec_config(),
            final(self).spec_endpoint() == old(self).spec_endpoint(),
    {
        match self.state {
            CircuitState::Closed { failure_count } => {
                if failure_count + 1 >= self.config.failure_threshold {
                    self.state = CircuitState::Open { opened_at_ms: now_ms };
                } else {
                    self.state = CircuitState::Closed { failure_count: failure_count + 1 };
                }
            },
            CircuitState::HalfOpen { .. } => {
                self.state = CircuitState::Open { opened_at_ms: now_ms };
            },
            CircuitState::Open { .. } => {},
        }
    }

    /// Report the failure of an admitted call: only retryable failures
    /// count toward the breaker, everything else passes through without
    /// affecting the state.
    pub fn on_error(&mut self, e: &RpcError, now_ms: u64)
        requires
            old(self).wf(),
        ensures
            final(self).wf(),
            final(self).spec_state() == if e.spec_is_retryable() {
                spec_on_failure(old(self).spec_state(), old(self).spec_config(), now_ms)
            } else {
                old(self).spec_state()
            },
            final(self).spec_config() == old(self).spec_config(),
            final(self).spec_endpoint() == old(self).spec_endpoint(),
    {
        if e.is_retryable() {
            self.on_failure(now_ms);
        }
    }

    /// Current state for metrics: 0 = closed, 1 = open, 2 = half-open.
    pub fn state_value(&self) -> (v: i64)
        ensures
            v == match self.spec_state() {
                CircuitState::Closed { .. } => 0int,
                CircuitState::Open { .. } => 1int,
                CircuitState::HalfOpen { .. } => 2int,
            },
    {
        match self.state {
            CircuitState::Closed { .. } => 0,
            CircuitState::Open { .. } => 1,
            CircuitState::HalfOpen { .. } => 2,
        }
    }

    /// The endpoint name this breaker reports under.
    pub fn endpoint_name(&self) -> (r: &str)
        ensures
            r@ == self.spec_endpoint(),
    {
        self.endpoint_name.as_str()
    }
}

/// Once the circuit is open, every call made before the cooldown has
/// elapsed fails pre-flight: the wrapped operation is not invoked — whatever
/// it would have done — and the state does not change.
pub proof fn lemma_open_rejects_before_timeout(
    s: CircuitState,
    cfg: CircuitBreakerConfig,
    now_ms: u64,
    ev: CallEvent,
)
    requires
        s matches CircuitState::Open { opened_at_ms } && (now_ms as int) < opened_at_ms
            + cfg.timeout_duration_ms,
    ensures
        spec_call(s, cfg, now_ms, ev) == (false, s),
{
}

/// Once the cooldown has elapsed, exactly the next call is admitted as a
/// probe and moves the breaker to half-open with a clean success counter.
pub proof fn lemma_open_probes_after_timeout(s: CircuitState, cfg: CircuitBreakerConfig, now_ms: u64)
    requires
        s matches CircuitState::Open { opened_at_ms } && now_ms >= opened_at_ms
            + cfg.timeout_duration_ms,
    ensures
        spec_admit(s, cfg, now_ms) == (true, CircuitState::HalfOpen { success_count: 0 }),
{
}

/// Any counted failure while half-open reopens the breaker immediately,
/// stamped with the present reading.
pub proof fn lemma_half_open_failure_reopens(
    s: CircuitState,
    cfg: CircuitBreakerConfig,
    now_ms: u64,
)
    requires
        s matches CircuitState::HalfOpen { .. },
    ensures
        spec_call(s, cfg, now_ms, CallEvent::Fail { retryable: true }) == (
            true,
            CircuitState::Open { opened_at_ms: now_ms },
        ),
{
}

/// From half-open with `n` successes banked, `k` further consecutive
/// successes close the breaker exactly when they reach the success
/// threshold, and leave it half-open with the successes counted otherwise.
pub proof fn lemma_half_open_successes_close(
    cfg: CircuitBreakerConfig,
    now_ms: u64,
    n: u32,
    k: nat,
)
    requires
        cfg.wf(),
        n < cfg.success_threshold,
    ensures
        spec_run_calls(
            CircuitState::HalfOpen { success_count: n },
            cfg,
            now_ms,
            Seq::new(k, |i: int| CallEvent::Succeed),
        ) == if n + k >= cfg.success_threshold {
            CircuitState::Closed { failure_count: 0 }
        } else {
            CircuitState::HalfOpen { success_count: (n + k) as u32 }
        },
    decreases k,
{
    let evs = Seq::new(k, |i: int| CallEvent::Succeed);
    if k == 0 {
    } else {
        let prev = Seq::new((k - 1) as nat, |i: int| CallEvent::Succeed);
        assert(evs.drop_last() =~= prev);
        assert(evs.last() == CallEvent::Succeed);
        if n + k - 1 >= cfg.success_threshold {
            lemma_half_open_successes_close(cfg, now_ms, n, (k - 1) as nat);
            assert(spec_run_calls(CircuitState::HalfOpen { success_count: n }, cfg, now_ms, prev)
                == (CircuitState::Closed { failure_count: 0 }));
        } else {
            lemma_half_open_successes_close(cfg, now_ms, n, (k - 1) as nat);
        }
    }
}

/// Starting from a fresh breaker, and with every call in the sequence made
/// at the same reading (so an opened circuit has no chance to cool down),
/// the run either opens at the first moment the consecutive retryable
/// failures reach the threshold and stays open, or tracks that count in its
/// closed state the whole way.
proof fn lemma_closed_run_characterized(
    cfg: CircuitBreakerConfig,
    now_ms: u64,
    evs: Seq<CallEvent>,
)
    requires
        cfg.wf(),
        cfg.timeout_duration_ms >= 1,
    ensures
        if forall|i: int|
            0 <= i <= evs.len() ==> #[trigger] consecutive_retryable_failures(evs.take(i))
                < cfg.failure_threshold {
            spec_run_calls(CircuitState::Closed { failure_count: 0 }, cfg, now_ms, evs)
                matches CircuitState::Closed { failure_count } && failure_count
                == consecutive_retryable_failures(evs)
        } else {
            spec_run_calls(CircuitState::Closed { failure_count: 0 }, cfg, now_ms, evs) == (
            CircuitState::Open { opened_at_ms: now_ms })
        },
    decreases evs.len(),
{
    let start = CircuitState::Closed { failure_count: 0 };
    if evs.len() == 0 {
        assert(evs.take(0) =~= evs);
    } else {
        let prev = evs.drop_last();
        let last = evs.last();
        lemma_closed_run_characterized(cfg, now_ms, prev);
        assert forall|i: int| 0 <= i <= prev.len() implies #[trigger] consecutive_retryable_failures(
            evs.take(i),
        ) == consecutive_retryable_failures(prev.take(i)) by {
            assert(evs.take(i) =~= prev.take(i));
        }
        assert(evs.take(evs.len() as int) =~= evs);
        assert(prev.take(prev.len() as int) =~= prev);
        let run_prev = spec_run_calls(start, cfg, now_ms, prev);
        assert(spec_run_calls(start, cfg, now_ms, evs) == spec_call(
            run_prev,
            cfg,
            now_ms,
            last,
        ).1);
        if forall|i: int|
            0 <= i <= prev.len() ==> #[trigger] consecutive_retryable_failures(prev.take(i))
                < cfg.failure_threshold {
            let c = consecutive_retryable_failures(prev);
            assert(run_prev matches CircuitState::Closed { failure_count } && failure_count == c);
            assert(c < cfg.failure_threshold);
            match last {
                CallEvent::Succeed => {
                    assert(consecutive_retryable_failures(evs) == 0);
                    assert forall|i: int|
                        0 <= i <= evs.len() implies #[trigger] consecutive_retryable_failures(
                        evs.take(i),
                    ) < cfg.failure_threshold by {
                        if i == evs.len() {
                            assert(consecutive_retryable_failures(evs.take(i)) == 0);
                        }
                    }
                },
                CallEvent::Fail { retryable } => {
                    if retryable {
                        assert(consecutive_retryable_failures(evs) == c + 1);
                        if c + 1 >= cfg.failure_threshold {
                            assert(consecutive_retryable_failures(evs.take(evs.len() as int))
                                >= cfg.failure_threshold);
                            assert(spec_run_calls(start, cfg, now_ms, evs) == (CircuitState::Open {
                                opened_at_ms: now_ms }));
                        } else {
                            assert forall|i: int|
                                0 <= i <= evs.len()
                                    implies #[trigger] consecutive_retryable_failures(evs.take(i))
                                < cfg.failure_threshold by {
                                if i == evs.len() {
                                    assert(consecutive_retryable_failures(evs.take(i)) == c + 1);
                                }
                            }
                        }
                    } else {
                        assert(consecutive_retryable_failures(evs) == c);
                        assert forall|i: int|
                            0 <= i <= evs.len() implies #[trigger] consecutive_retryable_failures(
                            evs.take(i),
                        ) < cfg.failure_threshold by {
                            if i == evs.len() {
                                assert(consecutive_retryable_failures(evs.take(i)) == c);
                            }
                        }
                    }
                },
            }
        } else {
            let j = choose|j: int|
                0 <= j <= prev.len() && #[trigger] consecutive_retryable_failures(prev.take(j))
                    >= cfg.failure_threshold;
            assert(consecutive_retryable_failures(evs.take(j)) >= cfg.failure_threshold);
            assert(run_prev == (CircuitState::Open { opened_at_ms: now_ms }));
            assert((now_ms as int) < now_ms + cfg.timeout_duration_ms);
            assert(spec_call(run_prev, cfg, now_ms, last) == (false, run_prev));
            assert(!(forall|i: int|
                0 <= i <= evs.len() ==> #[trigger] consecutive_retryable_failures(evs.take(i))
                    < cfg.failure_threshold));
        }
    }
}

/// The breaker opens if and only if, somewhere along the run, the count of
/// consecutive retryable failures — reset by an intervening success, and
/// not advanced by a failure that is not retryable — reaches the failure
/// threshold. All calls are made at one reading, so an opened circuit has
/// not yet cooled down.
pub proof fn lemma_opens_iff_consecutive_failures(
    cfg: CircuitBreakerConfig,
    now_ms: u64,
    evs: Seq<CallEvent>,
)
    requires
        cfg.wf(),
        cfg.timeout_duration_ms >= 1,
    ensures
        (spec_run_calls(CircuitState::Closed { failure_count: 0 }, cfg, now_ms, evs)
            matches CircuitState::Open { .. }) <==> exists|i: int|
            0 <= i <= evs.len() && #[trigger] consecutive_retryable_failures(evs.take(i))
                >= cfg.failure_threshold,
{
    lemma_closed_run_characterized(cfg, now_ms, evs);
}

} // verus!
