//! Exponential-backoff retry policy, unified for the whole crate.
//!
//! The policy wraps a fallible operation: it returns the first success,
//! returns immediately on a failure the policy does not retry, and
//! otherwise waits and tries again, up to `max_attempts` invocations in
//! all. The wait before attempt `n + 1` is the server's retry-after hint
//! verbatim when the failure carried one (rate limiting), and otherwise
//! `base_delay_ms * 2^(n-1)` clamped to `max_delay_ms`.
//!
//! The drivers here consume a script: a vector whose `i`-th entry is what
//! the operation returns on its `i`-th invocation. The asynchronous caller
//! owns the actual invocations and sleeps; it makes one decision step per
//! attempt with exactly these functions, so everything the policy decides
//! — when to stop, when to wait, and for how long — is verified here.

use vstd::prelude::*;

use vstd::arithmetic::power2::{lemma_pow2_pos, lemma_pow2_strictly_increases, lemma_pow2_unfold, pow2};

use crate::circuit_breaker::{spec_admit, spec_on_failure, spec_on_success, CircuitBreaker, CircuitBreakerConfig, CircuitState};
use crate::rpc_error::RpcError;

verus! {

/// Retry tuning: total invocation budget and the backoff window.
/// Immutable once constructed.
#[derive(Debug, Clone, Copy, PartialEq, Eq, Structural)]
pub struct RetryConfig {
    /// Total number of invocations allowed, at least one.
    pub max_attempts: u32,
    /// First backoff delay, in milliseconds.
    pub base_delay_ms: u64,
    /// Upper clamp on every backoff delay, in milliseconds.
    pub max_delay_ms: u64,
}

impl RetryConfig {
    /// At least one attempt, and a base delay that does not exceed the
    /// clamp.
    pub open spec fn wf(&self) -> bool {
        self.max_attempts >= 1 && self.base_delay_ms <= self.max_delay_ms
    }
}

impl Default for RetryConfig {
    /// Three attempts, backing off from a tenth of a second up to five
    /// seconds.
    fn default() -> (c: Self)
        ensures
            c == (RetryConfig { max_attempts: 3, base_delay_ms: 100, max_delay_ms: 5_000 }),
            c.wf(),
    {
        RetryConfig { max_attempts: 3, base_delay_ms: 100, max_delay_ms: 5_000 }
    }
}

/// Whether the policy tries a failed call again: on every retryable
/// failure, and on rate limiting — the latter only through its retry-after
/// path, never through the breaker's counting.
pub open spec fn spec_retried(e: RpcError) -> bool {
    e.spec_is_retryable() || e matches RpcError::RateLimitError { .. }
}

/// Exec mirror of [`spec_retried`].
pub fn retried_by_policy(e: &RpcError) -> (r: bool)
    ensures
        r == spec_retried(*e),
{
    e.is_retryable() || matches!(e, RpcError::RateLimitError { .. })
}

/// The backoff before invocation `attempt + 1`, after `attempt` failures:
/// `base * 2^(attempt-1)`, clamped to `max_delay_ms`.
pub open spec fn spec_backoff(cfg: RetryConfig, attempt: nat) -> int
    recommends
        attempt >= 1,
{
    let raw = cfg.base_delay_ms * pow2((attempt - 1) as nat);
    if raw <= cfg.max_delay_ms {
        raw as int
    } else {
        cfg.max_delay_ms as int
    }
}

/// The wait after a failure on the given attempt: the rate-limit hint
/// verbatim when present, the exponential backoff otherwise.
pub open spec fn spec_retry_delay(cfg: RetryConfig, e: RpcError, attempt: nat) -> int {
    match e.spec_retry_after() {
        Option::Some(h) => h as int,
        Option::None => spec_backoff(cfg, attempt),
    }
}

/// Computes the clamped exponential backoff after `attempt` failures.
#[verifier::loop_isolation(false)]
pub fn backoff_delay(cfg: &RetryConfig, attempt: u32) -> (d: u64)
    requires
        attempt >= 1,
    ensures
        d == spec_backoff(*cfg, attempt as nat),
        d <= cfg.max_delay_ms,
{
    let base = cfg.base_delay_ms;
    let max = cfg.max_delay_ms;
    proof {
        vstd::arithmetic::power2::lemma2_to64();
        assert(pow2(0) == 1);
        assert(base * pow2(0) == base);
    }
    let mut d: u64 = if base <= max {
        base
    } else {
        max
    };
    let mut i: u32 = 1;
    proof {
        assert(d == spec_backoff(*cfg, 1nat));
    }
    while i < attempt
        invariant
            1 <= i <= attempt,
            d == spec_backoff(*cfg, i as nat),
            d <= max,
        decreases attempt - i,
    {
        proof {
            let p_prev = pow2((i - 1) as nat);
            let p = pow2(i as nat);
            lemma_pow2_unfold(i as nat);
            lemma_pow2_pos((i - 1) as nat);
            assert(base * p == 2 * (base * p_prev)) by (nonlinear_arith)
                requires
                    p == 2 * p_prev,
            ;
        }
        if d > max / 2 {
            d = max;
        } else {
            d = d * 2;
        }
        i = i + 1;
        proof {
            let raw_prev = cfg.base_delay_ms * pow2((i - 2) as nat);
            let raw = cfg.base_delay_ms * pow2((i - 1) as nat);
            assert(raw == 2 * raw_prev);
            if raw_prev <= max {
                if raw_prev > max / 2 {
                    assert(raw > max);
                } else {
                    assert(raw <= max);
                }
            } else {
                assert(raw >= max);
            }
        }
    }
    d
}

/// The number of invocations the policy makes when the operation's
/// outcomes are `outs` and `i` of them have already been consumed by
/// retryable failures: it stops on a success, on a failure it does not
/// retry, and when the invocation budget is spent.
pub open spec fn spec_retry_count<T>(cfg: RetryConfig, outs: Seq<Result<T, RpcError>>, i: int) -> int
    decreases cfg.max_attempts - i,
{
    if i < 0 || i >= outs.len() || i + 1 >= cfg.max_attempts {
        i + 1
    } else {
        match outs[i] {
            Result::Ok(_) => i + 1,
            Result::Err(e) => if spec_retried(e) {
                spec_retry_count(cfg, outs, i + 1)
            } else {
                i + 1
            },
        }
    }
}

/// Total invocations of a whole run on the script `outs`.
pub open spec fn spec_retry_invocations<T>(cfg: RetryConfig, outs: Seq<Result<T, RpcError>>) -> int {
    spec_retry_count(cfg, outs, 0)
}

/// Runs the retry policy over a script of outcomes, `outs[i]` being what
/// the operation returns on its `i`-th invocation. Returns the surfaced
/// result, the number of invocations made, and the waits that were imposed
/// between them.
#[verifier::loop_isolation(false)]
pub fn retry_with_backoff<T>(cfg: &RetryConfig, outcomes: Vec<Result<T, RpcError>>) -> (r: (
    Result<T, RpcError>,
    usize,
    Vec<u64>,
))
    requires
        cfg.wf(),
        outcomes.len() >= cfg.max_attempts,
    ensures
        ({
            let (result, invocations, delays) = r;
            let outs = outcomes@;
            &&& invocations == spec_retry_invocations(*cfg, outs)
            &&& 1 <= invocations <= cfg.max_attempts
            &&& result == outs[invocations - 1]
            &&& forall|j: int|
                0 <= j < invocations - 1 ==> ((#[trigger] outs[j]) matches Result::Err(e)
                    && spec_retried(e))
            &&& (result matches Result::Err(e) ==> !spec_retried(e) || invocations
                == cfg.max_attempts)
            &&& delays@.len() == invocations - 1
            &&& forall|j: int|
                0 <= j < invocations - 1 ==> #[trigger] delays@[j] == spec_retry_delay(
                    *cfg,
                    outs[j]->Err_0,
                    (j + 1) as nat,
                )
        }),
{
    let ghost outs = outcomes@;
    let mut outcomes = outcomes;
    let mut attempt: u32 = 0;
    let mut delays: Vec<u64> = Vec::new();
    loop
        invariant
            cfg.wf(),
            attempt < cfg.max_attempts,
            outcomes@ == outs.skip(attempt as int),
            outs.len() >= cfg.max_attempts,
            spec_retry_count(*cfg, outs, attempt as int) == spec_retry_invocations(*cfg, outs),
            forall|j: int|
                0 <= j < attempt ==> ((#[trigger] outs[j]) matches Result::Err(e)
                    && spec_retried(e)),
            delays@.len() == attempt,
            forall|j: int|
                0 <= j < attempt ==> #[trigger] delays@[j] == spec_retry_delay(
                    *cfg,
                    outs[j]->Err_0,
                    (j + 1) as nat,
                ),
        decreases cfg.max_attempts - attempt,
    {
        let out = outcomes.remove(0);
        let ghost a = attempt as int;
        proof {
            assert(out == outs[a]);
            assert(outcomes@ =~= outs.skip(a + 1));
        }
        attempt = attempt + 1;
        match out {
            Result::Ok(v) => {
                return (Result::Ok(v), attempt as usize, delays);
            },
            Result::Err(e) => {
                let retry = retried_by_policy(&e) && attempt < cfg.max_attempts;
                if !retry {
                    return (Result::Err(e), attempt as usize, delays);
                }
                let d = match e.retry_after() {
                    Option::Some(h) => h,
                    Option::None => backoff_delay(cfg, attempt),
                };
                delays.push(d);
            },
        }
    }
}

/// The retry policy composed with a circuit breaker: the model of one
/// whole guarded run. Each attempt asks the breaker for admission first; a
/// rejection surfaces `CircuitBreakerOpen` — which the policy never
/// retries — without invoking the operation, so a breaker opening
/// mid-sequence short-circuits the remaining attempts. `attempt` counts
/// the invocations already made; the result carries the surfaced outcome,
/// the total invocation count, the breaker state left behind, and the
/// waits imposed between attempts.
pub open spec fn spec_guarded_run<T>(
    st: CircuitState,
    bcfg: CircuitBreakerConfig,
    rcfg: RetryConfig,
    now_ms: u64,
    outs: Seq<Result<T, RpcError>>,
    attempt: int,
) -> (Result<T, RpcError>, int, CircuitState, Seq<u64>)
    decreases rcfg.max_attempts - attempt,
{
    let (allowed, s1) = spec_admit(st, bcfg, now_ms);
    if !allowed {
        (Result::Err(RpcError::CircuitBreakerOpen), attempt, s1, Seq::empty())
    } else {
        match outs[attempt] {
            Result::Ok(v) => (Result::Ok(v), attempt + 1, spec_on_success(s1, bcfg), Seq::empty()),
            Result::Err(e) => {
                let s2 = if e.spec_is_retryable() {
                    spec_on_failure(s1, bcfg, now_ms)
                } else {
                    s1
                };
                if !spec_retried(e) || attempt + 1 >= rcfg.max_attempts {
                    (Result::Err(e), attempt + 1, s2, Seq::empty())
                } else {
                    let rest = spec_guarded_run(s2, bcfg, rcfg, now_ms, outs, attempt + 1);
                    (
                        rest.0,
                        rest.1,
                        rest.2,
                        seq![spec_retry_delay(rcfg, e, (attempt + 1) as nat) as u64] + rest.3,
                    )
                }
            },
        }
    }
}

/// Runs the retry policy through the circuit breaker, one admission check
/// per attempt, over a script of outcomes. Returns the surfaced result,
/// the number of times the operation was actually invoked, and the waits
/// imposed between attempts; the breaker is left exactly as the model
/// says.
#[verifier::loop_isolation(false)]
pub fn with_retry<T>(
    breaker: &mut CircuitBreaker,
    cfg: &RetryConfig,
    now_ms: u64,
    outcomes: Vec<Result<T, RpcError>>,
) -> (r: (Result<T, RpcError>, usize, Vec<u64>))
    requires
        old(breaker).wf(),
        cfg.wf(),
        outcomes.len() >= cfg.max_attempts,
    ensures
        final(breaker).wf(),
        final(breaker).spec_config() == old(breaker).spec_config(),
        final(breaker).spec_endpoint() == old(breaker).spec_endpoint(),
        ({
            let m = spec_guarded_run(
                old(breaker).spec_state(),
                old(breaker).spec_config(),
                *cfg,
                now_ms,
                outcomes@,
                0,
            );
            &&& r.0 == m.0
            &&& r.1 == m.1
            &&& final(breaker).spec_state() == m.2
            &&& r.2@ == m.3
        }),
{
    let ghost outs = outcomes@;
    let ghost st0 = old(breaker).spec_state();
    let ghost bcfg = old(breaker).spec_config();
    let mut outcomes = outcomes;
    let mut attempt: u32 = 0;
    let mut delays: Vec<u64> = Vec::new();
    loop
        invariant
            breaker.wf(),
            breaker.spec_config() == bcfg,
            breaker.spec_endpoint() == old(breaker).spec_endpoint(),
            attempt < cfg.max_attempts,
            outcomes@ == outs.skip(attempt as int),
            delays@.len() == attempt,
            ({
                let m = spec_guarded_run(
                    breaker.spec_state(),
                    bcfg,
                    *cfg,
                    now_ms,
                    outs,
                    attempt as int,
                );
                spec_guarded_run(st0, bcfg, *cfg, now_ms, outs, 0) == (m.0, m.1, m.2, delays@ + m.3)
            }),
        decreases cfg.max_attempts - attempt,
    {
        let ghost s_entry = breaker.spec_state();
        let allowed = breaker.begin_call(now_ms);
        if !allowed {
            proof {
                let m = spec_guarded_run(s_entry, bcfg, *cfg, now_ms, outs, attempt as int);
                assert(m.3 =~= Seq::<u64>::empty());
                assert(delays@ + m.3 =~= delays@);
            }
            return (Result::Err(RpcError::CircuitBreakerOpen), attempt as usize, delays);
        }
        let ghost s1 = breaker.spec_state();
        let out = outcomes.remove(0);
        let ghost a = attempt as int;
        proof {
            assert(out == outs[a]);
            assert(outcomes@ =~= outs.skip(a + 1));
        }
        attempt = attempt + 1;
        match out {
            Result::Ok(v) => {
                breaker.on_success();
                proof {
                    let m = spec_guarded_run(s_entry, bcfg, *cfg, now_ms, outs, a);
                    assert(delays@ + m.3 =~= delays@);
                }
                return (Result::Ok(v), attempt as usize, delays);
            },
            Result::Err(e) => {
                breaker.on_error(&e, now_ms);
                let retry = retried_by_policy(&e) && attempt < cfg.max_attempts;
                if !retry {
                    proof {
                        let m = spec_guarded_run(s_entry, bcfg, *cfg, now_ms, outs, a);
                        assert(delays@ + m.3 =~= delays@);
                    }
                    return (Result::Err(e), attempt as usize, delays);
                }
                let d = match e.retry_after() {
                    Option::Some(h) => h,
                    Option::None => backoff_delay(cfg, attempt),
                };
                proof {
                    let ghost e_spec = outs[a]->Err_0;
                    assert(d == spec_retry_delay(*cfg, e_spec, attempt as nat) as u64);
                    let m_prev = spec_guarded_run(s_entry, bcfg, *cfg, now_ms, outs, a);
                    let m_next = spec_guarded_run(
                        breaker.spec_state(),
                        bcfg,
                        *cfg,
                        now_ms,
                        outs,
                        a + 1,
                    );
                    assert(m_prev == (
                        m_next.0,
                        m_next.1,
                        m_next.2,
                        seq![spec_retry_delay(*cfg, e_spec, (a + 1) as nat) as u64] + m_next.3,
                    ));
                    assert(delays@.push(d) + m_next.3 =~= delays@ + m_prev.3);
                }
                delays.push(d);
            },
        }
    }
}

/// While the circuit is open and its cooldown has not elapsed, a whole
/// guarded retry run invokes the operation zero times and surfaces
/// `CircuitBreakerOpen`, leaving the breaker exactly as it was.
pub proof fn lemma_guarded_open_short_circuits<T>(
    st: CircuitState,
    bcfg: CircuitBreakerConfig,
    rcfg: RetryConfig,
    now_ms: u64,
    outs: Seq<Result<T, RpcError>>,
    attempt: int,
)
    requires
        st matches CircuitState::Open { opened_at_ms } && (now_ms as int) < opened_at_ms
            + bcfg.timeout_duration_ms,
    ensures
        spec_guarded_run(st, bcfg, rcfg, now_ms, outs, attempt) == (
            Result::<T, RpcError>::Err(RpcError::CircuitBreakerOpen),
            attempt,
            st,
            Seq::<u64>::empty(),
        ),
{
}

/// An operation that fails with an error the policy does not retry — a
/// parse fault, a client fault, a protocol fault, or a breaker rejection —
/// is invoked exactly once, whatever the rest of the script holds.
pub proof fn lemma_nonretryable_invoked_once<T>(cfg: RetryConfig, outs: Seq<Result<T, RpcError>>)
    requires
        cfg.wf(),
        outs.len() >= 1,
        outs[0] matches Result::Err(e) && !spec_retried(e),
    ensures
        spec_retry_invocations(cfg, outs) == 1,
{
}

/// An operation that fails `k` times with retried errors and then succeeds,
/// within the invocation budget, is invoked exactly `k + 1` times and its
/// success is surfaced.
pub proof fn lemma_retry_then_succeed<T>(cfg: RetryConfig, outs: Seq<Result<T, RpcError>>, k: int)
    requires
        cfg.wf(),
        0 <= k < cfg.max_attempts,
        k < outs.len(),
        forall|j: int|
            0 <= j < k ==> ((#[trigger] outs[j]) matches Result::Err(e) && spec_retried(e)),
        outs[k] matches Result::Ok(_),
    ensures
        spec_retry_invocations(cfg, outs) == k + 1,
{
    lemma_retry_count_reaches(cfg, outs, k, 0);
}

proof fn lemma_retry_count_reaches<T>(cfg: RetryConfig, outs: Seq<Result<T, RpcError>>, k: int, i: int)
    requires
        cfg.wf(),
        0 <= i <= k < cfg.max_attempts,
        k < outs.len(),
        forall|j: int|
            0 <= j < k ==> ((#[trigger] outs[j]) matches Result::Err(e) && spec_retried(e)),
        outs[k] matches Result::Ok(_),
    ensures
        spec_retry_count(cfg, outs, i) == k + 1,
    decreases k - i,
{
    if i < k {
        lemma_retry_count_reaches(cfg, outs, k, i + 1);
    }
}

/// The backoff delays form a non-decreasing sequence, capped at
/// `max_delay_ms`: a later attempt never waits less than an earlier one,
/// and none waits longer than the clamp.
pub proof fn lemma_backoff_nondecreasing_capped(cfg: RetryConfig, a: nat, b: nat)
    requires
        cfg.wf(),
        1 <= a <= b,
    ensures
        spec_backoff(cfg, a) <= spec_backoff(cfg, b),
        spec_backoff(cfg, b) <= cfg.max_delay_ms,
{
    if a < b {
        assert(pow2((a - 1) as nat) <= pow2((b - 1) as nat)) by {
            if a - 1 < b - 1 {
                lemma_pow2_strictly_increases((a - 1) as nat, (b - 1) as nat);
            }
        }
        assert(cfg.base_delay_ms * pow2((a - 1) as nat) <= cfg.base_delay_ms * pow2(
            (b - 1) as nat,
        )) by {
            vstd::arithmetic::mul::lemma_mul_inequality(
                pow2((a - 1) as nat) as int,
                pow2((b - 1) as nat) as int,
                cfg.base_delay_ms as int,
            );
        }
    }
}

} // verus!
