//! The fetcher's retry policy: a fixed number of retries with
//! exponential backoff and no jitter. The decision for each attempt is a
//! pure function of the policy, the attempt index and the attempt's
//! outcome; the loop that performs requests and sleeps runs outside the
//! library and asks this module what to do next.

use vstd::prelude::*;

verus! {

/// The fetcher's configuration: how many retries follow a failed first
/// attempt, and the delay before the first retry.
#[derive(Clone, Copy)]
pub struct RetryPolicy {
    pub max_retries: u32,
    pub base_delay_ms: u64,
}

pub open spec fn spec_pow2(n: nat) -> nat
    decreases n,
{
    if n == 0 {
        1
    } else {
        2 * spec_pow2((n - 1) as nat)
    }
}

/// A policy is usable when its largest backoff delay fits the delay type.
pub open spec fn policy_wf(p: RetryPolicy) -> bool {
    p.base_delay_ms * spec_pow2(p.max_retries as nat) <= u64::MAX
}

/// The delay before the retry that follows attempt `attempt`.
pub open spec fn spec_backoff(p: RetryPolicy, attempt: nat) -> int {
    p.base_delay_ms * spec_pow2(attempt)
}

proof fn lemma_pow2_le(i: nat, j: nat)
    requires
        i <= j,
    ensures
        spec_pow2(i) <= spec_pow2(j),
    decreases j,
{
    if i < j {
        lemma_pow2_le(i, (j - 1) as nat);
    }
}

proof fn lemma_pow2_pos(n: nat)
    ensures
        spec_pow2(n) >= 1,
    decreases n,
{
    if n > 0 {
        lemma_pow2_pos((n - 1) as nat);
    }
}

proof fn lemma_pow2_lt(i: nat, j: nat)
    requires
        i < j,
    ensures
        spec_pow2(i) < spec_pow2(j),
    decreases j,
{
    lemma_pow2_le(i, (j - 1) as nat);
    lemma_pow2_pos((j - 1) as nat);
}

proof fn lemma_backoff_le_max(p: RetryPolicy, attempt: nat)
    requires
        policy_wf(p),
        attempt <= p.max_retries,
    ensures
        0 <= spec_backoff(p, attempt) <= u64::MAX,
{
    lemma_pow2_le(attempt, p.max_retries as nat);
    assert(p.base_delay_ms * spec_pow2(attempt) <= p.base_delay_ms * spec_pow2(
        p.max_retries as nat,
    )) by (nonlinear_arith)
        requires
            spec_pow2(attempt) <= spec_pow2(p.max_retries as nat),
            p.base_delay_ms >= 0,
    ;
}

/// Computes the backoff delay `base_delay_ms * 2^attempt`.
#[verifier::loop_isolation(false)]
pub fn backoff_delay_ms(p: &RetryPolicy, attempt: u32) -> (d: u64)
    requires
        policy_wf(*p),
        attempt <= p.max_retries,
    ensures
        d == spec_backoff(*p, attempt as nat),
{
    let mut d: u64 = p.base_delay_ms;
    let mut i: u32 = 0;
    proof {
        assert(spec_pow2(0) == 1);
        assert(p.base_delay_ms * spec_pow2(0) == p.base_delay_ms) by (nonlinear_arith)
            requires
                spec_pow2(0) == 1,
        ;
    }
    while i < attempt
        invariant
            i <= attempt,
            d == spec_backoff(*p, i as nat),
        decreases attempt - i,
    {
        proof {
            lemma_backoff_le_max(*p, (i + 1) as nat);
            assert(p.base_delay_ms * spec_pow2((i + 1) as nat) == d * 2) by (nonlinear_arith)
                requires
                    d == p.base_delay_ms * spec_pow2(i as nat),
                    spec_pow2((i + 1) as nat) == 2 * spec_pow2(i as nat),
            ;
        }
        d = d * 2;
        i = i + 1;
    }
    d
}

/// Checks a policy's configuration: the policy is handed back only when
/// every backoff delay it can produce fits the delay type.
pub fn make_policy(max_retries: u32, base_delay_ms: u64) -> (r: Option<RetryPolicy>)
    ensures
        r matches Some(p) ==> p.max_retries == max_retries && p.base_delay_ms == base_delay_ms
            && policy_wf(p),
        r is None ==> !policy_wf(
            RetryPolicy { max_retries, base_delay_ms },
        ),
{
    let mut d: u64 = base_delay_ms;
    let mut i: u32 = 0;
    proof {
        assert(spec_pow2(0) == 1);
        assert(base_delay_ms * spec_pow2(0) == base_delay_ms) by (nonlinear_arith)
            requires
                spec_pow2(0) == 1,
        ;
    }
    while i < max_retries
        invariant
            i <= max_retries,
            d == base_delay_ms * spec_pow2(i as nat),
        decreases max_retries - i,
    {
        let next = match d.checked_mul(2) {
            Some(n) => n,
            None => {
                proof {
                    let p = RetryPolicy { max_retries, base_delay_ms };
                    lemma_pow2_le((i + 1) as nat, max_retries as nat);
                    assert(base_delay_ms * spec_pow2((i + 1) as nat) <= base_delay_ms * spec_pow2(
                        max_retries as nat,
                    )) by (nonlinear_arith)
                        requires
                            spec_pow2((i + 1) as nat) <= spec_pow2(max_retries as nat),
                            base_delay_ms >= 0,
                    ;
                    assert(base_delay_ms * spec_pow2((i + 1) as nat) == d * 2) by (nonlinear_arith)
                        requires
                            d == base_delay_ms * spec_pow2(i as nat),
                            spec_pow2((i + 1) as nat) == 2 * spec_pow2(i as nat),
                    ;
                }
                return None;
            },
        };
        proof {
            assert(base_delay_ms * spec_pow2((i + 1) as nat) == d * 2) by (nonlinear_arith)
                requires
                    d == base_delay_ms * spec_pow2(i as nat),
                    spec_pow2((i + 1) as nat) == 2 * spec_pow2(i as nat),
            ;
        }
        d = next;
        i = i + 1;
    }
    Some(RetryPolicy { max_retries, base_delay_ms })
}

/// What one attempt at a URL came to: a success response, a response
/// with a non-success status, or a transport-level error. The two
/// failure shapes are retried alike.
pub enum AttemptOutcome {
    Delivered,
    HttpFailure,
    TransportError,
}

/// What to do after an attempt: accept the response, retry after a
/// delay, or give up with retry exhaustion.
pub enum RetryDecision {
    Accept,
    RetryAfter(u64),
    GiveUp,
}

/// The fetcher's decision after attempt `attempt` (counted from zero):
/// success is accepted; a failure is retried after `base * 2^attempt`
/// milliseconds while attempts remain, and exhausts the retries on the
/// last allowed attempt.
pub open spec fn spec_retry_step(p: RetryPolicy, attempt: u32, o: AttemptOutcome) -> RetryDecision {
    if o is Delivered {
        RetryDecision::Accept
    } else if attempt < p.max_retries {
        RetryDecision::RetryAfter(spec_backoff(p, attempt as nat) as u64)
    } else {
        RetryDecision::GiveUp
    }
}

/// Decides what follows one attempt.
pub fn retry_step(p: &RetryPolicy, attempt: u32, outcome: &AttemptOutcome) -> (d: RetryDecision)
    requires
        policy_wf(*p),
        attempt <= p.max_retries,
    ensures
        d == spec_retry_step(*p, attempt, *outcome),
{
    match outcome {
        AttemptOutcome::Delivered => RetryDecision::Accept,
        _ => {
            if attempt < p.max_retries {
                proof {
                    lemma_backoff_le_max(*p, attempt as nat);
                }
                RetryDecision::RetryAfter(backoff_delay_ms(p, attempt))
            } else {
                RetryDecision::GiveUp
            }
        },
    }
}

/// The first attempt within the allowed budget that is a success, if
/// any; attempts beyond the end of the outcome sequence count as
/// transport failures.
pub open spec fn spec_first_delivery(outs: Seq<AttemptOutcome>, k: nat, max: nat) -> Option<nat>
    decreases max + 1 - k,
{
    if k > max {
        None
    } else if k < outs.len() && outs[k as int] is Delivered {
        Some(k)
    } else {
        spec_first_delivery(outs, k + 1, max)
    }
}

/// Replays the retry loop on a given sequence of attempt outcomes:
/// which attempt was accepted (if any) and the delays slept between
/// attempts, in order.
#[verifier::loop_isolation(false)]
pub fn fetch_trace(p: &RetryPolicy, outcomes: &Vec<AttemptOutcome>) -> (r: (
    Option<u32>,
    Vec<u64>,
))
    requires
        policy_wf(*p),
    ensures
        match spec_first_delivery(outcomes@, 0, p.max_retries as nat) {
            Some(k) => r.0 == Some(k as u32) && r.1@.len() == k,
            None => r.0 is None && r.1@.len() == p.max_retries,
        },
        forall|i: int| 0 <= i < r.1@.len() ==> r.1@[i] == spec_backoff(*p, i as nat),
{
    let mut delays: Vec<u64> = Vec::new();
    let mut attempt: u32 = 0;
    loop
        invariant
            attempt <= p.max_retries,
            delays@.len() == attempt,
            forall|i: int| 0 <= i < attempt ==> delays@[i] == spec_backoff(*p, i as nat),
            spec_first_delivery(outcomes@, 0, p.max_retries as nat) == spec_first_delivery(
                outcomes@,
                attempt as nat,
                p.max_retries as nat,
            ),
        decreases p.max_retries - attempt,
    {
        let delivered = (attempt as usize) < outcomes.len() && matches!(
            outcomes[attempt as usize],
            AttemptOutcome::Delivered
        );
        if delivered {
            proof {
                assert(spec_first_delivery(outcomes@, attempt as nat, p.max_retries as nat)
                    == Some(attempt as nat));
            }
            return (Some(attempt), delays);
        }
        if attempt == p.max_retries {
            proof {
                assert(spec_first_delivery(outcomes@, (attempt + 1) as nat, p.max_retries as nat)
                    is None);
                assert(spec_first_delivery(outcomes@, attempt as nat, p.max_retries as nat)
                    is None);
            }
            return (None, delays);
        }
        delays.push(backoff_delay_ms(p, attempt));
        proof {
            assert(spec_first_delivery(outcomes@, attempt as nat, p.max_retries as nat)
                == spec_first_delivery(outcomes@, (attempt + 1) as nat, p.max_retries as nat));
        }
        attempt = attempt + 1;
    }
}

/// A page that fails on every attempt is retried exactly the configured
/// number of times, with strictly increasing delays between attempts:
/// the delay after a later attempt strictly exceeds the delay after an
/// earlier one, following `base * 2^attempt`.
pub proof fn lemma_retry_exhaustion(p: RetryPolicy, outs: Seq<AttemptOutcome>, i: nat, j: nat)
    requires
        policy_wf(p),
        p.base_delay_ms >= 1,
        forall|k: int| 0 <= k < outs.len() ==> !(outs[k] is Delivered),
        i < j <= p.max_retries,
    ensures
        spec_first_delivery(outs, 0, p.max_retries as nat) is None,
        forall|k: u32| k < p.max_retries ==> spec_retry_step(p, k, AttemptOutcome::TransportError)
            == RetryDecision::RetryAfter(spec_backoff(p, k as nat) as u64),
        spec_retry_step(p, p.max_retries, AttemptOutcome::TransportError)
            == RetryDecision::GiveUp,
        spec_backoff(p, i) < spec_backoff(p, j),
{
    lemma_no_delivery(outs, 0, p.max_retries as nat);
    lemma_pow2_lt(i, j);
    assert(p.base_delay_ms * spec_pow2(i) < p.base_delay_ms * spec_pow2(j)) by (nonlinear_arith)
        requires
            spec_pow2(i) < spec_pow2(j),
            p.base_delay_ms >= 1,
    ;
    assert forall|k: u32| k < p.max_retries implies spec_retry_step(
        p,
        k,
        AttemptOutcome::TransportError,
    ) == RetryDecision::RetryAfter(spec_backoff(p, k as nat) as u64) by {
        lemma_backoff_le_max(p, k as nat);
    }
}

proof fn lemma_no_delivery(outs: Seq<AttemptOutcome>, k: nat, max: nat)
    requires
        forall|t: int| 0 <= t < outs.len() ==> !(outs[t] is Delivered),
    ensures
        spec_first_delivery(outs, k, max) is None,
    decreases max + 1 - k,
{
    if k <= max {
        lemma_no_delivery(outs, k + 1, max);
    }
}

} // verus!
