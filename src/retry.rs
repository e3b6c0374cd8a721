//! Bounded retry with exponential backoff, as a pure policy: the caller
//! performs each attempt and asks the policy what to do next.
use vstd::prelude::*;

verus! {

pub struct RetryPolicy {
    /// Attempts in all, the first one included.
    pub max_attempts: u32,
    pub base_delay_ms: u64,
    pub max_delay_ms: u64,
}

#[derive(Clone, Copy, Debug, PartialEq, Eq, Structural)]
pub enum AttemptOutcome {
    Success,
    /// Network failure or timeout: worth another attempt.
    Transient,
    /// The provider answered with a structured refusal: not retried.
    Rejected,
}

#[derive(Clone, Copy, Debug, PartialEq, Eq, Structural)]
pub enum RetryDecision {
    Done,
    RetryAfter { delay_ms: u64 },
    GiveUp,
}

pub open spec fn pow2(n: nat) -> nat
    decreases n,
{
    if n == 0 {
        1
    } else {
        2 * pow2((n - 1) as nat)
    }
}

/// Delay before retry number `attempt` (0 for the first retry):
/// `base * 2^attempt`, capped at the maximum.
pub open spec fn backoff_spec(p: RetryPolicy, attempt: nat) -> int {
    let d = p.base_delay_ms * pow2(attempt);
    if d > p.max_delay_ms {
        p.max_delay_ms as int
    } else {
        d as int
    }
}

proof fn lemma_pow2_mono(a: nat, b: nat)
    requires
        a <= b,
    ensures
        pow2(a) <= pow2(b),
    decreases b,
{
    if a < b {
        lemma_pow2_mono(a, (b - 1) as nat);
    }
}

pub fn backoff_delay(p: &RetryPolicy, attempt: u32) -> (r: u64)
    ensures
        r as int == backoff_spec(*p, attempt as nat),
{
    let mut d: u64 = p.base_delay_ms;
    let mut k: u32 = 0;
    assert(pow2(0) == 1);
    assert(p.base_delay_ms * pow2(0) == p.base_delay_ms);
    if d > p.max_delay_ms {
        proof {
            lemma_pow2_mono(0, attempt as nat);
            assert(p.base_delay_ms * pow2(attempt as nat) >= p.base_delay_ms * pow2(0)) by (nonlinear_arith)
                requires pow2(attempt as nat) >= pow2(0);
        }
        return p.max_delay_ms;
    }
    while k < attempt
        invariant
            0 <= k <= attempt,
            d as int == p.base_delay_ms * pow2(k as nat),
            d <= p.max_delay_ms,
        decreases attempt - k,
    {
        if d > p.max_delay_ms / 2 {
            proof {
                lemma_pow2_mono((k + 1) as nat, attempt as nat);
                assert(p.base_delay_ms * pow2(attempt as nat) >= p.base_delay_ms * pow2((k + 1) as nat)) by (nonlinear_arith)
                    requires pow2(attempt as nat) >= pow2((k + 1) as nat);
                assert(p.base_delay_ms * pow2((k + 1) as nat) == 2 * (p.base_delay_ms * pow2(k as nat))) by (nonlinear_arith);
            }
            return p.max_delay_ms;
        }
        d = d * 2;
        proof {
            assert(p.base_delay_ms * pow2((k + 1) as nat) == 2 * (p.base_delay_ms * pow2(k as nat))) by (nonlinear_arith);
        }
        k = k + 1;
    }
    d
}

/// What follows attempt number `attempt` (0 for the first) that ended with
/// `outcome`.
pub open spec fn decide_spec(p: RetryPolicy, attempt: u32, outcome: AttemptOutcome) -> RetryDecision {
    match outcome {
        AttemptOutcome::Success => RetryDecision::Done,
        AttemptOutcome::Rejected => RetryDecision::GiveUp,
        AttemptOutcome::Transient => if attempt as int + 1 >= p.max_attempts as int {
            RetryDecision::GiveUp
        } else {
            RetryDecision::RetryAfter { delay_ms: backoff_spec(p, attempt as nat) as u64 }
        },
    }
}

pub fn decide(p: &RetryPolicy, attempt: u32, outcome: AttemptOutcome) -> (r: RetryDecision)
    ensures
        r == decide_spec(*p, attempt, outcome),
{
    match outcome {
        AttemptOutcome::Success => RetryDecision::Done,
        AttemptOutcome::Rejected => RetryDecision::GiveUp,
        AttemptOutcome::Transient => if attempt >= p.max_attempts || p.max_attempts - attempt <= 1 {
            RetryDecision::GiveUp
        } else {
            RetryDecision::RetryAfter { delay_ms: backoff_delay(p, attempt) }
        },
    }
}

/// Attempts stop at the bound: no retry follows the last permitted attempt.
pub proof fn lemma_retries_bounded(p: RetryPolicy, attempt: u32, outcome: AttemptOutcome)
    requires
        attempt as int + 1 >= p.max_attempts as int,
    ensures
        !(decide_spec(p, attempt, outcome) is RetryAfter),
{
}

} // verus!
