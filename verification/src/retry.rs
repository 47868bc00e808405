//! The retry/backoff policy shared by every request of the orchestrator:
//! a transport-level failure is retried up to a fixed number of attempts
//! with a doubling delay, while a response with a non-success status fails
//! immediately and is never retried. That asymmetry is deliberate policy.
//!
//! The decision logic is a pure step function; the driver performing the
//! actual requests feeds it one outcome per attempt and obeys the decision.

use vstd::prelude::*;

use crate::errors::ReplayError;

verus! {

/// The outcome of one request attempt, as the transport reports it: either
/// a response with its HTTP status code, or a transport-level failure
/// (connection error or timeout) with no response at all.
#[derive(Debug, Clone, Copy, PartialEq, Eq, Structural)]
pub enum RequestOutcome {
    Response(u16),
    TransportFailure,
}

/// What the policy tells the driver to do after one attempt.
#[derive(Debug, Clone, Copy, PartialEq, Eq, Structural)]
pub enum RetryDecision {
    /// The response is a success: hand it out.
    Succeed,
    /// A non-success status: fail now with that status, never retry.
    FailStatus(u16),
    /// A transport failure with attempts left: sleep this many seconds,
    /// then try again.
    RetryAfter(u64),
    /// A transport failure on the last allowed attempt: report the total
    /// attempt count.
    GiveUp(u32),
}

/// The result of a whole retry loop.
#[derive(Debug, Clone, Copy, PartialEq, Eq, Structural)]
pub enum RetryResult {
    Succeeded { attempts: u32 },
    FailedStatus { attempts: u32, status: u16 },
    Exhausted { attempts: u32 },
}

/// Attempt count, base delay and growth of the backoff, as one value
/// shared by every request site.
#[derive(Debug, Clone, Copy, PartialEq, Eq, Structural)]
pub struct RetryPolicy {
    pub max_attempts: u32,
    pub base_delay_secs: u64,
}

impl Default for RetryPolicy {
    /// Five attempts in all, backoff starting at two seconds and doubling.
    fn default() -> (p: Self)
        ensures
            p.max_attempts == 5,
            p.base_delay_secs == 2,
    {
        RetryPolicy { max_attempts: 5, base_delay_secs: 2 }
    }
}

/// Whether an HTTP status code counts as success (the 2xx range).
pub open spec fn success_status(s: u16) -> bool {
    200 <= s < 300
}

/// Two to the given power.
pub open spec fn pow2s(k: nat) -> int
    decreases k,
{
    if k == 0 {
        1
    } else {
        2 * pow2s((k - 1) as nat)
    }
}

/// The backoff before retrying after the given (1-based) failed attempt:
/// the base delay doubled once per earlier failure.
pub open spec fn backoff_delay(base: u64, attempt: u32) -> int
    recommends
        attempt >= 1,
{
    base * pow2s((attempt - 1) as nat)
}

/// The status code inside a response outcome (unused for failures).
pub open spec fn outcome_status(o: RequestOutcome) -> u16 {
    match o {
        RequestOutcome::Response(s) => s,
        RequestOutcome::TransportFailure => 0,
    }
}

/// One decision of the retry policy, after the given 1-based attempt ended
/// in the given outcome. A success response succeeds; a non-success
/// response fails immediately; a transport failure retries with the
/// doubling backoff (saturated at the integer limit) until the attempts
/// are exhausted.
pub fn retry_step(policy: &RetryPolicy, attempt: u32, outcome: RequestOutcome) -> (d: RetryDecision)
    requires
        1 <= attempt <= policy.max_attempts,
    ensures
        outcome matches RequestOutcome::Response(s) ==> if success_status(s) {
            d == RetryDecision::Succeed
        } else {
            d == RetryDecision::FailStatus(s)
        },
        (outcome is TransportFailure && attempt < policy.max_attempts) ==> (d
            matches RetryDecision::RetryAfter(delay) && if backoff_delay(
            policy.base_delay_secs,
            attempt,
        ) <= u64::MAX {
            delay == backoff_delay(policy.base_delay_secs, attempt)
        } else {
            delay == u64::MAX
        }),
        (outcome is TransportFailure && attempt >= policy.max_attempts) ==> d
            == RetryDecision::GiveUp(attempt),
{
    match outcome {
        RequestOutcome::Response(s) => {
            if 200 <= s && s < 300 {
                RetryDecision::Succeed
            } else {
                RetryDecision::FailStatus(s)
            }
        },
        RequestOutcome::TransportFailure => {
            if attempt >= policy.max_attempts {
                RetryDecision::GiveUp(attempt)
            } else {
                let mut delay: u64 = policy.base_delay_secs;
                let mut k: u32 = 1;
                while k < attempt
                    invariant
                        1 <= k <= attempt,
                        backoff_delay(policy.base_delay_secs, k) <= u64::MAX ==> delay
                            == backoff_delay(policy.base_delay_secs, k),
                        backoff_delay(policy.base_delay_secs, k) > u64::MAX ==> delay == u64::MAX,
                    decreases attempt - k,
                {
                    proof {
                        assert(pow2s(k as nat) == 2 * pow2s((k - 1) as nat));
                        assert(policy.base_delay_secs * pow2s(k as nat) == 2 * (
                        policy.base_delay_secs * pow2s((k - 1) as nat))) by (nonlinear_arith)
                            requires
                                pow2s(k as nat) == 2 * pow2s((k - 1) as nat),
                        ;
                        assert(pow2s((k - 1) as nat) >= 1) by {
                            lemma_pow2s_pos((k - 1) as nat);
                        }
                        assert(policy.base_delay_secs * pow2s((k - 1) as nat)
                            >= policy.base_delay_secs * 1) by (nonlinear_arith)
                            requires
                                pow2s((k - 1) as nat) >= 1,
                        ;
                    }
                    if delay > u64::MAX / 2 {
                        delay = u64::MAX;
                    } else {
                        delay = delay * 2;
                    }
                    k = k + 1;
                }
                RetryDecision::RetryAfter(delay)
            }
        },
    }
}

proof fn lemma_pow2s_pos(k: nat)
    ensures
        pow2s(k) >= 1,
    decreases k,
{
    if k > 0 {
        lemma_pow2s_pos((k - 1) as nat);
    }
}

/// The index of the first attempt that gets any response at all (the
/// sequence length when every attempt fails at the transport level).
pub open spec fn first_response(outs: Seq<RequestOutcome>) -> int
    decreases outs.len(),
{
    if outs.len() == 0 {
        0
    } else if outs[0] matches RequestOutcome::Response(_) {
        0
    } else {
        1 + first_response(outs.drop_first())
    }
}

proof fn lemma_first_response_bounds(outs: Seq<RequestOutcome>)
    ensures
        0 <= first_response(outs) <= outs.len(),
        forall|j: int| 0 <= j < first_response(outs) ==> outs[j] is TransportFailure,
        first_response(outs) < outs.len() ==> outs[first_response(outs)]
            matches RequestOutcome::Response(_),
    decreases outs.len(),
{
    if outs.len() > 0 && !(outs[0] matches RequestOutcome::Response(_)) {
        lemma_first_response_bounds(outs.drop_first());
        assert forall|j: int| 0 <= j < first_response(outs) implies outs[j]
            is TransportFailure by {
            if j > 0 {
                assert(outs.drop_first()[j - 1] == outs[j]);
            }
        }
        if first_response(outs) < outs.len() {
            assert(outs.drop_first()[first_response(outs) - 1] == outs[first_response(outs)]);
        }
    }
}

proof fn lemma_first_response_is(outs: Seq<RequestOutcome>, k: int)
    requires
        0 <= k <= outs.len(),
        forall|j: int| 0 <= j < k ==> outs[j] is TransportFailure,
        k < outs.len() ==> outs[k] matches RequestOutcome::Response(_),
    ensures
        first_response(outs) == k,
    decreases outs.len(),
{
    if outs.len() > 0 {
        if k == 0 {
        } else {
            assert(outs[0] is TransportFailure);
            assert forall|j: int| 0 <= j < k - 1 implies outs.drop_first()[j]
                is TransportFailure by {
                assert(outs.drop_first()[j] == outs[j + 1]);
            }
            if k - 1 < outs.drop_first().len() {
                assert(outs.drop_first()[k - 1] == outs[k]);
            }
            lemma_first_response_is(outs.drop_first(), k - 1);
        }
    }
}

/// The outcome of the whole retry loop over a recorded sequence of attempt
/// outcomes (one per attempt the policy may make, so at least
/// `max_attempts` of them), together with the backoff delays slept.
///
/// If the first `k < max_attempts` attempts fail at the transport level
/// and attempt `k + 1` gets a response, the loop ends at that response —
/// success for a 2xx status after exactly `k + 1` attempts, an immediate
/// status failure otherwise — after sleeping `k` doubling delays. If all
/// `max_attempts` attempts fail at the transport level, the loop reports
/// exhaustion with exactly `max_attempts` attempts, the last one unslept.
pub struct RetrySim {
    pub result: RetryResult,
    pub delays: Vec<u64>,
}

pub fn run_retry(policy: &RetryPolicy, outcomes: &Vec<RequestOutcome>) -> (r: RetrySim)
    requires
        policy.max_attempts >= 1,
        outcomes@.len() >= policy.max_attempts,
    ensures
        ({
            let k = first_response(outcomes@.take(policy.max_attempts as int));
            &&& (k < policy.max_attempts ==> {
                let s = outcome_status(outcomes@[k]);
                &&& (success_status(s) ==> r.result == RetryResult::Succeeded {
                    attempts: (k + 1) as u32,
                })
                &&& (!success_status(s) ==> r.result == RetryResult::FailedStatus {
                    attempts: (k + 1) as u32,
                    status: s,
                })
                &&& r.delays@.len() == k
            })
            &&& (k >= policy.max_attempts ==> {
                &&& r.result == RetryResult::Exhausted { attempts: policy.max_attempts }
                &&& r.delays@.len() == policy.max_attempts - 1
            })
            &&& forall|i: int|
                0 <= i < r.delays@.len() ==> #[trigger] r.delays@[i] == if backoff_delay(
                    policy.base_delay_secs,
                    (i + 1) as u32,
                ) <= u64::MAX {
                    backoff_delay(policy.base_delay_secs, (i + 1) as u32)
                } else {
                    u64::MAX as int
                }
        }),
{
    let ghost window = outcomes@.take(policy.max_attempts as int);
    let mut delays: Vec<u64> = Vec::new();
    let mut attempt: u32 = 1;
    loop
        invariant
            1 <= attempt <= policy.max_attempts,
            outcomes@.len() >= policy.max_attempts,
            window == outcomes@.take(policy.max_attempts as int),
            delays@.len() == attempt - 1,
            forall|j: int| 0 <= j < attempt - 1 ==> outcomes@[j] is TransportFailure,
            forall|i: int|
                0 <= i < delays@.len() ==> #[trigger] delays@[i] == if backoff_delay(
                    policy.base_delay_secs,
                    (i + 1) as u32,
                ) <= u64::MAX {
                    backoff_delay(policy.base_delay_secs, (i + 1) as u32)
                } else {
                    u64::MAX as int
                },
        decreases policy.max_attempts - attempt,
    {
        let outcome: RequestOutcome = outcomes[(attempt - 1) as usize];
        let d = retry_step(policy, attempt, outcome);
        proof {
            assert(window[attempt - 1] == outcomes@[attempt - 1]);
            assert(forall|j: int| 0 <= j < attempt - 1 ==> window[j] == outcomes@[j]);
        }
        match d {
            RetryDecision::Succeed => {
                proof {
                    lemma_first_response_is(window, attempt - 1);
                }
                return RetrySim { result: RetryResult::Succeeded { attempts: attempt }, delays };
            },
            RetryDecision::FailStatus(s) => {
                proof {
                    lemma_first_response_is(window, attempt - 1);
                }
                return RetrySim {
                    result: RetryResult::FailedStatus { attempts: attempt, status: s },
                    delays,
                };
            },
            RetryDecision::GiveUp(a) => {
                proof {
                    lemma_first_response_bounds(window);
                    assert(forall|j: int|
                        0 <= j < window.len() ==> window[j] is TransportFailure);
                }
                return RetrySim { result: RetryResult::Exhausted { attempts: a }, delays };
            },
            RetryDecision::RetryAfter(del) => {
                delays.push(del);
                attempt = attempt + 1;
            },
        }
    }
}

/// The error value of a finished retry loop, if it failed: a non-success
/// status becomes a server error carrying the URL and status (never
/// retried); exhausted transport attempts become a network error carrying
/// the URL and the attempt count.
pub fn retry_result_error(url: String, r: &RetryResult) -> (e: Option<ReplayError>)
    ensures
        match *r {
            RetryResult::Succeeded { .. } => e is None,
            RetryResult::FailedStatus { attempts: _, status } => e == Some(
                ReplayError::ServerError { url, status },
            ),
            RetryResult::Exhausted { attempts } => e == Some(
                ReplayError::NetworkError { url, attempts },
            ),
        },
{
    match r {
        RetryResult::Succeeded { .. } => None,
        RetryResult::FailedStatus { attempts: _, status } => Some(
            ReplayError::ServerError { url, status: *status },
        ),
        RetryResult::Exhausted { attempts } => Some(
            ReplayError::NetworkError { url, attempts: *attempts },
        ),
    }
}

} // verus!
