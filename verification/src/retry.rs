//! The per-request retry policy: a budget of attempts, exponential backoff
//! for transient failures, and exact honouring of an upstream wait hint.
//!
//! The policy is a small state machine from attempt outcome to decision, so
//! it can be driven with a simulated clock; the caller performs the actual
//! request and sleep.

use vstd::prelude::*;

use crate::digits::{dec_digits_ok, dec_val, parse_u64, strip_plus};

verus! {

/// Total attempts allowed per request.
pub const ATTEMPT_BUDGET: u8 = 4;

/// First backoff delay; it doubles after each backoff sleep.
pub const INITIAL_BACKOFF_MS: u64 = 400;

/// Failures surfaced by the upstream client.
#[derive(Debug, Clone)]
pub enum DeadlockError {
    /// A non-success status other than rate limiting.
    Http { status: u16, message: String },
    /// The attempt budget was exhausted while rate limited.
    RateLimited(String),
    /// A network-level or decoding failure.
    Other(String),
}

/// What one request attempt came back with.
pub enum AttemptOutcome {
    Success,
    RateLimited { wait_hint_ms: Option<u64>, message: String },
    NetworkError { message: String },
    HttpError { status: u16, message: String },
}

/// What the caller must do next.
pub enum RetryDecision {
    /// Sleep this long, then attempt again.
    Wait { delay_ms: u64 },
    /// The attempt succeeded; use its payload.
    Succeed,
    /// Give up with this error.
    Fail(DeadlockError),
}

/// The retry loop's state across attempts of one request.
pub struct RetryState {
    pub attempts_done: u8,
    pub backoff_ms: u64,
}

pub open spec fn pow2(n: nat) -> nat
    decreases n,
{
    if n == 0 {
        1
    } else {
        2 * pow2((n - 1) as nat)
    }
}

impl RetryState {
    /// Attempts never pass the budget, and the backoff delay has doubled at
    /// most once per completed attempt.
    pub open spec fn wf(self) -> bool {
        self.attempts_done <= ATTEMPT_BUDGET && INITIAL_BACKOFF_MS <= self.backoff_ms
            && self.backoff_ms <= INITIAL_BACKOFF_MS * pow2(self.attempts_done as nat)
    }

    /// Fresh state for one request.
    pub fn new() -> (r: RetryState)
        ensures
            r.attempts_done == 0,
            r.backoff_ms == INITIAL_BACKOFF_MS,
            r.wf(),
    {
        RetryState { attempts_done: 0, backoff_ms: INITIAL_BACKOFF_MS }
    }
}

/// Advance the retry machine by one attempt's outcome.
///
/// A success ends the loop at once; any other non-success status is fatal
/// at once; rate limiting with a wait hint sleeps exactly the hint without
/// consuming the backoff schedule; rate limiting without a hint and network
/// failures sleep the backoff delay, which then doubles. When the budget is
/// spent, the last observed error is returned.
pub fn retry_step(state: &mut RetryState, outcome: AttemptOutcome) -> (r: RetryDecision)
    requires
        old(state).wf(),
        old(state).attempts_done < ATTEMPT_BUDGET,
    ensures
        final(state).wf(),
        final(state).attempts_done == old(state).attempts_done + 1,
        outcome is Success ==> r is Succeed && final(state).backoff_ms == old(state).backoff_ms,
        outcome matches AttemptOutcome::HttpError { status, message } ==> (r matches
            RetryDecision::Fail(e) && e matches DeadlockError::Http { status: s2, message: m2 }
            && s2 == status && m2@ == message@),
        outcome matches AttemptOutcome::RateLimited { wait_hint_ms, message } ==> {
            &&& old(state).attempts_done + 1 < ATTEMPT_BUDGET ==> {
                &&& wait_hint_ms matches Some(w) ==> (r matches RetryDecision::Wait { delay_ms }
                    && delay_ms == w && final(state).backoff_ms == old(state).backoff_ms)
                &&& wait_hint_ms is None ==> (r matches RetryDecision::Wait { delay_ms } && delay_ms
                    == old(state).backoff_ms && final(state).backoff_ms == 2 * old(
                    state,
                ).backoff_ms)
            }
            &&& old(state).attempts_done + 1 == ATTEMPT_BUDGET ==> (r matches RetryDecision::Fail(e)
                && e matches DeadlockError::RateLimited(m2) && m2@ == message@)
        },
        outcome matches AttemptOutcome::NetworkError { message } ==> {
            &&& old(state).attempts_done + 1 < ATTEMPT_BUDGET ==> (r matches RetryDecision::Wait {
                delay_ms,
            } && delay_ms == old(state).backoff_ms && final(state).backoff_ms == 2 * old(
                state,
            ).backoff_ms)
            &&& old(state).attempts_done + 1 == ATTEMPT_BUDGET ==> (r matches RetryDecision::Fail(e)
                && e matches DeadlockError::Other(m2) && m2@ == message@)
        },
{
    proof {
        assert(pow2(0) == 1);
        assert(pow2(1) == 2);
        assert(pow2(2) == 4);
        assert(pow2(3) == 8);
        assert(pow2(4) == 16);
    }
    state.attempts_done = state.attempts_done + 1;
    match outcome {
        AttemptOutcome::Success => RetryDecision::Succeed,
        AttemptOutcome::HttpError { status, message } => {
            RetryDecision::Fail(DeadlockError::Http { status, message })
        },
        AttemptOutcome::RateLimited { wait_hint_ms, message } => {
            if state.attempts_done < ATTEMPT_BUDGET {
                match wait_hint_ms {
                    Some(w) => RetryDecision::Wait { delay_ms: w },
                    None => {
                        let delay = state.backoff_ms;
                        state.backoff_ms = state.backoff_ms * 2;
                        RetryDecision::Wait { delay_ms: delay }
                    },
                }
            } else {
                RetryDecision::Fail(DeadlockError::RateLimited(message))
            }
        },
        AttemptOutcome::NetworkError { message } => {
            if state.attempts_done < ATTEMPT_BUDGET {
                let delay = state.backoff_ms;
                state.backoff_ms = state.backoff_ms * 2;
                RetryDecision::Wait { delay_ms: delay }
            } else {
                RetryDecision::Fail(DeadlockError::Other(message))
            }
        },
    }
}

pub uninterp spec fn http_date_epoch_of(s: Seq<char>) -> Option<u64>;

/// Relies on httpdate::parse_http_date: whether a string is a valid HTTP
/// date, and which timestamp it denotes, are functions of the string alone;
/// a date before the epoch yields nothing.
#[verifier::external_body]
fn parse_http_date_epoch(s: &str) -> (r: Option<u64>)
    ensures
        r == http_date_epoch_of(s@),
{
    match httpdate::parse_http_date(s) {
        Ok(t) => match t.duration_since(std::time::UNIX_EPOCH) {
            Ok(d) => Some(d.as_secs()),
            Err(_) => None,
        },
        Err(_) => None,
    }
}

/// Interpret a rate-limit wait hint: either a plain number of seconds, or
/// an HTTP date, in which case the wait is the time from `now_epoch_secs`
/// to that date; a date already passed, or unreadable text, gives no hint.
pub fn parse_retry_after(s: &str, now_epoch_secs: u64) -> (r: Option<u64>)
    ensures
        dec_digits_ok(strip_plus(s@)) && dec_val(strip_plus(s@)) <= u64::MAX ==> r == Some(
            dec_val(strip_plus(s@)) as u64,
        ),
        !(dec_digits_ok(strip_plus(s@)) && dec_val(strip_plus(s@)) <= u64::MAX) ==> {
            &&& http_date_epoch_of(s@) matches Some(d) ==> {
                &&& d >= now_epoch_secs ==> r == Some((d - now_epoch_secs) as u64)
                &&& d < now_epoch_secs ==> r is None
            }
            &&& http_date_epoch_of(s@) is None ==> r is None
        },
{
    match parse_u64(s) {
        Some(n) => Some(n),
        None => match parse_http_date_epoch(s) {
            Some(d) => {
                if d >= now_epoch_secs {
                    Some(d - now_epoch_secs)
                } else {
                    None
                }
            },
            None => None,
        },
    }
}

} // verus!
