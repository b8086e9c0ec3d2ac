//! When a request is sent again: `429 Too Many Requests` and `529 Overloaded`
//! responses are retried, up to a limit, after the wait that the response's
//! `Retry-After` header asks for or else after an exponential backoff.

use crate::duration::{Duration, MAX_NANOS, NANOS_PER_MILLI, NANOS_PER_SEC};
use crate::header::{decimal_text, lemma_retry_after_decimal, spec_retry_after_secs};
use vstd::arithmetic::power2::{lemma2_to64, lemma_pow2_strictly_increases, pow2};
use vstd::prelude::*;

verus! {

/// Retry behavior for `429 Too Many Requests` and `529 Overloaded` responses:
/// retried with exponential backoff by default.
#[derive(Debug, Clone)]
pub struct RetryPolicy {
    pub max_retries: u32,
    pub initial_backoff: Duration,
    pub max_backoff: Duration,
}

/// `2` raised to `attempt`, saturating at `u32::MAX`, as `u32::saturating_pow`
/// computes it.
pub open spec fn backoff_scale(attempt: u32) -> nat {
    if attempt < 32 {
        pow2(attempt as nat)
    } else {
        u32::MAX as nat
    }
}

/// The smaller of two numbers.
pub open spec fn min_nat(a: nat, b: nat) -> nat {
    if b < a {
        b
    } else {
        a
    }
}

/// A `2xx` status.
pub open spec fn is_success_status(status: u16) -> bool {
    200 <= status < 300
}

/// A status that is worth retrying: `429 Too Many Requests` or `529 Overloaded`.
pub open spec fn is_retryable_status(status: u16) -> bool {
    status == 429 || status == 529
}

/// The `Retry-After` header value, taken by its bytes.
pub open spec fn header_view(value: Option<&[u8]>) -> Option<Seq<u8>> {
    match value {
        Some(b) => Some(b@),
        None => None,
    }
}

/// What came back from one attempt to send a request.
#[derive(Debug, Clone, Copy)]
pub enum Reply<'a> {
    /// A response, with its status and its `Retry-After` header if it has one.
    Response { status: u16, retry_after: Option<&'a [u8]> },
    /// The request could not be sent: the transport failed.
    SendFailed,
}

/// What to do with a response once it has come back.
#[derive(Debug)]
pub enum RetryStep {
    /// The request succeeded: hand the response back.
    Finish,
    /// Wait for `delay`, then send the request again as attempt `next_attempt`.
    Wait { delay: Duration, next_attempt: u32 },
    /// Stop, and report the failure: the response's status as an error, or
    /// the transport's error where nothing came back.
    GiveUp,
}

/// The default policy: up to 3 retries, starting at a 500 ms backoff and
/// never waiting more than 8 s.
pub open spec fn is_default_policy(p: RetryPolicy) -> bool {
    &&& p.max_retries == 3
    &&& p.initial_backoff@ == 500 * NANOS_PER_MILLI
    &&& p.max_backoff@ == 8 * NANOS_PER_SEC
}

impl Default for RetryPolicy {
    /// Up to 3 retries, starting at a 500 ms backoff and never waiting more than 8 s.
    fn default() -> (p: RetryPolicy)
        ensures
            is_default_policy(p),
    {
        RetryPolicy {
            max_retries: 3,
            initial_backoff: Duration::from_millis(500),
            max_backoff: Duration::from_secs(8),
        }
    }
}

impl RetryPolicy {
    /// The backoff before retry number `attempt` counts from zero:
    /// `initial_backoff * 2^attempt`, capped at `max_backoff`.
    pub open spec fn spec_backoff(&self, attempt: u32) -> nat {
        min_nat(self.initial_backoff@ * backoff_scale(attempt), self.max_backoff@)
    }

    /// `initial_backoff * 2^attempt` fits in a `Duration`: where it does not,
    /// the multiplication overflows.
    pub open spec fn backoff_fits(&self, attempt: u32) -> bool {
        self.initial_backoff@ * backoff_scale(attempt) <= MAX_NANOS
    }

    /// The wait before the request is sent again, if it is: the one that
    /// `Retry-After` asks for, or else the backoff.
    pub open spec fn spec_wait(&self, attempt: u32, retry_after: Option<Seq<u8>>) -> nat {
        match spec_retry_after_secs(retry_after) {
            Some(secs) => (secs * NANOS_PER_SEC) as nat,
            None => self.spec_backoff(attempt),
        }
    }

    /// A response with `status` on attempt `attempt` is sent again.
    pub open spec fn retries(&self, attempt: u32, status: u16) -> bool {
        !is_success_status(status) && is_retryable_status(status) && attempt < self.max_retries
    }

    /// No retries at all.
    pub fn none() -> (p: RetryPolicy)
        ensures
            p.max_retries == 0,
            p.initial_backoff@ == 0,
            p.max_backoff@ == 0,
    {
        RetryPolicy {
            max_retries: 0,
            initial_backoff: Duration::from_millis(0),
            max_backoff: Duration::from_millis(0),
        }
    }

    /// The backoff before retry number `attempt`, where the multiplication
    /// fits; `None` where it would overflow.
    pub fn checked_backoff_for(&self, attempt: u32) -> (r: Option<Duration>)
        ensures
            r is Some <==> self.backoff_fits(attempt),
            r matches Some(d) ==> d@ == self.spec_backoff(attempt),
    {
        let scale = saturating_pow2(attempt);
        match self.initial_backoff.checked_mul(scale) {
            Some(scaled) => Some(scaled.min(self.max_backoff)),
            None => None,
        }
    }

    /// The backoff before retry number `attempt`: `initial_backoff * 2^attempt`
    /// (the power saturating at `u32::MAX`), capped at `max_backoff`.
    pub fn backoff_for(&self, attempt: u32) -> (d: Duration)
        requires
            self.backoff_fits(attempt),
        ensures
            d@ == self.spec_backoff(attempt),
            d@ <= self.max_backoff@,
            d@ <= self.initial_backoff@ * backoff_scale(attempt),
            d@ == self.max_backoff@ || d@ == self.initial_backoff@ * backoff_scale(attempt),
    {
        self.checked_backoff_for(attempt).unwrap()
    }

    /// The multiplication behind the wait on attempt `attempt` fits, where the
    /// wait comes from the backoff.
    pub open spec fn step_defined(&self, attempt: u32, status: u16, retry_after: Option<Seq<u8>>) -> bool {
        self.retries(attempt, status) && spec_retry_after_secs(retry_after) is None
            ==> self.backoff_fits(attempt)
    }

    /// The decision for `reply` to attempt `attempt` is defined: the
    /// backoff it may need fits.
    pub open spec fn reply_defined(&self, attempt: u32, reply: Reply) -> bool {
        match reply {
            Reply::Response { status, retry_after } => self.step_defined(
                attempt,
                status,
                header_view(retry_after),
            ),
            Reply::SendFailed => true,
        }
    }

    /// Whether `next_step` is defined on `reply`: false exactly where the
    /// backoff it would need overflows.
    pub fn step_is_defined(&self, attempt: u32, reply: Reply) -> (b: bool)
        ensures
            b == self.reply_defined(attempt, reply),
    {
        match reply {
            Reply::Response { status, retry_after } => {
                let retried = !(200 <= status && status < 300) && (status == 429 || status == 529)
                    && attempt < self.max_retries;
                if retried && crate::header::retry_after_secs(retry_after).is_none() {
                    self.checked_backoff_for(attempt).is_some()
                } else {
                    true
                }
            },
            Reply::SendFailed => true,
        }
    }

    /// What to do with `reply`, what came back from attempt number `attempt`
    /// (counted from zero): a `2xx` response finishes; a `429` or `529`
    /// response waits and is sent again while fewer than `max_retries`
    /// retries have been made; any other response gives up, and so does a
    /// request that could not be sent at all.
    pub fn next_step(&self, attempt: u32, reply: Reply) -> (step: RetryStep)
        requires
            self.reply_defined(attempt, reply),
        ensures
            match reply {
                Reply::Response { status, retry_after } => {
                    &&& step is Finish <==> is_success_status(status)
                    &&& step is Wait <==> self.retries(attempt, status)
                    &&& step is GiveUp <==> !is_success_status(status) && !self.retries(attempt, status)
                    &&& step matches RetryStep::Wait { delay, next_attempt } ==> {
                        &&& next_attempt == attempt + 1
                        &&& next_attempt <= self.max_retries
                        &&& delay@ == self.spec_wait(attempt, header_view(retry_after))
                    }
                    &&& step is Finish <==> 200 <= status && status < 300
                    &&& step is Wait ==> status == 429 || status == 529
                    &&& step is Wait ==> attempt < self.max_retries
                    &&& (status == 429 || status == 529) && attempt < self.max_retries ==> step is Wait
                    &&& step matches RetryStep::Wait { delay, .. } ==> {
                        &&& retry_after is None ==> delay@ <= self.max_backoff@
                        &&& retry_after is None ==> delay@ <= self.initial_backoff@ * backoff_scale(attempt)
                        &&& retry_after is None ==> (delay@ == self.max_backoff@ || delay@
                            == self.initial_backoff@ * backoff_scale(attempt))
                        &&& forall|n: u64|
                            retry_after matches Some(b) && b@ == #[trigger] decimal_text(n as nat)
                                ==> delay@ == n * NANOS_PER_SEC
                    }
                },
                Reply::SendFailed => step is GiveUp,
            },
    {
        let (status, retry_after) = match reply {
            Reply::Response { status, retry_after } => (status, retry_after),
            Reply::SendFailed => {
                return RetryStep::GiveUp;
            },
        };
        if 200 <= status && status < 300 {
            return RetryStep::Finish;
        }
        let retryable = status == 429 || status == 529;
        if retryable && attempt < self.max_retries {
            proof {
                assert forall|n: u64|
                    retry_after matches Some(b) && b@ == #[trigger] decimal_text(n as nat) implies self.spec_wait(
                    attempt,
                    header_view(retry_after),
                ) == n * NANOS_PER_SEC by {
                    lemma_retry_after_decimal(n);
                }
            }
            let delay = match crate::header::retry_after(retry_after) {
                Some(d) => d,
                None => self.backoff_for(attempt),
            };
            return RetryStep::Wait { delay, next_attempt: attempt + 1 };
        }
        RetryStep::GiveUp
    }
}

/// `2` raised to `attempt`, saturating at `u32::MAX`: `2u32.saturating_pow(attempt)`.
pub fn saturating_pow2(attempt: u32) -> (r: u32)
    ensures
        r == backoff_scale(attempt),
{
    if attempt >= 32 {
        return u32::MAX;
    }
    let mut r: u32 = 1;
    let mut i: u32 = 0;
    proof {
        lemma2_to64();
    }
    while i < attempt
        invariant
            i <= attempt < 32,
            r == pow2(i as nat),
            pow2(31) == 0x8000_0000,
        decreases attempt - i,
    {
        proof {
            if i < 31 {
                lemma_pow2_strictly_increases(i as nat, 31);
            }
            assert(pow2((i + 1) as nat) == 2 * pow2(i as nat)) by {
                vstd::arithmetic::power2::lemma_pow2_unfold((i + 1) as nat);
            }
        }
        r = r * 2;
        i = i + 1;
    }
    r
}

/// The power of two used for the backoff never falls as the attempt grows.
pub proof fn lemma_backoff_scale_monotone(a: u32, b: u32)
    requires
        a <= b,
    ensures
        backoff_scale(a) <= backoff_scale(b),
        backoff_scale(a) >= 1,
{
    lemma2_to64();
    if a < 32 && b < 32 && a < b {
        lemma_pow2_strictly_increases(a as nat, b as nat);
    }
    if a < 32 && b >= 32 && a < 31 {
        lemma_pow2_strictly_increases(a as nat, 31);
    }
    if a < 32 && a > 0 {
        lemma_pow2_strictly_increases(0, a as nat);
    }
}

/// The backoff never exceeds `max_backoff`.
pub proof fn lemma_backoff_capped(policy: RetryPolicy, attempt: u32)
    ensures
        policy.spec_backoff(attempt) <= policy.max_backoff@,
{
}

/// The backoff never shrinks from one attempt to a later one.
pub proof fn lemma_backoff_monotone(policy: RetryPolicy, a: u32, b: u32)
    requires
        a <= b,
    ensures
        policy.spec_backoff(a) <= policy.spec_backoff(b),
{
    lemma_backoff_scale_monotone(a, b);
    let i = policy.initial_backoff@;
    let sa = backoff_scale(a);
    let sb = backoff_scale(b);
    assert(i * sa <= i * sb) by (nonlinear_arith)
        requires
            sa <= sb,
    ;
}

/// Each retry before the power saturates doubles the uncapped backoff.
pub proof fn lemma_backoff_doubles(policy: RetryPolicy, attempt: u32)
    requires
        attempt < 31,
    ensures
        policy.spec_backoff((attempt + 1) as u32) == min_nat(
            2 * (policy.initial_backoff@ * backoff_scale(attempt)),
            policy.max_backoff@,
        ),
{
    vstd::arithmetic::power2::lemma_pow2_unfold((attempt + 1) as nat);
    let i = policy.initial_backoff@;
    let p = pow2(attempt as nat);
    assert(i * (2 * p) == 2 * (i * p)) by (nonlinear_arith);
}

/// The first retry waits `initial_backoff`, capped at `max_backoff`.
pub proof fn lemma_first_backoff(policy: RetryPolicy)
    ensures
        policy.spec_backoff(0) == min_nat(policy.initial_backoff@, policy.max_backoff@),
{
    lemma2_to64();
    assert(backoff_scale(0) == 1);
    let i = policy.initial_backoff@;
    assert(i * 1 == i);
}

/// A policy built by `none` never sends a request again, whatever comes back.
pub proof fn lemma_none_never_retries(policy: RetryPolicy, attempt: u32, status: u16)
    requires
        policy.max_retries == 0,
    ensures
        !policy.retries(attempt, status),
{
}

/// Once `max_retries` retries have been made, no response is retried.
pub proof fn lemma_retries_bounded(policy: RetryPolicy, attempt: u32, status: u16)
    requires
        attempt >= policy.max_retries,
    ensures
        !policy.retries(attempt, status),
{
}

/// A `2xx` response is never retried and never reported as an error.
pub proof fn lemma_success_finishes(policy: RetryPolicy, attempt: u32, status: u16)
    requires
        is_success_status(status),
    ensures
        !policy.retries(attempt, status),
{
}

/// A `Retry-After` header that reads as a number of seconds sets the wait,
/// whatever the backoff would have been.
pub proof fn lemma_retry_after_overrides_backoff(
    policy: RetryPolicy,
    attempt: u32,
    retry_after: Seq<u8>,
    secs: u64,
)
    requires
        spec_retry_after_secs(Some(retry_after)) == Some(secs),
    ensures
        policy.spec_wait(attempt, Some(retry_after)) == secs * NANOS_PER_SEC,
{
}

/// How many times a request is sent when the responses to its attempts,
/// from attempt `attempt` on, come back with `statuses` in turn: each retried
/// response leads to one more send, any other ends the run.
pub open spec fn sends_made(policy: RetryPolicy, attempt: u32, statuses: Seq<u16>) -> nat
    decreases statuses.len(),
{
    if statuses.len() == 0 {
        0
    } else if policy.retries(attempt, statuses[0]) {
        1 + sends_made(policy, (attempt + 1) as u32, statuses.drop_first())
    } else {
        1
    }
}

/// Whatever the responses, a request is sent at most `max_retries + 1` times.
pub proof fn lemma_sends_bounded(policy: RetryPolicy, statuses: Seq<u16>)
    ensures
        sends_made(policy, 0, statuses) <= policy.max_retries + 1,
{
    lemma_sends_bounded_from(policy, 0, statuses);
}

proof fn lemma_sends_bounded_from(policy: RetryPolicy, attempt: u32, statuses: Seq<u16>)
    requires
        attempt <= policy.max_retries,
    ensures
        sends_made(policy, attempt, statuses) <= policy.max_retries - attempt + 1,
    decreases statuses.len(),
{
    if statuses.len() > 0 && policy.retries(attempt, statuses[0]) {
        lemma_sends_bounded_from(policy, (attempt + 1) as u32, statuses.drop_first());
    }
}

/// Only `429` and `529` responses are ever retried, and only while fewer
/// than `max_retries` retries have been made.
pub proof fn lemma_only_rate_limits_retried(policy: RetryPolicy, attempt: u32, status: u16)
    ensures
        policy.retries(attempt, status) ==> (status == 429 || status == 529) && attempt
            < policy.max_retries,
        status != 429 && status != 529 ==> !policy.retries(attempt, status),
{
}

/// A `429` or `529` response is retried on every attempt below
/// `max_retries`, whatever `max_retries` is.
pub proof fn lemma_rate_limits_retried_below_max(policy: RetryPolicy, attempt: u32, status: u16)
    requires
        status == 429 || status == 529,
        attempt < policy.max_retries,
    ensures
        policy.retries(attempt, status),
{
}

/// Without a `Retry-After` header, the wait is the backoff: never more than
/// `max_backoff`, never more than `initial_backoff * 2^attempt`, and one of
/// the two.
pub proof fn lemma_wait_without_header(policy: RetryPolicy, attempt: u32)
    requires
        attempt < 32,
    ensures
        policy.spec_wait(attempt, None) <= policy.max_backoff@,
        policy.spec_wait(attempt, None) <= policy.initial_backoff@ * pow2(attempt as nat),
        policy.spec_wait(attempt, None) == policy.max_backoff@ || policy.spec_wait(attempt, None)
            == policy.initial_backoff@ * pow2(attempt as nat),
{
}

/// A `Retry-After` header holding the decimal text of `n` makes the wait
/// exactly `n` seconds, for every `n`, on any attempt.
pub proof fn lemma_wait_with_header(policy: RetryPolicy, attempt: u32, n: u64)
    ensures
        policy.spec_wait(attempt, Some(decimal_text(n as nat))) == n * NANOS_PER_SEC,
{
    lemma_retry_after_decimal(n);
}

/// The power of two behind the backoff starts at 1, doubles with each
/// attempt up to `2^31`, and stays at `u32::MAX` from attempt 32 on.
pub proof fn lemma_backoff_scale_values(attempt: u32)
    ensures
        backoff_scale(0) == 1,
        backoff_scale(31) == 0x8000_0000,
        attempt < 31 ==> backoff_scale((attempt + 1) as u32) == 2 * backoff_scale(attempt),
        attempt >= 32 ==> backoff_scale(attempt) == 0xffff_ffff,
{
    lemma2_to64();
    if attempt < 31 {
        vstd::arithmetic::power2::lemma_pow2_unfold((attempt + 1) as nat);
    }
}

/// On a run of `429` responses longer than `max_retries`, the request is
/// sent exactly `max_retries + 1` times.
pub proof fn lemma_rate_limited_run(policy: RetryPolicy, statuses: Seq<u16>)
    requires
        statuses.len() > policy.max_retries,
        forall|i: int| 0 <= i < statuses.len() ==> #[trigger] statuses[i] == 429,
    ensures
        sends_made(policy, 0, statuses) == policy.max_retries + 1,
{
    lemma_rate_limited_run_from(policy, 0, statuses);
}

proof fn lemma_rate_limited_run_from(policy: RetryPolicy, attempt: u32, statuses: Seq<u16>)
    requires
        attempt <= policy.max_retries,
        statuses.len() > policy.max_retries - attempt,
        forall|i: int| 0 <= i < statuses.len() ==> #[trigger] statuses[i] == 429,
    ensures
        sends_made(policy, attempt, statuses) == policy.max_retries - attempt + 1,
    decreases statuses.len(),
{
    assert(statuses[0] == 429);
    if attempt < policy.max_retries {
        let rest = statuses.drop_first();
        assert forall|i: int| 0 <= i < rest.len() implies #[trigger] rest[i] == 429 by {
            assert(rest[i] == statuses[i + 1]);
        }
        lemma_rate_limited_run_from(policy, (attempt + 1) as u32, rest);
    }
}

} // verus!
