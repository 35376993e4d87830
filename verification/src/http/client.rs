//! The decisions of the shared HTTP client: which User-Agent to send, which
//! responses are worth retrying, and how long to wait before the next try.
//! The requests themselves are sent by the application.
use vstd::prelude::*;

verus! {

/// Number of User-Agent strings in the rotation pool.
pub const USER_AGENT_COUNT: usize = 5;

/// Max retry attempts for transient errors.
pub const MAX_RETRIES: u32 = 3;

/// The User-Agent pool, by position.
pub open spec fn spec_user_agent(i: int) -> Seq<char> {
    if i == 0 {
        "Mozilla/5.0 (Macintosh; Intel Mac OS X 10_15_7) AppleWebKit/537.36 (KHTML, like Gecko) Chrome/120.0.0.0 Safari/537.36"@
    } else if i == 1 {
        "Mozilla/5.0 (Windows NT 10.0; Win64; x64) AppleWebKit/537.36 (KHTML, like Gecko) Chrome/120.0.0.0 Safari/537.36"@
    } else if i == 2 {
        "Mozilla/5.0 (X11; Linux x86_64) AppleWebKit/537.36 (KHTML, like Gecko) Chrome/120.0.0.0 Safari/537.36"@
    } else if i == 3 {
        "Mozilla/5.0 (Macintosh; Intel Mac OS X 10_15_7) AppleWebKit/605.1.15 (KHTML, like Gecko) Version/17.2 Safari/605.1.15"@
    } else {
        "Mozilla/5.0 (Windows NT 10.0; Win64; x64; rv:121.0) Gecko/20100101 Firefox/121.0"@
    }
}

/// The User-Agent for the `counter`-th request: the pool is used in turn.
pub fn random_ua(counter: usize) -> (ua: &'static str)
    ensures
        ua@ == spec_user_agent((counter % USER_AGENT_COUNT) as int),
{
    let i = counter % USER_AGENT_COUNT;
    if i == 0 {
        "Mozilla/5.0 (Macintosh; Intel Mac OS X 10_15_7) AppleWebKit/537.36 (KHTML, like Gecko) Chrome/120.0.0.0 Safari/537.36"
    } else if i == 1 {
        "Mozilla/5.0 (Windows NT 10.0; Win64; x64) AppleWebKit/537.36 (KHTML, like Gecko) Chrome/120.0.0.0 Safari/537.36"
    } else if i == 2 {
        "Mozilla/5.0 (X11; Linux x86_64) AppleWebKit/537.36 (KHTML, like Gecko) Chrome/120.0.0.0 Safari/537.36"
    } else if i == 3 {
        "Mozilla/5.0 (Macintosh; Intel Mac OS X 10_15_7) AppleWebKit/605.1.15 (KHTML, like Gecko) Version/17.2 Safari/605.1.15"
    } else {
        "Mozilla/5.0 (Windows NT 10.0; Win64; x64; rv:121.0) Gecko/20100101 Firefox/121.0"
    }
}

pub open spec fn spec_is_retryable_status(status: u16) -> bool {
    status == 408 || status == 429 || status == 500 || status == 502 || status == 503 || status == 504
}

/// HTTP status codes that trigger retry.
pub fn is_retryable_status(status: u16) -> (b: bool)
    ensures
        b == spec_is_retryable_status(status),
{
    status == 408 || status == 429 || status == 500 || status == 502 || status == 503 || status == 504
}

/// Exponential backoff before the `attempt`-th try (counting from 0):
/// 200 ms, 400 ms, 800 ms.
pub open spec fn spec_backoff_ms(attempt: nat) -> nat
    decreases attempt,
{
    if attempt <= 1 {
        200
    } else {
        2 * spec_backoff_ms((attempt - 1) as nat)
    }
}

/// What one try of a request came back with.
#[derive(Debug, Clone, Copy, PartialEq, Eq, Structural)]
pub enum FetchOutcome {
    /// A response with a success (2xx) status.
    Success,
    /// A response with another status.
    Status(u16),
    /// No response (connection, timeout or protocol failure).
    TransportError,
}

/// What to do after one try.
#[derive(Debug, Clone, Copy, PartialEq, Eq, Structural)]
pub enum RetryStep {
    /// Hand the response to the caller.
    Accept,
    /// Wait this many milliseconds, then try again.
    RetryAfter(u64),
    /// Report this try's failure to the caller.
    GiveUp,
}

pub open spec fn spec_next_step(attempt: u32, outcome: FetchOutcome) -> RetryStep {
    match outcome {
        FetchOutcome::Success => RetryStep::Accept,
        FetchOutcome::Status(s) => if spec_is_retryable_status(s) && attempt < MAX_RETRIES {
            RetryStep::RetryAfter(spec_backoff_ms((attempt + 1) as nat) as u64)
        } else {
            RetryStep::GiveUp
        },
        FetchOutcome::TransportError => if attempt < MAX_RETRIES {
            RetryStep::RetryAfter(spec_backoff_ms((attempt + 1) as nat) as u64)
        } else {
            RetryStep::GiveUp
        },
    }
}

/// The delay before try number `attempt` (1 to `MAX_RETRIES`).
pub fn backoff_ms(attempt: u32) -> (ms: u64)
    requires
        1 <= attempt <= MAX_RETRIES,
    ensures
        ms == spec_backoff_ms(attempt as nat),
{
    reveal_with_fuel(spec_backoff_ms, 3);
    if attempt == 1 {
        200
    } else if attempt == 2 {
        400
    } else {
        800
    }
}

/// The decision after try number `attempt` (counting from 0) came back with
/// `outcome`: successes are accepted, transport errors and retryable
/// statuses are retried while tries remain, everything else gives up.
pub fn next_step(attempt: u32, outcome: FetchOutcome) -> (step: RetryStep)
    requires
        attempt <= MAX_RETRIES,
    ensures
        step == spec_next_step(attempt, outcome),
{
    match outcome {
        FetchOutcome::Success => RetryStep::Accept,
        FetchOutcome::Status(s) => {
            if is_retryable_status(s) && attempt < MAX_RETRIES {
                RetryStep::RetryAfter(backoff_ms(attempt + 1))
            } else {
                RetryStep::GiveUp
            }
        },
        FetchOutcome::TransportError => {
            if attempt < MAX_RETRIES {
                RetryStep::RetryAfter(backoff_ms(attempt + 1))
            } else {
                RetryStep::GiveUp
            }
        },
    }
}

/// A request is tried at most `MAX_RETRIES + 1` times: after the last try
/// nothing is retried, and a success is never retried.
pub proof fn law_retries_are_bounded(outcome: FetchOutcome, attempt: u32)
    requires
        attempt <= MAX_RETRIES,
    ensures
        attempt == MAX_RETRIES ==> !(spec_next_step(attempt, outcome) is RetryAfter),
        outcome == FetchOutcome::Success ==> spec_next_step(attempt, outcome) == RetryStep::Accept,
{
}

/// Each wait is twice the previous one, starting at 200 ms.
pub proof fn law_backoff_doubles(attempt: nat)
    requires
        attempt >= 1,
    ensures
        spec_backoff_ms(1) == 200,
        spec_backoff_ms(attempt + 1) == 2 * spec_backoff_ms(attempt),
{
    reveal_with_fuel(spec_backoff_ms, 2);
}

} // verus!
