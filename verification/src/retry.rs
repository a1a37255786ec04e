use vstd::prelude::*;

verus! {

/// Statuses worth another attempt while attempts remain: 429, 500, 502, 503, 504.
pub open spec fn is_retry_status(status: u16) -> bool {
    status == 429 || status == 500 || status == 502 || status == 503 || status == 504
}

pub fn retryable_status(status: u16) -> (r: bool)
    ensures
        r == is_retry_status(status),
{
    status == 429 || status == 500 || status == 502 || status == 503 || status == 504
}

/// How one attempt ended.
#[derive(Debug, Clone, Copy, PartialEq, Eq, Structural)]
pub enum AttemptOutcome {
    /// The server answered with this status.
    Response(u16),
    /// No answer. `transient` is set for timeouts, connection failures and
    /// request failures, which are worth another attempt.
    TransportFailure { transient: bool },
}

/// What the transport does after an attempt.
#[derive(Debug, Clone, Copy, PartialEq, Eq, Structural)]
pub enum RetryAction {
    /// Wait, then send the request again.
    Retry,
    /// Hand the response to the caller (success or API error).
    Finish,
    /// Give up with a connection error.
    Fail,
}

/// The retry policy: attempts are numbered from 0 and there are at most
/// `max_retries` retries after the first attempt.
pub open spec fn retry_decision(attempt: nat, max_retries: nat, outcome: AttemptOutcome) -> RetryAction {
    match outcome {
        AttemptOutcome::Response(status) => if is_retry_status(status) && attempt < max_retries {
            RetryAction::Retry
        } else {
            RetryAction::Finish
        },
        AttemptOutcome::TransportFailure { transient } => if transient && attempt < max_retries {
            RetryAction::Retry
        } else {
            RetryAction::Fail
        },
    }
}

pub fn decide(attempt: usize, max_retries: usize, outcome: AttemptOutcome) -> (r: RetryAction)
    ensures
        r == retry_decision(attempt as nat, max_retries as nat, outcome),
{
    match outcome {
        AttemptOutcome::Response(status) => {
            if retryable_status(status) && attempt < max_retries {
                RetryAction::Retry
            } else {
                RetryAction::Finish
            }
        },
        AttemptOutcome::TransportFailure { transient } => {
            if transient && attempt < max_retries {
                RetryAction::Retry
            } else {
                RetryAction::Fail
            }
        },
    }
}

/// A request is sent at most `max_retries + 1` times: the attempt numbered
/// `max_retries` never retries, and no attempt beyond it is ever made.
pub proof fn law_retries_bounded(attempt: nat, max_retries: nat, outcome: AttemptOutcome)
    ensures
        retry_decision(attempt, max_retries, outcome) == RetryAction::Retry ==> attempt
            < max_retries,
        attempt >= max_retries ==> retry_decision(attempt, max_retries, outcome)
            != RetryAction::Retry,
{
}

/// Only the retry statuses and transient transport failures are retried;
/// any other answer is final at once.
pub proof fn law_only_transient_retried(attempt: nat, max_retries: nat, outcome: AttemptOutcome)
    ensures
        retry_decision(attempt, max_retries, outcome) == RetryAction::Retry ==> match outcome {
            AttemptOutcome::Response(status) => is_retry_status(status),
            AttemptOutcome::TransportFailure { transient } => transient,
        },
        outcome matches AttemptOutcome::Response(s) ==> retry_decision(attempt, max_retries, outcome)
            != RetryAction::Fail,
{
}

/// How many attempts a request makes when attempt `k` (counted from `from`)
/// ends with `outcomes[k]`: attempts go on while the policy says retry.
pub open spec fn attempts_made(max_retries: nat, outcomes: Seq<AttemptOutcome>, from: nat) -> nat
    decreases outcomes.len() - from,
{
    if from >= outcomes.len() {
        from
    } else if retry_decision(from, max_retries, outcomes[from as int]) == RetryAction::Retry {
        attempts_made(max_retries, outcomes, from + 1)
    } else {
        from + 1
    }
}

proof fn lemma_attempts_made(max_retries: nat, outcomes: Seq<AttemptOutcome>, from: nat)
    requires
        from <= max_retries < outcomes.len(),
    ensures
        from + 1 <= attempts_made(max_retries, outcomes, from) <= max_retries + 1,
        retry_decision(
            (attempts_made(max_retries, outcomes, from) - 1) as nat,
            max_retries,
            outcomes[attempts_made(max_retries, outcomes, from) - 1],
        ) != RetryAction::Retry,
        forall|k: nat|
            from <= k < attempts_made(max_retries, outcomes, from) - 1 ==> retry_decision(
                k,
                max_retries,
                #[trigger] outcomes[k as int],
            ) == RetryAction::Retry,
    decreases max_retries - from,
{
    if retry_decision(from, max_retries, outcomes[from as int]) == RetryAction::Retry {
        lemma_attempts_made(max_retries, outcomes, from + 1);
    }
}

/// Over a whole run, whatever each attempt ends with: a request is sent at
/// least once and at most `max_retries + 1` times, every attempt but the
/// last was answered with "retry", and the last one finishes or fails.
pub proof fn law_run_ends_within_budget(max_retries: nat, outcomes: Seq<AttemptOutcome>)
    requires
        outcomes.len() > max_retries,
    ensures
        1 <= attempts_made(max_retries, outcomes, 0) <= max_retries + 1,
        retry_decision(
            (attempts_made(max_retries, outcomes, 0) - 1) as nat,
            max_retries,
            outcomes[attempts_made(max_retries, outcomes, 0) - 1],
        ) != RetryAction::Retry,
        forall|k: nat|
            k < attempts_made(max_retries, outcomes, 0) - 1 ==> retry_decision(
                k,
                max_retries,
                #[trigger] outcomes[k as int],
            ) == RetryAction::Retry,
{
    lemma_attempts_made(max_retries, outcomes, 0);
}

} // verus!
