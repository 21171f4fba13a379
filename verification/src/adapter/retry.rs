//! Whether and when a failed request is tried again.

use crate::adapter::config::RetryConfig;
use crate::adapter::error::{AdapterError, ErrorView};
use crate::number::Duration;
use vstd::arithmetic::power2::{lemma2_to64, lemma_pow2_adds, lemma_pow2_pos, lemma_pow2_strictly_increases, pow2};
use vstd::prelude::*;

verus! {

/// A pause between two attempts.
#[derive(Debug, Clone, Copy, PartialEq, Eq, Structural)]
pub enum Pause {
    /// The pause that the server asked for, as far as it is allowed.
    Asked(Duration),
    /// A pause to which the jitter of the configuration is still applied.
    Growing(Duration),
}

/// The shorter of two times.
pub open spec fn shorter(a: int, b: int) -> int {
    if a <= b {
        a
    } else {
        b
    }
}

/// The pause after the failed attempt `attempt`: what the server asked for, or the base delay
/// doubled with each attempt, and never more than the longest delay.
pub open spec fn pause_nanos(config: RetryConfig, attempt: u32, retry_after: Option<Duration>) -> int {
    match retry_after {
        Some(after) => shorter(after.nanos as int, config.max_delay.nanos as int),
        None => shorter(
            config.base_delay.nanos * pow2(shorter(attempt as int, 16) as nat) as int,
            config.max_delay.nanos as int,
        ),
    }
}

/// The pause after the failed attempt `attempt`, before jitter.
pub fn backoff_delay(config: &RetryConfig, attempt: u32, retry_after: Option<Duration>) -> (r: Pause)
    ensures
        match retry_after {
            Some(_) => r matches Pause::Asked(d) && d.nanos == pause_nanos(
                *config,
                attempt,
                retry_after,
            ),
            None => r matches Pause::Growing(d) && d.nanos == pause_nanos(
                *config,
                attempt,
                retry_after,
            ),
        },
{
    if let Some(after) = retry_after {
        return Pause::Asked(
            if after.nanos <= config.max_delay.nanos {
                after
            } else {
                config.max_delay
            },
        );
    }
    let steps: u32 = if attempt <= 16 {
        attempt
    } else {
        16
    };
    let mut factor: u128 = 1;
    let mut i: u32 = 0;
    proof {
        lemma2_to64();
    }
    while i < steps
        invariant
            i <= steps <= 16,
            factor == pow2(i as nat),
        decreases steps - i,
    {
        proof {
            lemma_pow2_adds(i as nat, 1);
            lemma2_to64();
            if i < 16 {
                lemma_pow2_strictly_increases(i as nat, 16);
            }
        }
        factor = factor * 2;
        i += 1;
    }
    proof {
        lemma_pow2_pos(steps as nat);
    }
    match config.base_delay.nanos.checked_mul(factor) {
        Some(nanos) => if nanos <= config.max_delay.nanos {
            Pause::Growing(Duration { nanos })
        } else {
            Pause::Growing(config.max_delay)
        },
        None => Pause::Growing(config.max_delay),
    }
}

/// What follows a failed attempt.
#[derive(Debug, Clone, Copy, PartialEq, Eq, Structural)]
pub enum AfterFailure {
    /// The error is final.
    GiveUp,
    /// Another attempt after a pause.
    Wait(Pause),
}

/// Whether a failed attempt, the first of which has the number 0, is the last.
pub open spec fn gives_up(config: RetryConfig, attempt: u32, error: ErrorView) -> bool {
    attempt + 1 >= config.max_attempts || !error.retryable()
}

/// What follows the failure of attempt `attempt`.
pub fn after_failure(config: &RetryConfig, attempt: u32, error: &AdapterError) -> (r: AfterFailure)
    ensures
        gives_up(*config, attempt, error@) ==> r == AfterFailure::GiveUp,
        !gives_up(*config, attempt, error@) ==> match r {
            AfterFailure::Wait(Pause::Asked(d)) => error@.wait() is Some && d.nanos == pause_nanos(
                *config,
                attempt,
                error@.wait(),
            ),
            AfterFailure::Wait(Pause::Growing(d)) => error@.wait() is None && d.nanos
                == pause_nanos(*config, attempt, error@.wait()),
            AfterFailure::GiveUp => false,
        },
{
    if attempt >= config.max_attempts || attempt + 1 >= config.max_attempts || !error.is_retryable() {
        return AfterFailure::GiveUp;
    }
    AfterFailure::Wait(backoff_delay(config, attempt, error.retry_after()))
}

/// Pauses are never longer than the longest delay, and without a wish of the server they do not
/// become shorter from one attempt to the next.
pub proof fn pauses_grow(config: RetryConfig, attempt: u32, retry_after: Option<Duration>)
    requires
        attempt < u32::MAX,
    ensures
        0 <= pause_nanos(config, attempt, retry_after) <= config.max_delay.nanos,
        pause_nanos(config, attempt, None) <= pause_nanos(config, (attempt + 1) as u32, None),
{
    let a = shorter(attempt as int, 16) as nat;
    let b = shorter(attempt + 1, 16) as nat;
    lemma_pow2_pos(a);
    if a < b {
        lemma_pow2_strictly_increases(a, b);
    }
    let base = config.base_delay.nanos as int;
    let x = pow2(a) as int;
    let y = pow2(b) as int;
    assert(0 <= base * x <= base * y) by (nonlinear_arith)
        requires
            0 <= base,
            0 <= x <= y,
    ;
}

/// A request is tried at most as often as the configuration allows.
pub proof fn attempts_are_bounded(config: RetryConfig, attempt: u32, error: ErrorView)
    requires
        config.wf(),
        !gives_up(config, attempt, error),
    ensures
        attempt + 1 < config.max_attempts,
{
}

} // verus!
