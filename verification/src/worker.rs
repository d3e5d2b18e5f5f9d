//! The background worker that closes expired rounds: how long it waits
//! between attempts.

use vstd::prelude::*;

verus! {

/// How an attempt to claim and process an expired round went.
#[derive(Debug, Clone, Copy, PartialEq, Eq, Structural)]
pub enum ClaimOutcome {
    /// A round was claimed and processed.
    Processed,
    /// No round had expired.
    Idle,
    /// Claiming failed, or the processing task panicked.
    Failed,
}

/// What the worker does before its next attempt.
#[derive(Debug, Clone, Copy, PartialEq, Eq, Structural)]
pub enum WorkerWait {
    /// Try again at once.
    Immediately,
    /// Wait this many milliseconds (or until shutdown).
    Millis(u64),
    /// Wait this many seconds (or until shutdown).
    Seconds(u64),
}

/// The longest back-off after repeated failures, in seconds.
pub const MAX_BACKOFF_SECS: u64 = 16;

/// How long the worker sleeps when nothing expired, in milliseconds.
pub const IDLE_SLEEP_MILLIS: u64 = 500;

/// How long a claim lasts before another worker may take the round over.
pub const CLAIM_LEASE_SECS: i64 = 30;

/// The back-off after an attempt: reset to one second unless it failed, when
/// it doubles up to sixteen seconds.
pub open spec fn next_backoff_spec(backoff: u64, outcome: ClaimOutcome) -> u64 {
    match outcome {
        ClaimOutcome::Failed => if 2 * backoff < 16 {
            (2 * backoff) as u64
        } else {
            16
        },
        _ => 1,
    }
}

/// The worker's next back-off and what it waits before trying again: nothing
/// after processing a round, half a second when idle, and the new back-off
/// after a failure.
pub fn next_attempt(backoff_secs: u64, outcome: ClaimOutcome) -> (r: (u64, WorkerWait))
    ensures
        r.0 == next_backoff_spec(backoff_secs, outcome),
        r.1 == match outcome {
            ClaimOutcome::Processed => WorkerWait::Immediately,
            ClaimOutcome::Idle => WorkerWait::Millis(IDLE_SLEEP_MILLIS),
            ClaimOutcome::Failed => WorkerWait::Seconds(r.0),
        },
{
    match outcome {
        ClaimOutcome::Processed => (1, WorkerWait::Immediately),
        ClaimOutcome::Idle => (1, WorkerWait::Millis(IDLE_SLEEP_MILLIS)),
        ClaimOutcome::Failed => {
            let b = if backoff_secs >= 8 {
                MAX_BACKOFF_SECS
            } else {
                backoff_secs * 2
            };
            (b, WorkerWait::Seconds(b))
        },
    }
}

/// The back-off stays between one and sixteen seconds, whatever happens,
/// once it starts there.
pub proof fn lemma_backoff_bounded(backoff: u64, outcome: ClaimOutcome)
    requires
        1 <= backoff <= MAX_BACKOFF_SECS,
    ensures
        1 <= next_backoff_spec(backoff, outcome) <= MAX_BACKOFF_SECS,
{
}

/// After repeated failures the back-off reaches sixteen seconds and stays.
pub proof fn lemma_backoff_saturates(backoff: u64)
    requires
        8 <= backoff,
    ensures
        next_backoff_spec(backoff, ClaimOutcome::Failed) == MAX_BACKOFF_SECS,
{
}

/// The oldest claim instant that still holds at `now`: claims made before it
/// are stale and may be taken over.
pub fn stale_claim_cutoff(now: i64) -> (t: i64)
    requires
        now - CLAIM_LEASE_SECS * 1_000_000 >= i64::MIN,
    ensures
        t == now - CLAIM_LEASE_SECS * 1_000_000,
{
    now - CLAIM_LEASE_SECS * 1_000_000
}

} // verus!
