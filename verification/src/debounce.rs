//! The debounce scheduler's decision rule: drain only once a full quiet
//! period has passed since the last recorded arrival, otherwise sleep until
//! exactly that deadline and re-check.

use vstd::prelude::*;

verus! {

/// Minimum idle time, in milliseconds, after the last arrival before a
/// batch is drained.
pub const QUIET_PERIOD_MS: u64 = 100;

/// Pause, in milliseconds, after a drain before the scheduler returns to
/// waiting.
pub const POLL_INTERVAL_MS: u64 = 50;

/// What the waiting scheduler does next.
#[derive(Clone, Copy, Debug, PartialEq, Eq, Structural)]
pub enum SchedulerAction {
    /// Sleep until `deadline_ms`, then re-evaluate (new arrivals may have
    /// moved the deadline).
    SleepUntil { deadline_ms: u64 },
    /// The quiet period has elapsed: drain the buffer now.
    Drain,
}

/// The decision in the waiting state, given the clock and the last recorded
/// arrival: `None` only when the deadline cannot be represented (a fatal
/// arithmetic overflow, surfaced instead of a panic).
pub open spec fn next_action_spec(now_ms: u64, last_activity_ms: u64) -> Option<SchedulerAction> {
    if last_activity_ms + QUIET_PERIOD_MS > u64::MAX {
        None
    } else if now_ms < last_activity_ms + QUIET_PERIOD_MS {
        Some(SchedulerAction::SleepUntil { deadline_ms: (last_activity_ms + QUIET_PERIOD_MS) as u64 })
    } else {
        Some(SchedulerAction::Drain)
    }
}

/// Decides `next_action_spec`.
pub fn next_action(now_ms: u64, last_activity_ms: u64) -> (r: Option<SchedulerAction>)
    ensures
        r == next_action_spec(now_ms, last_activity_ms),
{
    match last_activity_ms.checked_add(QUIET_PERIOD_MS) {
        None => None,
        Some(deadline_ms) => if now_ms < deadline_ms {
            Some(SchedulerAction::SleepUntil { deadline_ms })
        } else {
            Some(SchedulerAction::Drain)
        },
    }
}

/// Debounce quiescence: while arrivals keep coming within the quiet period
/// the scheduler never drains — it sleeps until the deadline the latest
/// arrival set — and whenever it does drain, at least a full quiet period
/// has passed since the last recorded arrival.
pub proof fn lemma_debounce_quiescence(now_ms: u64, last_activity_ms: u64)
    ensures
        now_ms < last_activity_ms + QUIET_PERIOD_MS ==> next_action_spec(now_ms, last_activity_ms)
            != Some(SchedulerAction::Drain),
        next_action_spec(now_ms, last_activity_ms) == Some(SchedulerAction::Drain) ==> now_ms
            - last_activity_ms >= QUIET_PERIOD_MS,
        next_action_spec(now_ms, last_activity_ms) matches Some(
            SchedulerAction::SleepUntil { deadline_ms },
        ) ==> deadline_ms == last_activity_ms + QUIET_PERIOD_MS,
{
}

} // verus!
