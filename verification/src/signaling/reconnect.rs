//! Reconnecting after a lost connection.

use vstd::prelude::*;

verus! {

/// What has happened to a lost connection.
#[derive(Debug, Clone, Copy, PartialEq, Eq, Structural)]
pub enum ReconnectEvent {
    Lost,
    Waited,
    Opened,
    Failed,
}

/// What is to be done about a lost connection.
#[derive(Debug, Clone, Copy, PartialEq, Eq, Structural)]
pub enum ReconnectStep {
    /// Nothing more.
    Stop,
    /// Wait; the delay goes by the number of failed attempts.
    Wait { attempt: u32 },
    /// Try to open the connection.
    Open { attempt: u32 },
}

/// The number of attempts after one more; the last number is never left.
pub open spec fn next_attempt(attempt: u32) -> u32 {
    if attempt == u32::MAX {
        u32::MAX
    } else {
        (attempt + 1) as u32
    }
}

/// The next step, where `attempt` counts the failed attempts so far and
/// `current` says whether the connection's epoch still lasts.
pub open spec fn reconnect_next(event: ReconnectEvent, attempt: u32, current: bool) -> ReconnectStep {
    if !current {
        ReconnectStep::Stop
    } else {
        match event {
            ReconnectEvent::Lost => ReconnectStep::Wait { attempt },
            ReconnectEvent::Waited => ReconnectStep::Open { attempt },
            ReconnectEvent::Opened => ReconnectStep::Stop,
            ReconnectEvent::Failed => ReconnectStep::Wait { attempt: next_attempt(attempt) },
        }
    }
}

/// Decides how reconnecting goes on.
pub fn reconnect_step(event: ReconnectEvent, attempt: u32, current: bool) -> (step: ReconnectStep)
    ensures
        step == reconnect_next(event, attempt, current),
{
    if !current {
        return ReconnectStep::Stop;
    }
    match event {
        ReconnectEvent::Lost => ReconnectStep::Wait { attempt },
        ReconnectEvent::Waited => ReconnectStep::Open { attempt },
        ReconnectEvent::Opened => ReconnectStep::Stop,
        ReconnectEvent::Failed => ReconnectStep::Wait { attempt: attempt.saturating_add(1) },
    }
}

/// A delay as the host's timer takes it: no longer than the timer can count.
pub open spec fn timer_delay(millis: u128) -> int {
    if millis > u32::MAX {
        u32::MAX as int
    } else {
        millis as int
    }
}

/// A delay as the host's timer takes it: no longer than the timer can count.
pub fn reconnect_delay_ms(millis: u128) -> (delay: u32)
    ensures
        delay == (if millis > u32::MAX {
            u32::MAX as int
        } else {
            millis as int
        }),
        delay == timer_delay(millis),
{
    if millis > 4294967295 {
        4294967295
    } else {
        millis as u32
    }
}

/// Reconnecting goes on until it succeeds or the epoch ends: every failed
/// attempt is followed by another, and nothing happens in a later epoch.
pub proof fn lemma_reconnecting_is_persistent(event: ReconnectEvent, attempt: u32)
    ensures
        reconnect_next(event, attempt, false) == ReconnectStep::Stop,
        reconnect_next(ReconnectEvent::Failed, attempt, true) == (ReconnectStep::Wait {
            attempt: next_attempt(attempt),
        }),
        reconnect_next(event, attempt, true) == ReconnectStep::Stop <==> event
            == ReconnectEvent::Opened,
{
}

/// In a connection's epoch a loss is followed by a wait, a wait by an attempt of
/// the same number, and a failed attempt by a wait that counts it.
pub proof fn lemma_attempts_are_counted(attempt: u32)
    ensures
        reconnect_next(ReconnectEvent::Lost, attempt, true) == (ReconnectStep::Wait { attempt }),
        reconnect_next(ReconnectEvent::Waited, attempt, true) == (ReconnectStep::Open { attempt }),
        reconnect_next(ReconnectEvent::Failed, attempt, true) is Wait,
        attempt < u32::MAX ==> reconnect_next(
            ReconnectEvent::Failed,
            attempt,
            true,
        )->Wait_attempt == attempt + 1,
        reconnect_next(ReconnectEvent::Failed, u32::MAX, true)->Wait_attempt == u32::MAX,
        next_attempt(attempt) >= attempt,
{
}

/// A timer waits as long as it was asked to, or as long as it can.
pub proof fn lemma_timers_wait_as_long_as_they_can(millis: u128, longer: u128)
    requires
        millis <= longer,
    ensures
        timer_delay(millis) <= millis,
        timer_delay(millis) < millis ==> timer_delay(millis) == 4294967295,
        timer_delay(millis) <= timer_delay(longer),
{
}

} // verus!
