//! Connection state after ICE has come back.

use vstd::prelude::*;

use crate::types::ConnectionState;

verus! {

/// Which ICE state reports the recovery.
#[derive(Debug, Clone, Copy, PartialEq, Eq, Structural)]
pub enum IceRecoveryTrigger {
    Connected,
    Completed,
}

pub open spec fn recovered_state(has_open_channel: bool) -> ConnectionState {
    if has_open_channel {
        ConnectionState::Connected
    } else {
        ConnectionState::Connecting
    }
}

/// Channels that survived the interruption do not report that they opened, so
/// an open channel means connected; without one the channel's own open event
/// completes the connection. Both triggers lead to the same state.
pub fn state_after_ice_recovery(
    _trigger: IceRecoveryTrigger,
    has_open_channel: bool,
) -> (state: ConnectionState)
    ensures
        state == recovered_state(has_open_channel),
{
    if has_open_channel {
        ConnectionState::Connected
    } else {
        ConnectionState::Connecting
    }
}

/// A recovered connection counts as connected exactly if a message can be sent
/// on it; either way it stays on its way up and keeps its slot.
pub proof fn lemma_recovery_needs_an_open_channel(has_open_channel: bool)
    ensures
        recovered_state(has_open_channel) == ConnectionState::Connected <==> has_open_channel,
        recovered_state(has_open_channel) == ConnectionState::Connecting <==> !has_open_channel,
{
}

} // verus!
