//! When a broken ICE path is worth a restart offer.

use vstd::prelude::*;

verus! {

/// Whether a restart is offered.
pub open spec fn offers_restart(
    is_new_grace: bool,
    is_initiator: bool,
    signaling_is_stable: bool,
) -> bool {
    is_new_grace && is_initiator && signaling_is_stable
}

/// A restart is offered once per grace period, by the initiator alone, and
/// only while no other negotiation is in flight.
pub fn should_trigger_ice_restart(
    is_new_grace: bool,
    is_initiator: bool,
    signaling_is_stable: bool,
) -> (restart: bool)
    ensures
        restart == (is_new_grace && is_initiator && signaling_is_stable),
        restart == offers_restart(is_new_grace, is_initiator, signaling_is_stable),
{
    is_new_grace && is_initiator && signaling_is_stable
}

/// The initiator offers a restart when a grace period begins in a quiet moment;
/// the other side never does, nor does a grace period that goes on or a
/// negotiation that is in flight lead to one.
pub proof fn lemma_restarts_are_offered_once_and_by_one_side(
    is_new_grace: bool,
    is_initiator: bool,
    signaling_is_stable: bool,
)
    ensures
        offers_restart(true, true, true),
        !offers_restart(false, is_initiator, signaling_is_stable),
        !offers_restart(is_new_grace, false, signaling_is_stable),
        !offers_restart(is_new_grace, is_initiator, false),
{
}

} // verus!
