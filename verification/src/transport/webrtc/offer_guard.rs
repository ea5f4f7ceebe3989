//! What an inbound offer leads to.

use vstd::prelude::*;

use crate::types::{is_live, ConnectionState};

verus! {

/// Signaling state of the peer that an offer arrived for.
#[derive(Debug, Clone, Copy, PartialEq, Eq, Structural)]
pub enum SignalingSnapshot {
    Stable,
    HaveLocalOffer,
    Other,
}

#[derive(Debug, Clone, Copy, PartialEq, Eq, Structural)]
pub enum OfferAction {
    /// No slot is left for a new connection.
    IgnoreAtCapacity,
    /// The remote restarted: the existing connection belongs to a session that
    /// is gone, so it is closed and a new one is built for this offer.
    ReplacePeer,
    /// A renegotiation of the existing connection.
    ApplyInPlace,
    /// Both sides made an offer at once: ours is given up for theirs.
    YieldAndApply,
    /// A signaling state in between; the offer goes unanswered this time.
    DeferTransient,
    /// A new connection.
    Accept { newly_reserved: bool },
}

#[derive(Debug, Clone, Copy, PartialEq, Eq, Structural)]
pub enum OfferCreateFailureRollback {
    RemoveReservation,
    KeepExistingState,
}

/// How many of the states occupy a connection slot.
pub open spec fn live_count(states: Seq<ConnectionState>) -> nat {
    states.filter(|state: ConnectionState| is_live(state)).len()
}

pub fn active_connection_count(states: &[ConnectionState]) -> (count: usize)
    ensures
        count == live_count(states@),
{
    let mut count: usize = 0;
    let mut i: usize = 0;
    let ghost live = |state: ConnectionState| is_live(state);
    proof {
        assert(states@.take(0).filter(live) =~= Seq::empty()) by {
            reveal(Seq::filter);
        }
    }
    while i < states.len()
        invariant
            i <= states@.len(),
            count <= i,
            live == (|state: ConnectionState| is_live(state)),
            count == states@.take(i as int).filter(live).len(),
        decreases states@.len() - i,
    {
        proof {
            assert(states@.take(i + 1).drop_last() =~= states@.take(i as int));
            reveal(Seq::filter);
        }
        if states[i].is_live() {
            count = count + 1;
        }
        i = i + 1;
    }
    assert(states@.take(i as int) =~= states@);
    count
}

pub open spec fn offer_action(
    peer_exists: bool,
    remote_restarted: bool,
    state: Option<ConnectionState>,
    active_connections: nat,
    max_connections: nat,
    signaling_state: SignalingSnapshot,
) -> OfferAction {
    if peer_exists {
        if remote_restarted {
            OfferAction::ReplacePeer
        } else {
            match signaling_state {
                SignalingSnapshot::Stable => OfferAction::ApplyInPlace,
                SignalingSnapshot::HaveLocalOffer => OfferAction::YieldAndApply,
                SignalingSnapshot::Other => OfferAction::DeferTransient,
            }
        }
    } else if state is Some {
        OfferAction::Accept { newly_reserved: false }
    } else if active_connections >= max_connections {
        OfferAction::IgnoreAtCapacity
    } else {
        OfferAction::Accept { newly_reserved: true }
    }
}

/// Decides on an inbound offer. An offer of our own always yields to theirs:
/// the other side may be unable to take its offer back.
pub fn offer_action_for_snapshot(
    peer_exists: bool,
    remote_restarted: bool,
    state: Option<ConnectionState>,
    active_connections: usize,
    max_connections: usize,
    signaling_state: SignalingSnapshot,
) -> (action: OfferAction)
    ensures
        action == offer_action(
            peer_exists,
            remote_restarted,
            state,
            active_connections as nat,
            max_connections as nat,
            signaling_state,
        ),
{
    if peer_exists {
        if remote_restarted {
            return OfferAction::ReplacePeer;
        }
        if signaling_state == SignalingSnapshot::Stable {
            return OfferAction::ApplyInPlace;
        }
        if signaling_state == SignalingSnapshot::HaveLocalOffer {
            return OfferAction::YieldAndApply;
        }
        return OfferAction::DeferTransient;
    }
    if state.is_none() {
        if active_connections >= max_connections {
            return OfferAction::IgnoreAtCapacity;
        }
        return OfferAction::Accept { newly_reserved: true };
    }
    OfferAction::Accept { newly_reserved: false }
}

/// An offer for an existing peer is resolved on that peer or deferred; it is
/// never accepted as a new connection.
pub proof fn lemma_existing_peer_is_never_accepted_anew(
    remote_restarted: bool,
    state: Option<ConnectionState>,
    active_connections: nat,
    max_connections: nat,
    signaling_state: SignalingSnapshot,
)
    ensures
        !(offer_action(
            true,
            remote_restarted,
            state,
            active_connections,
            max_connections,
            signaling_state,
        ) is Accept),
{
}

/// A slot is reserved only while one is free, whatever the remote claims about
/// a restart.
pub proof fn lemma_reservations_respect_capacity(
    remote_restarted: bool,
    state: Option<ConnectionState>,
    active_connections: nat,
    max_connections: nat,
    signaling_state: SignalingSnapshot,
)
    ensures
        offer_action(
            false,
            remote_restarted,
            state,
            active_connections,
            max_connections,
            signaling_state,
        ) == (OfferAction::Accept { newly_reserved: true }) ==> active_connections + 1
            <= max_connections,
{
}

pub open spec fn rollback_for(newly_reserved: bool) -> OfferCreateFailureRollback {
    if newly_reserved {
        OfferCreateFailureRollback::RemoveReservation
    } else {
        OfferCreateFailureRollback::KeepExistingState
    }
}

pub fn create_failure_rollback(newly_reserved: bool) -> (rollback: OfferCreateFailureRollback)
    ensures
        rollback == rollback_for(newly_reserved),
{
    if newly_reserved {
        OfferCreateFailureRollback::RemoveReservation
    } else {
        OfferCreateFailureRollback::KeepExistingState
    }
}

/// An offer is refused for lack of a slot only where there is none: with no
/// connection held for the sender, an offer below the limit is always accepted,
/// whatever is recorded of the sender and whether or not it restarted. At the
/// limit only senders that are not on record are refused.
pub proof fn lemma_offers_are_refused_only_without_a_slot(
    peer_exists: bool,
    remote_restarted: bool,
    state: Option<ConnectionState>,
    active_connections: nat,
    max_connections: nat,
    signaling_state: SignalingSnapshot,
)
    ensures
        ({
            let action = offer_action(
                peer_exists,
                remote_restarted,
                state,
                active_connections,
                max_connections,
                signaling_state,
            );
            &&& action == OfferAction::IgnoreAtCapacity ==> !peer_exists && active_connections
                >= max_connections
            &&& !peer_exists && active_connections < max_connections ==> action is Accept
            &&& !peer_exists && state is Some ==> action is Accept
            &&& !peer_exists && state is None && active_connections >= max_connections ==> action
                == OfferAction::IgnoreAtCapacity
        }),
{
}

/// A slot is reserved for an accepted sender exactly if nothing is recorded of
/// it: a sender that is on record keeps the record it has.
pub proof fn lemma_slots_are_reserved_for_unknown_senders(
    remote_restarted: bool,
    state: Option<ConnectionState>,
    active_connections: nat,
    max_connections: nat,
    signaling_state: SignalingSnapshot,
)
    ensures
        offer_action(
            false,
            remote_restarted,
            state,
            active_connections,
            max_connections,
            signaling_state,
        ) matches OfferAction::Accept { newly_reserved } ==> (newly_reserved <==> state is None),
{
}

/// On a connection that is held, neither the limit nor the recorded state
/// matters. A restarted remote gets a new connection. Otherwise the offer is
/// taken on the old one wherever that can be done: at rest, and also against an
/// offer of our own, which then yields; only in between it goes unanswered.
pub proof fn lemma_held_connections_take_offers(
    remote_restarted: bool,
    state: Option<ConnectionState>,
    other_state: Option<ConnectionState>,
    active_connections: nat,
    other_active: nat,
    max_connections: nat,
    other_max: nat,
    signaling_state: SignalingSnapshot,
)
    ensures
        ({
            let action = offer_action(
                true,
                remote_restarted,
                state,
                active_connections,
                max_connections,
                signaling_state,
            );
            &&& action == offer_action(
                true,
                remote_restarted,
                other_state,
                other_active,
                other_max,
                signaling_state,
            )
            &&& action == OfferAction::ReplacePeer <==> remote_restarted
            &&& !remote_restarted ==> {
                &&& action == OfferAction::DeferTransient <==> signaling_state
                    != SignalingSnapshot::Stable && signaling_state
                    != SignalingSnapshot::HaveLocalOffer
                &&& action == OfferAction::YieldAndApply <==> signaling_state
                    == SignalingSnapshot::HaveLocalOffer
                &&& action == OfferAction::ApplyInPlace <==> signaling_state
                    == SignalingSnapshot::Stable
            }
        }),
{
}

/// Connections are counted one by one: a list counts as its parts do, and one
/// connection counts as one exactly if it is not gone for good.
pub proof fn lemma_live_connections_add_up(states: Seq<ConnectionState>, state: ConnectionState)
    ensures
        live_count(Seq::<ConnectionState>::empty()) == 0,
        live_count(states.push(state)) == live_count(states) + if state
            == ConnectionState::Disconnected || state == ConnectionState::Failed {
            0nat
        } else {
            1nat
        },
{
    reveal(Seq::filter);
    assert(states.push(state).drop_last() =~= states);
}

/// What an offer reserved, and nothing else, is given back when no connection
/// can be built for it.
pub proof fn lemma_only_reservations_are_given_back(newly_reserved: bool)
    ensures
        rollback_for(newly_reserved) == OfferCreateFailureRollback::RemoveReservation
            <==> newly_reserved,
        rollback_for(newly_reserved) != OfferCreateFailureRollback::RemoveReservation ==> rollback_for(
            newly_reserved,
        ) == OfferCreateFailureRollback::KeepExistingState,
{
}

} // verus!
