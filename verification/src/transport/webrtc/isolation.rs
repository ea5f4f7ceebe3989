//! Whether the node has lost every peer.

use vstd::prelude::*;

use crate::types::{is_live, ConnectionState};

verus! {

/// Whether no connection is up or coming up and no attempt is in flight.
pub open spec fn isolated(states: Seq<ConnectionState>, in_flight_attempts: nat) -> bool {
    in_flight_attempts == 0 && forall|i: int|
        0 <= i < states.len() ==> !is_live(#[trigger] states[i])
}

/// A room without any tracked peer counts as isolated; one with an attempt
/// under way never does, whatever the states say.
pub fn is_isolated(states: &[ConnectionState], in_flight_attempts: usize) -> (answer: bool)
    ensures
        answer == isolated(states@, in_flight_attempts as nat),
{
    if in_flight_attempts > 0 {
        return false;
    }
    let mut i: usize = 0;
    while i < states.len()
        invariant
            i <= states@.len(),
            forall|j: int| 0 <= j < i ==> !is_live(#[trigger] states@[j]),
        decreases states@.len() - i,
    {
        if states[i].is_live() {
            assert(is_live(states@[i as int]));
            return false;
        }
        i = i + 1;
    }
    true
}

/// One connection that is not gone for good, or one attempt, is enough not to be
/// isolated, and without any the node is isolated.
pub proof fn lemma_one_live_peer_is_enough(
    states: Seq<ConnectionState>,
    state: ConnectionState,
    in_flight_attempts: nat,
)
    ensures
        isolated(Seq::empty(), in_flight_attempts) <==> in_flight_attempts == 0,
        isolated(states.push(state), in_flight_attempts) <==> isolated(states, in_flight_attempts)
            && (state == ConnectionState::Disconnected || state == ConnectionState::Failed),
{
    let more = states.push(state);
    if isolated(more, in_flight_attempts) {
        assert forall|i: int| 0 <= i < states.len() implies !is_live(#[trigger] states[i]) by {
            assert(more[i] == states[i]);
        }
        assert(more[states.len() as int] == state);
    }
    if isolated(states, in_flight_attempts) && !is_live(state) {
        assert forall|i: int| 0 <= i < more.len() implies !is_live(#[trigger] more[i]) by {
            if i < states.len() {
                assert(more[i] == states[i]);
            }
        }
    }
}

} // verus!
