//! Choice between the signaling server and the overlay.

use vstd::prelude::*;

use crate::table::Table;
use crate::types::{ConnectionState, ErrorModel, MistError, NodeId};

verus! {

/// Where signaling messages can be handed to. The host keeps the two ways under
/// numbers.
pub struct SignalingRelay {
    pub websocket: Option<u64>,
    pub overlay: Option<u64>,
    pub connection_states: Option<Table<NodeId, ConnectionState>>,
}

/// Whether the relay sees a connection to a node that is up.
pub open spec fn sees_connection(
    states: Option<Table<NodeId, ConnectionState>>,
    target: Seq<char>,
) -> bool {
    match states {
        Some(states) => states@.dom().contains(target) && states@[target]
            == ConnectionState::Connected,
        None => false,
    }
}

/// The way that a message takes: the server's own messages and broadcasts only
/// go to the server, and other messages take the overlay first where the node is
/// connected and the server first where it is not.
pub open spec fn delegate_for(relay: SignalingRelay, to: Seq<char>) -> Option<u64> {
    if to == "server"@ || to.len() == 0 {
        relay.websocket
    } else if sees_connection(relay.connection_states, to) {
        if relay.overlay is Some {
            relay.overlay
        } else {
            relay.websocket
        }
    } else if relay.websocket is Some {
        relay.websocket
    } else {
        relay.overlay
    }
}

impl SignalingRelay {
    pub fn new() -> (relay: Self)
        ensures
            relay.websocket is None,
            relay.overlay is None,
            relay.connection_states is None,
    {
        SignalingRelay { websocket: None, overlay: None, connection_states: None }
    }

    pub fn set_delegate(&mut self, delegate: u64)
        ensures
            *final(self) == (SignalingRelay { websocket: Some(delegate), ..*old(self) }),
    {
        self.websocket = Some(delegate);
    }

    pub fn set_overlay(&mut self, delegate: u64)
        ensures
            *final(self) == (SignalingRelay { overlay: Some(delegate), ..*old(self) }),
    {
        self.overlay = Some(delegate);
    }

    pub fn set_connection_states(&mut self, states: Table<NodeId, ConnectionState>)
        ensures
            *final(self) == (SignalingRelay { connection_states: Some(states), ..*old(self) }),
    {
        self.connection_states = Some(states);
    }

    fn target_state(&self, target: &NodeId) -> (state: Option<ConnectionState>)
        ensures
            (state == Some(ConnectionState::Connected)) == sees_connection(
                self.connection_states,
                target@,
            ),
    {
        match &self.connection_states {
            Some(states) => match states.get(target) {
                Some(state) => Some(*state),
                None => None,
            },
            None => None,
        }
    }

    /// Chooses the way for a message.
    pub fn send_signaling(&self, to: &NodeId) -> (delegate: Result<u64, MistError>)
        ensures
            match delegate_for(*self, to@) {
                Some(way) => delegate is Ok && delegate->Ok_0 == way,
                None => delegate is Err && delegate->Err_0@ == ErrorModel::Internal(
                    "SignalingRelay: no delegate set"@,
                ),
            },
    {
        let way: Option<u64> = if to.is_server() || to.is_broadcast() {
            self.websocket
        } else if self.target_state(to) == Some(ConnectionState::Connected) {
            if self.overlay.is_some() {
                self.overlay
            } else {
                self.websocket
            }
        } else if self.websocket.is_some() {
            self.websocket
        } else {
            self.overlay
        };
        match way {
            Some(way) => Ok(way),
            None => Err(MistError::Internal("SignalingRelay: no delegate set".to_string())),
        }
    }
}

/// With both ways there, a message between nodes takes the overlay if and only
/// if its receiver is connected, and a message is refused only where there is no
/// way for it at all.
pub proof fn lemma_overlay_only_for_connected(relay: SignalingRelay, to: Seq<char>)
    requires
        to != "server"@,
        to.len() > 0,
    ensures
        relay.websocket is Some && relay.overlay is Some && relay.websocket != relay.overlay ==> (
        delegate_for(relay, to) == relay.overlay <==> sees_connection(
            relay.connection_states,
            to,
        )),
        delegate_for(relay, to) is None <==> relay.websocket is None && relay.overlay is None,
{
}

/// A connection is seen exactly if the known states say that it is up.
pub proof fn lemma_connections_are_seen_by_their_state(
    states: Table<NodeId, ConnectionState>,
    target: Seq<char>,
)
    ensures
        !sees_connection(None, target),
        !states@.dom().contains(target) ==> !sees_connection(Some(states), target),
        states@.dom().contains(target) ==> (sees_connection(Some(states), target)
            <==> states@[target] == ConnectionState::Connected),
{
}

/// A message to the server or to everybody never takes the overlay. Any other
/// message takes the overlay first where its receiver is connected and the
/// server first where it is not, and the other way where the first is missing.
pub proof fn lemma_messages_take_the_way_that_is_there(relay: SignalingRelay, to: Seq<char>)
    ensures
        to == "server"@ || to == Seq::<char>::empty() ==> delegate_for(relay, to) == relay.websocket,
        to != "server"@ && to.len() > 0 ==> {
            &&& relay.overlay is None ==> delegate_for(relay, to) == relay.websocket
            &&& relay.websocket is None ==> delegate_for(relay, to) == relay.overlay
            &&& relay.overlay is Some && sees_connection(relay.connection_states, to)
                ==> delegate_for(relay, to) == relay.overlay
            &&& relay.websocket is Some && !sees_connection(relay.connection_states, to)
                ==> delegate_for(relay, to) == relay.websocket
        },
{
}

} // verus!
