//! What a connection request from a peer leads to.

use vstd::prelude::*;

use crate::types::ConnectionState;

verus! {

#[derive(Debug, Clone, Copy, PartialEq, Eq, Structural)]
pub enum RequestAction {
    Ignore,
    CleanupAndConnect,
    Connect,
}

/// What is known about the requesting peer.
#[derive(Debug, Clone, Copy)]
pub struct RequestState {
    pub state: Option<ConnectionState>,
    pub peer_exists: bool,
    pub has_open_data_channel: bool,
    pub has_attempt: bool,
    /// The request comes from a newer session of the peer than the one the
    /// existing connection belongs to.
    pub remote_restarted: bool,
}

/// Whether the connection at hand is in use or being set up.
pub open spec fn session_is_active(snapshot: RequestState) -> bool {
    match snapshot.state {
        Some(ConnectionState::Connected) => snapshot.peer_exists && snapshot.has_open_data_channel,
        Some(ConnectionState::Connecting) => snapshot.has_attempt,
        Some(ConnectionState::Reconnecting) => snapshot.has_attempt,
        _ => false,
    }
}

/// A restart outranks everything that is known of the old session.
pub open spec fn request_action(snapshot: RequestState) -> RequestAction {
    if snapshot.remote_restarted {
        RequestAction::CleanupAndConnect
    } else if session_is_active(snapshot) {
        RequestAction::Ignore
    } else if snapshot.state is None || snapshot.state == Some(ConnectionState::Disconnected) {
        RequestAction::Connect
    } else {
        RequestAction::CleanupAndConnect
    }
}

pub fn request_action_for_snapshot(snapshot: RequestState) -> (action: RequestAction)
    ensures
        action == request_action(snapshot),
{
    if snapshot.remote_restarted {
        return RequestAction::CleanupAndConnect;
    }
    match snapshot.state {
        Some(ConnectionState::Connected) => {
            if snapshot.peer_exists && snapshot.has_open_data_channel {
                RequestAction::Ignore
            } else {
                RequestAction::CleanupAndConnect
            }
        },
        Some(ConnectionState::Connecting) | Some(ConnectionState::Reconnecting) => {
            if snapshot.has_attempt {
                RequestAction::Ignore
            } else {
                RequestAction::CleanupAndConnect
            }
        },
        Some(ConnectionState::Failed) => RequestAction::CleanupAndConnect,
        Some(ConnectionState::Disconnected) | None => RequestAction::Connect,
    }
}

/// A request is ignored only where a session is at work: a connection that is up
/// with a peer and an open channel, or one that is coming up with an attempt
/// under way. A restarted remote is never ignored.
pub proof fn lemma_requests_are_ignored_only_for_sessions_at_work(snapshot: RequestState)
    ensures
        request_action(snapshot) == RequestAction::Ignore <==> {
            &&& !snapshot.remote_restarted
            &&& {
                ||| snapshot.state == Some(ConnectionState::Connected) && snapshot.peer_exists
                    && snapshot.has_open_data_channel
                ||| snapshot.state == Some(ConnectionState::Connecting) && snapshot.has_attempt
                ||| snapshot.state == Some(ConnectionState::Reconnecting) && snapshot.has_attempt
            }
        },
        snapshot.remote_restarted ==> request_action(snapshot) == RequestAction::CleanupAndConnect,
{
}

/// A request that is not ignored connects, and what is left of an old session is
/// cleaned up first: there is nothing to clean up exactly where nothing is on
/// record, or only that the connection was ended.
pub proof fn lemma_requests_clean_up_what_is_left(snapshot: RequestState)
    requires
        !snapshot.remote_restarted,
    ensures
        request_action(snapshot) == RequestAction::Connect <==> snapshot.state is None
            || snapshot.state == Some(ConnectionState::Disconnected),
        snapshot.state == Some(ConnectionState::Failed) ==> request_action(snapshot)
            == RequestAction::CleanupAndConnect,
{
}

} // verus!
