//! Peer connections over WebRTC data channels.
//!
//! [`WasmWebRtcTransport`] keeps what is known about every peer of a room. The
//! peer connections themselves live with the host, which names each of them by
//! a handle, reports what happens to them and carries out what is decided here.

pub mod backpressure;
pub mod candidate_delivery;
pub mod connection_laws;
pub mod ice_config;
pub mod ice_restart;
pub mod isolation;
pub mod laws;
pub mod lifecycle;
pub mod media;
pub mod media_laws;
pub mod message_guard;
pub mod messages;
pub mod negotiation;
pub mod negotiation_delivery;
pub mod negotiation_laws;
pub mod offer_guard;
pub mod peer;
pub mod pending_candidates;
pub mod recovery;
pub mod request_guard;
pub mod sdp_lines;
pub mod send_queue;
pub mod sending;
pub mod sending_laws;

use vstd::prelude::*;

use crate::table::{NameSet, Table};
use crate::types::{ConnectionState, NodeId};
use candidate_delivery::{CandidateDelivery, CandidateModel};
use ice_config::IceServer;
use negotiation_delivery::{NegotiationDelivery, NegotiationModel};
use pending_candidates::PendingCandidates;

verus! {

/// How long a connection may take to come up.
pub const CONNECTION_TIMEOUT_MS: u32 = 6000;

/// How long isolation must last before the signaling session is reset.
pub const ISOLATION_RECOVERY_DELAY_MS: u32 = 3000;

/// How long an interrupted connection may take to recover.
pub const DISCONNECTED_GRACE_MS: u64 = 5000;

/// How often every session is examined.
pub const SWEEP_INTERVAL_MS: u32 = 2000;

/// What started a grace period. Only a liveness suspicion may be taken back;
/// one that ICE reported ends when ICE reports recovery.
#[derive(Debug, Clone, Copy, PartialEq, Eq, Structural)]
pub enum GraceOrigin {
    Ice,
    LivenessSuspect,
}

/// A running grace period of an interrupted connection.
#[derive(Debug, Clone, Copy, PartialEq, Eq, Structural)]
pub struct DisconnectGrace {
    /// Milliseconds on the host's monotonic clock.
    pub started_at: u64,
    pub origin: GraceOrigin,
}

/// Whether a teardown may leave the node isolated. It may not where the same
/// step rebuilds the connection: resetting the signaling session then would
/// look like another restart to the remote.
#[derive(Debug, Clone, Copy, PartialEq, Eq, Structural)]
pub enum IsolationRecovery {
    Schedule,
    Skip,
}

/// A local media track.
#[derive(Debug)]
pub struct LocalTrack {
    pub kind: String,
    pub published: bool,
}

/// What is known about the peers of a room.
pub struct WasmWebRtcTransport {
    pub local_node_id: NodeId,
    /// Handle of each peer's connection.
    pub peers: Table<NodeId, u64>,
    pub connection_states: Table<NodeId, ConnectionState>,
    /// Attempts that are not given up yet.
    pub connection_attempt_ids: Table<NodeId, u32>,
    pub pending_candidates: PendingCandidates,
    pub disconnected_since: Table<NodeId, DisconnectGrace>,
    pub room_id: String,
    pub ice_servers: Vec<IceServer>,
    pub max_connections: u32,
    pub max_message_bytes: u32,
    pub next_connection_attempt_id: u32,
    pub sweeper_started: bool,
    pub sweeper_generation: u32,
    pub isolation_recovery_epoch: u32,
    pub local_tracks: Table<String, LocalTrack>,
    /// Tracks that are attached to each peer.
    pub peer_senders: Table<NodeId, NameSet>,
    /// Peers that restarted and whose next request or offer has not come yet,
    /// with the newest epoch seen.
    pub restarted_peers: Table<NodeId, u64>,
    /// Session epoch that the held connection of a peer was built for.
    pub peer_epochs: Table<NodeId, u64>,
    pub candidate_delivery: CandidateDelivery,
    pub negotiation_delivery: NegotiationDelivery,
}

/// What a [`WasmWebRtcTransport`] knows.
#[verifier::ext_equal]
pub struct TransportModel {
    pub local_node: Seq<char>,
    pub peers: Map<Seq<char>, u64>,
    pub states: Map<Seq<char>, ConnectionState>,
    pub attempts: Map<Seq<char>, u32>,
    pub pending: Map<Seq<char>, Seq<Seq<char>>>,
    pub graces: Map<Seq<char>, DisconnectGrace>,
    pub room: Seq<char>,
    pub ice_servers: Seq<IceServer>,
    pub max_connections: u32,
    pub max_message_bytes: u32,
    pub last_attempt: u32,
    pub sweeper_started: bool,
    pub sweeper_generation: u32,
    pub recovery_epoch: u32,
    pub tracks: Map<Seq<char>, LocalTrack>,
    pub senders: Map<Seq<char>, Set<Seq<char>>>,
    pub restarted: Map<Seq<char>, u64>,
    pub epochs: Map<Seq<char>, u64>,
    pub candidates: CandidateModel,
    pub negotiations: NegotiationModel,
}

impl View for WasmWebRtcTransport {
    type V = TransportModel;

    open spec fn view(&self) -> TransportModel {
        TransportModel {
            local_node: self.local_node_id@,
            peers: self.peers@,
            states: self.connection_states@,
            attempts: self.connection_attempt_ids@,
            pending: self.pending_candidates@,
            graces: self.disconnected_since@,
            room: self.room_id@,
            ice_servers: self.ice_servers@,
            max_connections: self.max_connections,
            max_message_bytes: self.max_message_bytes,
            last_attempt: self.next_connection_attempt_id,
            sweeper_started: self.sweeper_started,
            sweeper_generation: self.sweeper_generation,
            recovery_epoch: self.isolation_recovery_epoch,
            tracks: self.local_tracks@,
            senders: self.peer_senders@.map_values(|tracks: NameSet| tracks@),
            restarted: self.restarted_peers@,
            epochs: self.peer_epochs@,
            candidates: self.candidate_delivery@,
            negotiations: self.negotiation_delivery@,
        }
    }
}

/// The counter value after `counter`; counters start over after the last one.
pub open spec fn next_count(counter: u32) -> u32 {
    if counter == u32::MAX {
        0
    } else {
        (counter + 1) as u32
    }
}

fn next_counter(counter: u32) -> (next: u32)
    ensures
        next == next_count(counter),
{
    if counter == u32::MAX {
        0
    } else {
        counter + 1
    }
}

/// A counter never keeps its value from one step to the next.
pub proof fn lemma_next_count_differs(counter: u32)
    ensures
        next_count(counter) != counter,
{
}

/// What a new transport knows.
pub open spec fn fresh_transport(local_node: Seq<char>, model: TransportModel) -> bool {
    &&& model.local_node == local_node
    &&& model.peers == Map::<Seq<char>, u64>::empty()
    &&& model.states == Map::<Seq<char>, ConnectionState>::empty()
    &&& model.attempts == Map::<Seq<char>, u32>::empty()
    &&& model.pending == Map::<Seq<char>, Seq<Seq<char>>>::empty()
    &&& model.graces == Map::<Seq<char>, DisconnectGrace>::empty()
    &&& model.room == "lobby"@
    &&& model.ice_servers.len() == 1
    &&& model.ice_servers[0].urls@.len() == 1
    &&& model.ice_servers[0].urls@[0]@ == "stun:stun.l.google.com:19302"@
    &&& model.ice_servers[0].username is None
    &&& model.ice_servers[0].credential is None
    &&& model.max_connections == 30
    &&& model.max_message_bytes == 65536
    &&& model.last_attempt == 1
    &&& !model.sweeper_started
    &&& model.sweeper_generation == 0
    &&& model.recovery_epoch == 0
    &&& model.tracks == Map::<Seq<char>, LocalTrack>::empty()
    &&& model.senders == Map::<Seq<char>, Set<Seq<char>>>::empty()
    &&& model.restarted == Map::<Seq<char>, u64>::empty()
    &&& model.epochs == Map::<Seq<char>, u64>::empty()
    &&& model.candidates == (CandidateModel {
        pending: Map::empty(),
        received: Map::empty(),
        ack_pending: Map::empty(),
    })
    &&& model.negotiations == (NegotiationModel { pending: Map::empty(), received: Map::empty() })
}

// --- Construction and configuration ---
impl WasmWebRtcTransport {
    pub fn new(local_node_id: NodeId) -> (transport: Self)
        ensures
            fresh_transport(local_node_id@, transport@),
    {
        let mut urls: Vec<String> = Vec::new();
        urls.push("stun:stun.l.google.com:19302".to_string());
        let mut ice_servers: Vec<IceServer> = Vec::new();
        ice_servers.push(IceServer { urls, username: None, credential: None });
        let transport = WasmWebRtcTransport {
            local_node_id,
            peers: Table::new(),
            connection_states: Table::new(),
            connection_attempt_ids: Table::new(),
            pending_candidates: PendingCandidates::default(),
            disconnected_since: Table::new(),
            room_id: "lobby".to_string(),
            ice_servers,
            max_connections: 30,
            max_message_bytes: 65536,
            next_connection_attempt_id: 1,
            sweeper_started: false,
            sweeper_generation: 0,
            isolation_recovery_epoch: 0,
            local_tracks: Table::new(),
            peer_senders: Table::new(),
            restarted_peers: Table::new(),
            peer_epochs: Table::new(),
            candidate_delivery: CandidateDelivery::default(),
            negotiation_delivery: NegotiationDelivery::default(),
        };
        assert(transport@.senders =~= Map::empty());
        transport
    }

    pub fn set_room_id(&mut self, room_id: String)
        ensures
            final(self)@ == (TransportModel { room: room_id@, ..old(self)@ }),
    {
        self.room_id = room_id;
    }

    pub fn set_max_connections(&mut self, max: u32)
        ensures
            final(self)@ == (TransportModel { max_connections: max, ..old(self)@ }),
    {
        self.max_connections = max;
    }

    /// Sets the size above which a message is refused.
    pub fn set_max_message_bytes(&mut self, max: u32)
        ensures
            final(self)@ == (TransportModel { max_message_bytes: max, ..old(self)@ }),
    {
        self.max_message_bytes = max;
    }

    /// Sets the servers for connections that are created from now on.
    pub fn set_ice_servers(&mut self, servers: Vec<IceServer>)
        ensures
            final(self)@ == (TransportModel { ice_servers: servers@, ..old(self)@ }),
    {
        self.ice_servers = servers;
    }
}

/// A new transport waits in the lobby, knows one public server, and counts from
/// the start; counting goes up by one and starts over after the last number.
pub proof fn lemma_new_transports_know_nobody(
    local_node: Seq<char>,
    model: TransportModel,
    counter: u32,
)
    requires
        fresh_transport(local_node, model),
    ensures
        model.local_node == local_node,
        model.room == "lobby"@,
        model.max_connections == 30,
        model.max_message_bytes == 65536,
        model.last_attempt == 1,
        model.ice_servers.len() == 1,
        model.peers.dom() == Set::<Seq<char>>::empty(),
        model.states.dom() == Set::<Seq<char>>::empty(),
        model.attempts.dom() == Set::<Seq<char>>::empty(),
        model.graces.dom() == Set::<Seq<char>>::empty(),
        !model.sweeper_started,
        counter < u32::MAX ==> next_count(counter) == counter + 1,
        next_count(u32::MAX) == 0,
{
}

} // verus!
