//! How a message finds its channel.

use vstd::prelude::*;

use super::backpressure::{backpressure_action, BackpressureAction};
use super::lifecycle::{live_nodes, stored};
use super::message_guard::{check_message_size, SizeCheck};
use super::peer::ChannelState;
use super::send_queue::should_queue_reliable_send;
use super::{TransportModel, WasmWebRtcTransport};
use crate::table::{distinct_keys, entries_map, lemma_entries_at, lemma_entries_dom, TableKey};
use crate::types::{is_live, ConnectionState, DeliveryMethod, ErrorModel, MistError, NodeId};

verus! {

/// Bytes in a channel's buffer above which it counts as congested.
pub const BUFFERED_AMOUNT_HIGH_WATERMARK: u32 = 1024 * 1024;

/// Bytes in a channel's buffer at which it counts as drained.
pub const BUFFERED_AMOUNT_LOW_THRESHOLD: u32 = 256 * 1024;

/// How long a reliable message waits for a congested channel.
pub const BUFFERED_AMOUNT_WAIT_TIMEOUT_MS: u32 = 3000;

/// A channel as the host sees it.
#[derive(Debug, Clone, Copy, PartialEq, Eq, Structural)]
pub struct ChannelSnapshot {
    pub state: ChannelState,
    pub buffered_amount: u32,
}

/// The channels of a peer; a channel may be missing.
#[derive(Debug, Clone, Copy, PartialEq, Eq, Structural)]
pub struct ChannelSnapshots {
    pub reliable: Option<ChannelSnapshot>,
    pub unreliable_ordered: Option<ChannelSnapshot>,
    pub unreliable: Option<ChannelSnapshot>,
}

/// What becomes of a message.
#[derive(Debug)]
pub enum SendPlan {
    /// It goes out on the channel of this method.
    Send { channel: DeliveryMethod, near_limit: bool },
    /// It goes out once the channel of this method has drained.
    WaitThenSend { channel: DeliveryMethod, near_limit: bool },
    /// It waits for the peer to come back.
    Defer { near_limit: bool },
    /// It fails.
    Fail(MistError),
}

/// The channel that carries a delivery method. An unreliable ordered message
/// may fall back to the unreliable channel.
pub open spec fn chosen_channel(
    channels: ChannelSnapshots,
    method: DeliveryMethod,
) -> Option<(DeliveryMethod, ChannelSnapshot)> {
    match method {
        DeliveryMethod::ReliableOrdered => match channels.reliable {
            Some(channel) => Some((method, channel)),
            None => None,
        },
        DeliveryMethod::UnreliableOrdered => match channels.unreliable_ordered {
            Some(channel) => Some((method, channel)),
            None => match channels.unreliable {
                Some(channel) => Some((DeliveryMethod::Unreliable, channel)),
                None => None,
            },
        },
        DeliveryMethod::Unreliable => match channels.unreliable {
            Some(channel) => Some((method, channel)),
            None => None,
        },
    }
}

fn choose_channel(
    channels: &ChannelSnapshots,
    method: DeliveryMethod,
) -> (chosen: Option<(DeliveryMethod, ChannelSnapshot)>)
    ensures
        chosen == chosen_channel(*channels, method),
{
    match method {
        DeliveryMethod::ReliableOrdered => match channels.reliable {
            Some(channel) => Some((method, channel)),
            None => None,
        },
        DeliveryMethod::UnreliableOrdered => match channels.unreliable_ordered {
            Some(channel) => Some((method, channel)),
            None => match channels.unreliable {
                Some(channel) => Some((DeliveryMethod::Unreliable, channel)),
                None => None,
            },
        },
        DeliveryMethod::Unreliable => match channels.unreliable {
            Some(channel) => Some((method, channel)),
            None => None,
        },
    }
}

/// What a [`SendPlan`] says.
pub enum SendOutcome {
    Send { channel: DeliveryMethod, near_limit: bool },
    WaitThenSend { channel: DeliveryMethod, near_limit: bool },
    Defer { near_limit: bool },
    Fail(ErrorModel),
}

impl View for SendPlan {
    type V = SendOutcome;

    open spec fn view(&self) -> SendOutcome {
        match self {
            SendPlan::Send { channel, near_limit } => SendOutcome::Send {
                channel: *channel,
                near_limit: *near_limit,
            },
            SendPlan::WaitThenSend { channel, near_limit } => SendOutcome::WaitThenSend {
                channel: *channel,
                near_limit: *near_limit,
            },
            SendPlan::Defer { near_limit } => SendOutcome::Defer { near_limit: *near_limit },
            SendPlan::Fail(error) => SendOutcome::Fail(error@),
        }
    }
}

/// Whether a message comes close to the limit.
pub open spec fn is_near_limit(size: nat, limit: u32) -> bool {
    limit > 0 && 5 * size >= 4 * limit
}

/// What becomes of a message to a connected node.
pub open spec fn connected_send(
    channels: ChannelSnapshots,
    method: DeliveryMethod,
    near_limit: bool,
) -> SendOutcome {
    match chosen_channel(channels, method) {
        Some((channel, snapshot)) => if snapshot.state != ChannelState::Open {
            SendOutcome::Fail(ErrorModel::Internal("Not connected"@))
        } else if snapshot.buffered_amount <= BUFFERED_AMOUNT_HIGH_WATERMARK {
            SendOutcome::Send { channel, near_limit }
        } else if method == DeliveryMethod::ReliableOrdered {
            SendOutcome::WaitThenSend { channel, near_limit }
        } else {
            SendOutcome::Fail(
                ErrorModel::Internal("Backpressure: dropped unreliable message under congestion"@),
            )
        },
        None => SendOutcome::Fail(ErrorModel::Internal("Not connected"@)),
    }
}

/// What becomes of a message.
pub open spec fn send_outcome(
    model: TransportModel,
    node: Seq<char>,
    size: usize,
    method: DeliveryMethod,
    channels: ChannelSnapshots,
) -> SendOutcome {
    let state = stored(model.states, node);
    let has_peer = model.peers.dom().contains(node);
    let near_limit = is_near_limit(size as nat, model.max_message_bytes);
    if size > model.max_message_bytes {
        SendOutcome::Fail(
            ErrorModel::MessageTooLarge { size, limit: model.max_message_bytes },
        )
    } else if state != Some(ConnectionState::Connected) {
        if has_peer && method == DeliveryMethod::ReliableOrdered && (state == Some(
            ConnectionState::Connecting,
        ) || state == Some(ConnectionState::Reconnecting)) {
            SendOutcome::Defer { near_limit }
        } else {
            SendOutcome::Fail(ErrorModel::Internal("Not connected"@))
        }
    } else if !has_peer {
        SendOutcome::Fail(ErrorModel::Internal("Not connected"@))
    } else {
        connected_send(channels, method, near_limit)
    }
}

/// Whether a message that was to be sent found its channel closed. The node
/// then counts as connecting.
pub open spec fn found_closed(
    model: TransportModel,
    node: Seq<char>,
    size: usize,
    method: DeliveryMethod,
    channels: ChannelSnapshots,
) -> bool {
    &&& size <= model.max_message_bytes
    &&& stored(model.states, node) == Some(ConnectionState::Connected)
    &&& model.peers.dom().contains(node)
    &&& chosen_channel(channels, method) matches Some((channel, snapshot)) && (snapshot.state
        == ChannelState::Closed || snapshot.state == ChannelState::Closing)
}

/// What is known after a message was decided on.
pub open spec fn after_send(
    model: TransportModel,
    node: Seq<char>,
    size: usize,
    method: DeliveryMethod,
    channels: ChannelSnapshots,
) -> TransportModel {
    if found_closed(model, node, size, method, channels) {
        TransportModel {
            states: model.states.insert(node, ConnectionState::Connecting),
            ..model
        }
    } else {
        model
    }
}

/// The nodes that are connected.
pub open spec fn connected_nodes(states: Map<Seq<char>, ConnectionState>) -> Set<Seq<char>> {
    Set::new(|node: Seq<char>| stored(states, node) == Some(ConnectionState::Connected))
}

impl WasmWebRtcTransport {
    /// The state of the connection to a node; a node that is not known is
    /// disconnected.
    pub fn get_connection_state(&self, node: &NodeId) -> (state: ConnectionState)
        ensures
            state == match stored(self@.states, node@) {
                Some(state) => state,
                None => ConnectionState::Disconnected,
            },
    {
        match self.connection_states.get(node) {
            Some(state) => *state,
            None => ConnectionState::Disconnected,
        }
    }

    /// Decides what becomes of a message of `size` bytes. `channels` are those
    /// of the node's connection, if it has one.
    pub fn send(
        &mut self,
        node: &NodeId,
        size: usize,
        method: DeliveryMethod,
        channels: ChannelSnapshots,
    ) -> (plan: SendPlan)
        ensures
            plan@ == send_outcome(old(self)@, node@, size, method, channels),
            final(self)@ == if found_closed(old(self)@, node@, size, method, channels) {
                TransportModel {
                    states: old(self)@.states.insert(node@, ConnectionState::Connecting),
                    ..old(self)@
                }
            } else {
                old(self)@
            },
            final(self)@ == after_send(old(self)@, node@, size, method, channels),
    {
        let near_limit = match check_message_size(size, self.max_message_bytes) {
            Err(error) => {
                return SendPlan::Fail(error);
            },
            Ok(check) => check == SizeCheck::NearLimit,
        };
        let state = self.get_connection_state(node);
        let has_peer = self.peers.contains_key(node);
        if state != ConnectionState::Connected {
            if should_queue_reliable_send(method, has_peer, state) {
                return SendPlan::Defer { near_limit };
            }
            return SendPlan::Fail(MistError::Internal("Not connected".to_string()));
        }
        if has_peer {
            if let Some((channel, snapshot)) = choose_channel(&channels, method) {
                match snapshot.state {
                    ChannelState::Open => {
                        return match backpressure_action(
                            snapshot.buffered_amount,
                            BUFFERED_AMOUNT_HIGH_WATERMARK,
                            method,
                        ) {
                            BackpressureAction::SendNow => SendPlan::Send { channel, near_limit },
                            BackpressureAction::WaitThenSend => SendPlan::WaitThenSend {
                                channel,
                                near_limit,
                            },
                            BackpressureAction::Drop => SendPlan::Fail(
                                MistError::Internal(
                                    "Backpressure: dropped unreliable message under congestion".to_string(),
                                ),
                            ),
                        };
                    },
                    ChannelState::Closed | ChannelState::Closing => {
                        let _ = self.connection_states.insert(
                            node.clone(),
                            ConnectionState::Connecting,
                        );
                    },
                    ChannelState::Connecting => {},
                }
            }
        }
        SendPlan::Fail(MistError::Internal("Not connected".to_string()))
    }

    /// What becomes of a message that waited for a channel: it is sent if the
    /// channel drained in time, and lost otherwise.
    pub fn drained(in_time: bool) -> (sent: Result<(), MistError>)
        ensures
            sent is Ok <==> in_time,
            sent matches Err(error) ==> error@ == ErrorModel::Internal(
                "Backpressure: bufferedAmount drain timed out"@,
            ),
    {
        if in_time {
            Ok(())
        } else {
            Err(MistError::Internal("Backpressure: bufferedAmount drain timed out".to_string()))
        }
    }

    /// The nodes that a broadcast reaches, each once.
    pub fn get_connected_nodes(&self) -> (nodes: Vec<NodeId>)
        ensures
            nodes@.map_values(|node: NodeId| node@).no_duplicates(),
            nodes@.map_values(|node: NodeId| node@).to_set() == connected_nodes(self@.states),
    {
        let entries = self.connection_states.entries();
        let mut nodes: Vec<NodeId> = Vec::new();
        let mut i: usize = 0;
        let ghost mut places: Seq<int> = Seq::empty();
        while i < entries.len()
            invariant
                i <= entries@.len(),
                distinct_keys(entries@),
                entries_map(entries@) == self@.states,
                places.len() == nodes@.len(),
                forall|j: int|
                    0 <= j < places.len() ==> 0 <= #[trigger] places[j] < i && nodes@[j]@
                        == entries@[places[j]].0@ && entries@[places[j]].1
                        == ConnectionState::Connected,
                forall|a: int, b: int| 0 <= a < b < places.len() ==> places[a] < places[b],
                forall|k: int|
                    0 <= k < i && (#[trigger] entries@[k]).1 == ConnectionState::Connected
                        ==> places.contains(k),
            decreases entries@.len() - i,
        {
            if entries[i].1 == ConnectionState::Connected {
                let ghost before = places;
                nodes.push(entries[i].0.clone());
                proof {
                    places = places.push(i as int);
                    assert(places[before.len() as int] == i);
                    assert forall|k: int|
                        0 <= k < i + 1 && (#[trigger] entries@[k]).1
                            == ConnectionState::Connected implies places.contains(k) by {
                        if k < i {
                            let j = choose|j: int| 0 <= j < before.len() && before[j] == k;
                            assert(places[j] == k);
                        }
                    }
                }
            }
            i = i + 1;
        }
        proof {
            let names = nodes@.map_values(|node: NodeId| node@);
            lemma_entries_dom(entries@);
            assert forall|a: int, b: int|
                0 <= a < names.len() && 0 <= b < names.len() && a != b implies names[a]
                != names[b] by {
                let pa = places[a];
                let pb = places[b];
                assert(pa != pb);
                assert(entries@[pa].0.model() != entries@[pb].0.model());
            }
            assert forall|node: Seq<char>| names.contains(node) <==> stored(self@.states, node)
                == Some(ConnectionState::Connected) by {
                if names.contains(node) {
                    let j = choose|j: int| 0 <= j < names.len() && names[j] == node;
                    lemma_entries_at(entries@, places[j]);
                    assert(entries@[places[j]].0.model() == node);
                }
                if stored(self@.states, node) == Some(ConnectionState::Connected) {
                    let k = choose|k: int|
                        0 <= k < entries@.len() && (#[trigger] entries@[k]).0.model() == node;
                    lemma_entries_at(entries@, k);
                    assert(places.contains(k));
                    let j = choose|j: int| 0 <= j < places.len() && places[j] == k;
                    assert(names[j] == node);
                }
            }
            assert(names.to_set() =~= connected_nodes(self@.states));
        }
        nodes
    }

    /// The nodes whose connections occupy a slot, with their states.
    pub fn get_active_connection_states(&self) -> (active: Vec<(NodeId, ConnectionState)>)
        ensures
            distinct_keys(active@),
            entries_map(active@) == self@.states.restrict(live_nodes(self@.states)),
    {
        let mut active: Vec<(NodeId, ConnectionState)> = Vec::new();
        let entries = self.connection_states.entries();
        let mut i: usize = 0;
        proof {
            assert(entries@.take(0) =~= Seq::empty());
        }
        while i < entries.len()
            invariant
                i <= entries@.len(),
                distinct_keys(entries@),
                entries_map(entries@) == self@.states,
                distinct_keys(active@),
                forall|j: int|
                    0 <= j < active@.len() ==> exists|k: int|
                        0 <= k < i && #[trigger] entries@[k] == #[trigger] active@[j] && is_live(
                            active@[j].1,
                        ),
                forall|k: int|
                    0 <= k < i && is_live((#[trigger] entries@[k]).1) ==> active@.contains(
                        entries@[k],
                    ),
            decreases entries@.len() - i,
        {
            if entries[i].1.is_live() {
                let ghost before = active@;
                let entry = (entries[i].0.clone(), entries[i].1);
                assert(entry == entries@[i as int]);
                active.push(entry);
                proof {
                    assert forall|a: int, b: int|
                        #![trigger active@[a], active@[b]]
                        0 <= a < b < active@.len() implies active@[a].0.model()
                        != active@[b].0.model() by {
                        assert(active@[a] == before[a]);
                        if b < before.len() {
                            assert(active@[b] == before[b]);
                        } else {
                            let k = choose|k: int|
                                0 <= k < i && #[trigger] entries@[k] == before[a];
                            assert(entries@[k].0.model() != entries@[i as int].0.model());
                        }
                    }
                    assert forall|j: int| 0 <= j < active@.len() implies exists|k: int|
                        0 <= k < i + 1 && #[trigger] entries@[k] == #[trigger] active@[j]
                            && is_live(active@[j].1) by {
                        if j < before.len() {
                            assert(active@[j] == before[j]);
                        } else {
                            assert(entries@[i as int] == active@[j]);
                        }
                    }
                    assert forall|k: int|
                        0 <= k < i + 1 && is_live((#[trigger] entries@[k]).1) implies active@.contains(
                        entries@[k],
                    ) by {
                        if k < i {
                            let j = choose|j: int| 0 <= j < before.len() && before[j] == entries@[k];
                            assert(active@[j] == entries@[k]);
                        } else {
                            assert(active@[before.len() as int] == entries@[k]);
                        }
                    }
                }
            }
            i = i + 1;
        }
        proof {
            lemma_entries_dom(entries@);
            lemma_entries_dom(active@);
            assert forall|node: Seq<char>|
                #![trigger entries_map(active@).dom().contains(node)]
                entries_map(active@).dom().contains(node) <==> stored(self@.states, node) is Some
                    && is_live(self@.states[node]) by {
                if entries_map(active@).dom().contains(node) {
                    let j = choose|j: int|
                        0 <= j < active@.len() && (#[trigger] active@[j]).0.model() == node;
                    let k = choose|k: int|
                        0 <= k < entries@.len() && #[trigger] entries@[k] == active@[j];
                    lemma_entries_at(entries@, k);
                }
                if stored(self@.states, node) is Some && is_live(self@.states[node]) {
                    let k = choose|k: int|
                        0 <= k < entries@.len() && (#[trigger] entries@[k]).0.model() == node;
                    lemma_entries_at(entries@, k);
                    assert(active@.contains(entries@[k]));
                    let j = choose|j: int| 0 <= j < active@.len() && active@[j] == entries@[k];
                    lemma_entries_at(active@, j);
                }
            }
            assert forall|node: Seq<char>|
                entries_map(active@).dom().contains(node) implies #[trigger] entries_map(
                active@,
            )[node] == self@.states[node] by {
                let j = choose|j: int|
                    0 <= j < active@.len() && (#[trigger] active@[j]).0.model() == node;
                let k = choose|k: int| 0 <= k < entries@.len() && #[trigger] entries@[k] == active@[j];
                lemma_entries_at(entries@, k);
                lemma_entries_at(active@, j);
            }
            assert(entries_map(active@) =~= self@.states.restrict(live_nodes(self@.states)));
        }
        active
    }
}

} // verus!
