//! How peer connections come up and go away.

use vstd::prelude::*;

use super::isolation::{is_isolated, isolated};
use super::offer_guard::{active_connection_count, live_count};
use super::{
    next_count, next_counter, DisconnectGrace, GraceOrigin, IsolationRecovery, TransportModel,
    WasmWebRtcTransport, DISCONNECTED_GRACE_MS,
};
use crate::table::{distinct_keys, entries_map, lemma_entries_dom, Table, TableKey};
use crate::types::{is_live, ConnectionState, NodeId};

verus! {

/// State of a connection's ICE transport.
#[derive(Debug, Clone, Copy, PartialEq, Eq, Structural)]
pub enum IceState {
    New,
    Checking,
    Connected,
    Completed,
    Disconnected,
    Failed,
    Closed,
}

/// The nodes whose connections occupy a slot.
pub open spec fn live_nodes(states: Map<Seq<char>, ConnectionState>) -> Set<Seq<char>> {
    Set::new(|node: Seq<char>| states.dom().contains(node) && is_live(states[node]))
}

proof fn lemma_live_nodes(entries: Seq<(NodeId, ConnectionState)>)
    requires
        distinct_keys(entries),
    ensures
        live_nodes(entries_map(entries)).finite(),
        live_nodes(entries_map(entries)).len() == live_count(
            entries.map_values(|entry: (NodeId, ConnectionState)| entry.1),
        ),
    decreases entries.len(),
{
    let values = entries.map_values(|entry: (NodeId, ConnectionState)| entry.1);
    reveal(Seq::filter);
    if entries.len() == 0 {
        assert(live_nodes(entries_map(entries)) =~= Set::empty());
    } else {
        let rest = entries.drop_last();
        let last = entries.last();
        assert forall|a: int, b: int|
            #![trigger rest[a], rest[b]]
            0 <= a < b < rest.len() implies rest[a].0.model() != rest[b].0.model() by {
            assert(rest[a] == entries[a] && rest[b] == entries[b]);
        }
        lemma_live_nodes(rest);
        lemma_entries_dom(rest);
        if entries_map(rest).dom().contains(last.0.model()) {
            let i = choose|i: int|
                0 <= i < rest.len() && (#[trigger] rest[i]).0.model() == last.0.model();
            assert(rest[i] == entries[i]);
            assert(entries[entries.len() - 1].0.model() == entries[i].0.model());
        }
        assert(rest.map_values(|entry: (NodeId, ConnectionState)| entry.1)
            =~= values.drop_last());
        let before = live_nodes(entries_map(rest));
        let after = live_nodes(entries_map(entries));
        if is_live(last.1) {
            assert(after =~= before.insert(last.0.model()));
        } else {
            assert(after =~= before);
        }
    }
}

/// Lists the states of all connections.
pub(crate) fn list_states(states: &Table<NodeId, ConnectionState>) -> (list: Vec<ConnectionState>)
    ensures
        live_nodes(states@).finite(),
        live_count(list@) == live_nodes(states@).len(),
        isolated(list@, 0) <==> live_nodes(states@) == Set::<Seq<char>>::empty(),
{
    let entries = states.entries();
    let mut list: Vec<ConnectionState> = Vec::new();
    let mut i: usize = 0;
    while i < entries.len()
        invariant
            i <= entries@.len(),
            list@.len() == i,
            forall|j: int| 0 <= j < i ==> #[trigger] list@[j] == entries@[j].1,
        decreases entries@.len() - i,
    {
        list.push(entries[i].1);
        i = i + 1;
    }
    proof {
        let values = entries@.map_values(|entry: (NodeId, ConnectionState)| entry.1);
        assert(list@ =~= values);
        lemma_live_nodes(entries@);
        let live = |state: ConnectionState| is_live(state);
        if isolated(list@, 0) {
            list@.lemma_all_neg_filter_empty(live);
            assert(live_nodes(states@).len() == 0);
            assert(live_nodes(states@) =~= Set::empty());
        } else {
            let j = choose|j: int| 0 <= j < list@.len() && is_live(#[trigger] list@[j]);
            list@.lemma_filter_contains(live, j);
            assert(list@.filter(live).len() > 0);
        }
    }
    list
}

/// What is known after a peer is torn down. A grace period is left running.
pub open spec fn torn_down(model: TransportModel, node: Seq<char>) -> TransportModel {
    TransportModel {
        peers: model.peers.remove(node),
        senders: model.senders.remove(node),
        states: model.states.insert(node, ConnectionState::Disconnected),
        attempts: model.attempts.remove(node),
        pending: model.pending.remove(node),
        restarted: model.restarted.remove(node),
        epochs: model.epochs.remove(node),
        ..model
    }
}

/// What is known after a check for isolation is scheduled: earlier checks are
/// void.
pub open spec fn recovery_scheduled(model: TransportModel) -> TransportModel {
    TransportModel { recovery_epoch: next_count(model.recovery_epoch), ..model }
}

/// Outcome of a teardown, for the host to carry out.
#[derive(Debug, Clone, Copy, PartialEq, Eq, Structural)]
pub struct Teardown {
    /// Connection to close.
    pub close: Option<u64>,
    /// Check for isolation to run after [`super::ISOLATION_RECOVERY_DELAY_MS`].
    pub isolation_check: Option<u32>,
}

/// The value stored for `node`, if any.
pub open spec fn stored<V>(map: Map<Seq<char>, V>, node: Seq<char>) -> Option<V> {
    if map.dom().contains(node) {
        Some(map[node])
    } else {
        None
    }
}

/// Whether the node has lost every peer and is not getting one back.
pub open spec fn all_peers_lost(model: TransportModel) -> bool {
    live_nodes(model.states) == Set::<Seq<char>>::empty() && model.attempts.dom() == Set::<
        Seq<char>,
    >::empty()
}

/// Whether a check for isolation that is due finds the node isolated.
pub open spec fn finds_isolation(model: TransportModel, epoch: u32) -> bool {
    epoch == model.recovery_epoch && all_peers_lost(model)
}

/// What is known once another attempt to reach `node` is under way.
pub open spec fn attempt_reserved(model: TransportModel, node: Seq<char>) -> TransportModel {
    TransportModel {
        attempts: model.attempts.insert(node, next_count(model.last_attempt)),
        last_attempt: next_count(model.last_attempt),
        ..model
    }
}

/// How an outgoing connection starts.
#[derive(Debug, Clone, Copy, PartialEq, Eq, Structural)]
pub enum ConnectStart {
    /// The connection is up or coming up already.
    AlreadyActive,
    /// No slot is left.
    AtCapacity,
    /// The attempt with this number is under way.
    Started { attempt_id: u32 },
}

/// Whether the held connection of `node` is the one with this handle.
pub open spec fn is_current(model: TransportModel, node: Seq<char>, handle: u64) -> bool {
    stored(model.peers, node) == Some(handle)
}

/// Whether a grace period has run out.
pub open spec fn grace_expired(grace: Option<DisconnectGrace>, now: u64) -> bool {
    grace is Some && now - grace->Some_0.started_at >= DISCONNECTED_GRACE_MS
}

/// Whether the sweep gives a peer up.
pub open spec fn is_dead(
    model: TransportModel,
    node: Seq<char>,
    ice: IceState,
    has_live_channel: bool,
    now: u64,
) -> bool {
    let state = stored(model.states, node);
    ||| ice == IceState::Failed
    ||| ice == IceState::Closed
    ||| (ice == IceState::Disconnected || state == Some(ConnectionState::Reconnecting))
        && grace_expired(stored(model.graces, node), now)
    ||| state == Some(ConnectionState::Connected) && !has_live_channel
}

/// What is known once a peer is under suspicion. Only a connected peer can be,
/// and a grace period that runs already goes on as it is.
pub open spec fn suspect_marked(model: TransportModel, node: Seq<char>, now: u64) -> TransportModel {
    if stored(model.states, node) == Some(ConnectionState::Connected) {
        TransportModel {
            states: model.states.insert(node, ConnectionState::Reconnecting),
            graces: if model.graces.dom().contains(node) {
                model.graces
            } else {
                model.graces.insert(
                    node,
                    DisconnectGrace { started_at: now, origin: GraceOrigin::LivenessSuspect },
                )
            },
            ..model
        }
    } else {
        model
    }
}

/// Whether a suspicion is what keeps a peer in a grace period.
pub open spec fn is_suspect(model: TransportModel, node: Seq<char>) -> bool {
    model.graces.dom().contains(node) && model.graces[node].origin == GraceOrigin::LivenessSuspect
        && model.states.dom().contains(node)
}

/// What is known once a suspicion is taken back.
pub open spec fn suspect_cleared(model: TransportModel, node: Seq<char>) -> TransportModel {
    if is_suspect(model, node) {
        TransportModel {
            states: model.states.insert(node, ConnectionState::Connected),
            graces: model.graces.remove(node),
            ..model
        }
    } else {
        model
    }
}

/// Whether an outgoing connection to `node` may start.
pub open spec fn may_connect(model: TransportModel, node: Seq<char>) -> bool {
    let state = stored(model.states, node);
    !(state is Some && is_live(state->Some_0)) && live_nodes(model.states).len()
        < model.max_connections
}

/// What is known once an outgoing connection to `node` is under way.
pub open spec fn connect_started(model: TransportModel, node: Seq<char>) -> TransportModel {
    attempt_reserved(
        TransportModel {
            states: model.states.insert(node, ConnectionState::Connecting),
            ..model
        },
        node,
    )
}

/// What the sweep did with a node.
#[derive(Debug, Clone, Copy, PartialEq, Eq, Structural)]
pub enum SweepOutcome {
    /// The node has no peer connection; its records are gone.
    Forgotten,
    /// The connection is fine.
    Kept,
    /// The connection is given up.
    Cleaned { close: u64, isolation_check: u32 },
}

/// What the sweep does with a node, and what is known afterwards.
pub open spec fn swept(
    model: TransportModel,
    node: Seq<char>,
    ice: IceState,
    has_live_channel: bool,
    now: u64,
) -> (SweepOutcome, TransportModel) {
    match stored(model.peers, node) {
        None => (
            SweepOutcome::Forgotten,
            TransportModel {
                states: model.states.remove(node),
                graces: model.graces.remove(node),
                pending: model.pending.remove(node),
                restarted: model.restarted.remove(node),
                epochs: model.epochs.remove(node),
                ..model
            },
        ),
        Some(handle) => if is_dead(model, node, ice, has_live_channel, now) {
            let after = recovery_scheduled(
                TransportModel {
                    graces: model.graces.remove(node),
                    ..torn_down(model, node)
                },
            );
            (SweepOutcome::Cleaned { close: handle, isolation_check: after.recovery_epoch }, after)
        } else {
            (SweepOutcome::Kept, model)
        },
    }
}

/// How an outgoing connection starts, and what is known afterwards.
pub open spec fn connect_decided(model: TransportModel, node: Seq<char>) -> (
    ConnectStart,
    TransportModel,
) {
    let state = stored(model.states, node);
    if may_connect(model, node) {
        let after = connect_started(model, node);
        (ConnectStart::Started { attempt_id: after.last_attempt }, after)
    } else if state is Some && is_live(state->Some_0) {
        (ConnectStart::AlreadyActive, model)
    } else {
        (ConnectStart::AtCapacity, model)
    }
}

/// The check for isolation after a connection has had its time to come up, and
/// what is known afterwards.
pub open spec fn attempt_timed_out(
    model: TransportModel,
    node: Seq<char>,
    attempt_id: u32,
    ice: IceState,
    channel_alive: bool,
) -> (Option<u32>, TransportModel) {
    let alive = (ice == IceState::Connected || ice == IceState::Completed) && channel_alive;
    if stored(model.attempts, node) == Some(attempt_id) && stored(model.states, node) == Some(
        ConnectionState::Connecting,
    ) && !alive {
        let after = recovery_scheduled(
            TransportModel {
                restarted: model.restarted,
                epochs: model.epochs,
                ..torn_down(model, node)
            },
        );
        (Some(after.recovery_epoch), after)
    } else {
        (None, model)
    }
}

/// What is known after all connections were closed.
pub open spec fn all_closed(model: TransportModel) -> TransportModel {
    TransportModel {
        peers: Map::empty(),
        senders: Map::empty(),
        states: Map::empty(),
        attempts: Map::empty(),
        pending: Map::empty(),
        restarted: Map::empty(),
        epochs: Map::empty(),
        sweeper_started: false,
        sweeper_generation: next_count(model.sweeper_generation),
        recovery_epoch: next_count(model.recovery_epoch),
        ..model
    }
}

/// The number of the sweep that starts, if one does, and what is known
/// afterwards.
pub open spec fn sweeper_ensured(model: TransportModel) -> (Option<u32>, TransportModel) {
    if model.sweeper_started {
        (None, model)
    } else {
        let generation = next_count(model.sweeper_generation);
        (
            Some(generation),
            TransportModel {
                sweeper_started: true,
                sweeper_generation: generation,
                ..model
            },
        )
    }
}

// --- Teardown ---
impl WasmWebRtcTransport {
    /// Schedules a check for isolation and returns its number.
    pub fn schedule_isolation_recovery(&mut self) -> (epoch: u32)
        ensures
            final(self)@ == recovery_scheduled(old(self)@),
            epoch == final(self)@.recovery_epoch,
    {
        self.isolation_recovery_epoch = next_counter(self.isolation_recovery_epoch);
        self.isolation_recovery_epoch
    }

    /// Whether a check for isolation that is due finds the node isolated. A
    /// check that was superseded finds nothing.
    pub fn isolation_recovery_due(&self, epoch: u32) -> (reset: bool)
        ensures
            reset == finds_isolation(self@, epoch),
    {
        if self.isolation_recovery_epoch != epoch {
            return false;
        }
        let states = list_states(&self.connection_states);
        let in_flight: usize = self.connection_attempt_ids.len();
        proof {
            if in_flight == 0 {
                assert(self@.attempts.dom() =~= Set::empty());
            }
        }
        is_isolated(states.as_slice(), in_flight)
    }

    /// Tears a peer down: its connection, its attempt and what waits for it are
    /// dropped, and it counts as disconnected.
    pub fn cleanup_peer_connection(
        &mut self,
        node: &NodeId,
        close_pc: bool,
        isolation_recovery: IsolationRecovery,
    ) -> (teardown: Teardown)
        ensures
            final(self)@ == if isolation_recovery == IsolationRecovery::Schedule {
                recovery_scheduled(torn_down(old(self)@, node@))
            } else {
                torn_down(old(self)@, node@)
            },
            teardown.close == if close_pc {
                stored(old(self)@.peers, node@)
            } else {
                None
            },
            teardown.isolation_check == if isolation_recovery == IsolationRecovery::Schedule {
                Some(final(self)@.recovery_epoch)
            } else {
                None
            },
    {
        let removed = self.peers.remove(node);
        let close = if close_pc {
            removed
        } else {
            None
        };
        let _ = self.peer_senders.remove(node);
        let _ = self.connection_states.insert(node.clone(), ConnectionState::Disconnected);
        let _ = self.connection_attempt_ids.remove(node);
        let _ = self.pending_candidates.remove(node);
        let _ = self.restarted_peers.remove(node);
        let _ = self.peer_epochs.remove(node);
        assert(self@.senders =~= torn_down(old(self)@, node@).senders);
        let isolation_check = if isolation_recovery == IsolationRecovery::Schedule {
            Some(self.schedule_isolation_recovery())
        } else {
            None
        };
        Teardown { close, isolation_check }
    }

    /// Ends the connection to a node on the caller's wish.
    pub fn disconnect(&mut self, node: &NodeId) -> (teardown: Teardown)
        ensures
            final(self)@ == recovery_scheduled(torn_down(old(self)@, node@)),
            teardown.close == stored(old(self)@.peers, node@),
            teardown.isolation_check == Some(final(self)@.recovery_epoch),
    {
        self.cleanup_peer_connection(node, true, IsolationRecovery::Schedule)
    }

    /// Forgets all peers and returns their connections for closing.
    pub fn close_all_peer_connections(&mut self) -> (peers: Vec<(NodeId, u64)>)
        ensures
            distinct_keys(peers@),
            entries_map(peers@) == old(self)@.peers,
            final(self)@ == (TransportModel {
                peers: Map::empty(),
                senders: Map::empty(),
                states: Map::empty(),
                attempts: Map::empty(),
                pending: Map::empty(),
                restarted: Map::empty(),
                epochs: Map::empty(),
                sweeper_started: false,
                sweeper_generation: next_count(old(self)@.sweeper_generation),
                recovery_epoch: next_count(old(self)@.recovery_epoch),
                ..old(self)@
            }),
            final(self)@ == all_closed(old(self)@),
    {
        self.stop_session_sweeper();
        self.isolation_recovery_epoch = next_counter(self.isolation_recovery_epoch);
        let peers = self.peers.take_entries();
        self.peer_senders.clear();
        self.connection_states.clear();
        self.connection_attempt_ids.clear();
        self.pending_candidates.clear();
        self.restarted_peers.clear();
        self.peer_epochs.clear();
        assert(self@.senders =~= Map::empty());
        peers
    }
}

// --- Sweeper ---
impl WasmWebRtcTransport {
    /// Starts the periodic sweep unless it is running. Returns the number that
    /// the new sweep runs under.
    pub fn ensure_session_sweeper(&mut self) -> (generation: Option<u32>)
        ensures
            old(self)@.sweeper_started ==> generation is None && final(self)@ == old(self)@,
            !old(self)@.sweeper_started ==> {
                &&& final(self)@ == (TransportModel {
                    sweeper_started: true,
                    sweeper_generation: next_count(old(self)@.sweeper_generation),
                    ..old(self)@
                })
                &&& generation == Some(final(self)@.sweeper_generation)
            },
            (generation, final(self)@) == sweeper_ensured(old(self)@),
    {
        if self.sweeper_started {
            return None;
        }
        self.sweeper_started = true;
        self.sweeper_generation = next_counter(self.sweeper_generation);
        Some(self.sweeper_generation)
    }

    /// Stops the sweep: its number is no longer the current one.
    pub fn stop_session_sweeper(&mut self)
        ensures
            final(self)@ == (TransportModel {
                sweeper_started: false,
                sweeper_generation: next_count(old(self)@.sweeper_generation),
                ..old(self)@
            }),
    {
        self.sweeper_started = false;
        self.sweeper_generation = next_counter(self.sweeper_generation);
    }

    pub fn sweeper_is_current(&self, generation: u32) -> (current: bool)
        ensures
            current == (generation == self@.sweeper_generation),
    {
        self.sweeper_generation == generation
    }

    /// Examines one node of the room.
    pub fn sweep_node(
        &mut self,
        node: &NodeId,
        ice: IceState,
        has_live_channel: bool,
        now: u64,
    ) -> (outcome: SweepOutcome)
        ensures
            match stored(old(self)@.peers, node@) {
                None => outcome == SweepOutcome::Forgotten && final(self)@ == (TransportModel {
                    states: old(self)@.states.remove(node@),
                    graces: old(self)@.graces.remove(node@),
                    pending: old(self)@.pending.remove(node@),
                    restarted: old(self)@.restarted.remove(node@),
                    epochs: old(self)@.epochs.remove(node@),
                    ..old(self)@
                }),
                Some(handle) => if is_dead(old(self)@, node@, ice, has_live_channel, now) {
                    &&& final(self)@ == recovery_scheduled(
                        TransportModel {
                            graces: old(self)@.graces.remove(node@),
                            ..torn_down(old(self)@, node@)
                        },
                    )
                    &&& outcome == (SweepOutcome::Cleaned {
                        close: handle,
                        isolation_check: final(self)@.recovery_epoch,
                    })
                } else {
                    outcome == SweepOutcome::Kept && final(self)@ == old(self)@
                },
            },
            (outcome, final(self)@) == swept(old(self)@, node@, ice, has_live_channel, now),
    {
        let handle: u64 = match self.peers.get(node) {
            Some(handle) => *handle,
            None => {
                let _ = self.connection_states.remove(node);
                let _ = self.disconnected_since.remove(node);
                let _ = self.pending_candidates.remove(node);
                let _ = self.restarted_peers.remove(node);
                let _ = self.peer_epochs.remove(node);
                return SweepOutcome::Forgotten;
            },
        };
        let state = match self.connection_states.get(node) {
            Some(state) => *state,
            None => ConnectionState::Disconnected,
        };
        let failed_or_closed = ice == IceState::Failed || ice == IceState::Closed;
        let grace_over = match self.disconnected_since.get(node) {
            Some(grace) => now.saturating_sub(grace.started_at) >= DISCONNECTED_GRACE_MS,
            None => false,
        };
        let disconnected_grace_expired = (ice == IceState::Disconnected || state
            == ConnectionState::Reconnecting) && grace_over;
        let missing_channel = state == ConnectionState::Connected && !has_live_channel;
        if failed_or_closed || disconnected_grace_expired || missing_channel {
            let _ = self.disconnected_since.remove(node);
            let _ = self.cleanup_peer_connection(node, true, IsolationRecovery::Skip);
            let isolation_check: u32 = self.schedule_isolation_recovery();
            SweepOutcome::Cleaned { close: handle, isolation_check }
        } else {
            SweepOutcome::Kept
        }
    }

    /// The nodes that a sweep examines.
    pub fn swept_nodes(&self) -> (nodes: Vec<NodeId>)
        ensures
            nodes@.map_values(|node: NodeId| node@).to_set() == self@.states.dom(),
            nodes@.map_values(|node: NodeId| node@).no_duplicates(),
    {
        let entries = self.connection_states.entries();
        let mut nodes: Vec<NodeId> = Vec::new();
        let mut i: usize = 0;
        while i < entries.len()
            invariant
                i <= entries@.len(),
                nodes@.len() == i,
                forall|j: int| 0 <= j < i ==> #[trigger] nodes@[j] == entries@[j].0,
            decreases entries@.len() - i,
        {
            nodes.push(entries[i].0.clone());
            i = i + 1;
        }
        proof {
            lemma_entries_dom(entries@);
            let names = nodes@.map_values(|node: NodeId| node@);
            assert forall|name: Seq<char>| names.to_set().contains(name) <==> self@.states.dom().contains(
                name,
            ) by {
                if names.contains(name) {
                    let j = choose|j: int| 0 <= j < names.len() && names[j] == name;
                    assert(nodes@[j] == entries@[j].0);
                    assert(entries@[j].0.model() == name);
                }
                if self@.states.dom().contains(name) {
                    let j = choose|j: int|
                        0 <= j < entries@.len() && (#[trigger] entries@[j]).0.model() == name;
                    assert(nodes@[j] == entries@[j].0);
                    assert(names[j] == name);
                }
            }
            assert(names.to_set() =~= self@.states.dom());
            assert forall|a: int, b: int|
                0 <= a < names.len() && 0 <= b < names.len() && a != b implies names[a]
                != names[b] by {
                assert(nodes@[a] == entries@[a].0 && nodes@[b] == entries@[b].0);
            }
        }
        nodes
    }
}

// --- Attempts ---
impl WasmWebRtcTransport {
    /// Numbers another attempt to reach `node`.
    pub fn reserve_connection_attempt(&mut self, node: &NodeId) -> (attempt_id: u32)
        ensures
            final(self)@ == attempt_reserved(old(self)@, node@),
            attempt_id == final(self)@.last_attempt,
    {
        let attempt_id: u32 = next_counter(self.next_connection_attempt_id);
        self.next_connection_attempt_id = attempt_id;
        let _ = self.connection_attempt_ids.insert(node.clone(), attempt_id);
        attempt_id
    }

    /// Starts an outgoing connection if the node is not connected yet and a
    /// slot is free.
    pub fn connect(&mut self, node: &NodeId) -> (start: ConnectStart)
        ensures
            ({
                let state = stored(old(self)@.states, node@);
                if may_connect(old(self)@, node@) {
                    &&& final(self)@ == connect_started(old(self)@, node@)
                    &&& start == (ConnectStart::Started { attempt_id: final(self)@.last_attempt })
                } else {
                    &&& final(self)@ == old(self)@
                    &&& start == if state is Some && is_live(state->Some_0) {
                        ConnectStart::AlreadyActive
                    } else {
                        ConnectStart::AtCapacity
                    }
                }
            }),
            (start, final(self)@) == connect_decided(old(self)@, node@),
    {
        if let Some(state) = self.connection_states.get(node) {
            if state.is_live() {
                return ConnectStart::AlreadyActive;
            }
        }
        let states = list_states(&self.connection_states);
        let current: usize = active_connection_count(states.as_slice());
        if current >= self.max_connections as usize {
            return ConnectStart::AtCapacity;
        }
        let _ = self.connection_states.insert(node.clone(), ConnectionState::Connecting);
        let attempt_id: u32 = self.reserve_connection_attempt(node);
        ConnectStart::Started { attempt_id }
    }

    /// Records the connection that was created for a node. Returns the one it
    /// displaces, which must be closed: its late events would otherwise hit
    /// the new one.
    pub fn install_peer(&mut self, node: &NodeId, handle: u64) -> (displaced: Option<u64>)
        ensures
            final(self)@ == (TransportModel {
                peers: old(self)@.peers.insert(node@, handle),
                ..old(self)@
            }),
            displaced == stored(old(self)@.peers, node@),
    {
        self.peers.insert(node.clone(), handle)
    }

    /// Called when a connection has had [`super::CONNECTION_TIMEOUT_MS`] to come
    /// up. Gives it up if the attempt is still the current one and either ICE or
    /// the channels are not alive, and returns the check for isolation to run.
    pub fn connection_timed_out(
        &mut self,
        node: &NodeId,
        attempt_id: u32,
        ice: IceState,
        channel_alive: bool,
    ) -> (isolation_check: Option<u32>)
        ensures
            ({
                let stalled = stored(old(self)@.attempts, node@) == Some(attempt_id) && stored(
                    old(self)@.states,
                    node@,
                ) == Some(ConnectionState::Connecting) && !((ice == IceState::Connected || ice
                    == IceState::Completed) && channel_alive);
                if stalled {
                    &&& final(self)@ == recovery_scheduled(
                        TransportModel {
                            restarted: old(self)@.restarted,
                            epochs: old(self)@.epochs,
                            ..torn_down(old(self)@, node@)
                        },
                    )
                    &&& isolation_check == Some(final(self)@.recovery_epoch)
                } else {
                    isolation_check is None && final(self)@ == old(self)@
                }
            }),
            (isolation_check, final(self)@) == attempt_timed_out(
                old(self)@,
                node@,
                attempt_id,
                ice,
                channel_alive,
            ),
    {
        let is_current_attempt = match self.connection_attempt_ids.get(node) {
            Some(id) => *id == attempt_id,
            None => false,
        };
        let still_connecting = match self.connection_states.get(node) {
            Some(state) => *state == ConnectionState::Connecting,
            None => false,
        };
        let ice_alive = ice == IceState::Connected || ice == IceState::Completed;
        if is_current_attempt && still_connecting && (!ice_alive || !channel_alive) {
            let _ = self.peers.remove(node);
            let _ = self.peer_senders.remove(node);
            let _ = self.connection_states.insert(node.clone(), ConnectionState::Disconnected);
            let _ = self.connection_attempt_ids.remove(node);
            let _ = self.pending_candidates.remove(node);
            assert(self@.senders =~= old(self)@.senders.remove(node@));
            Some(self.schedule_isolation_recovery())
        } else {
            None
        }
    }
}

// --- Liveness and grace periods ---
impl WasmWebRtcTransport {
    /// Puts a connected peer under suspicion. Any other peer is left alone.
    pub fn mark_suspect_disconnected(&mut self, node: &NodeId, now: u64) -> (marked: bool)
        ensures
            marked == (stored(old(self)@.states, node@) == Some(ConnectionState::Connected)),
            final(self)@ == suspect_marked(old(self)@, node@, now),
    {
        match self.connection_states.get(node) {
            Some(state) => {
                if *state != ConnectionState::Connected {
                    return false;
                }
            },
            None => {
                return false;
            },
        }
        let _ = self.connection_states.insert(node.clone(), ConnectionState::Reconnecting);
        if !self.disconnected_since.contains_key(node) {
            let _ = self.disconnected_since.insert(
                node.clone(),
                DisconnectGrace { started_at: now, origin: GraceOrigin::LivenessSuspect },
            );
        }
        true
    }

    /// Takes a suspicion back. A grace period that ICE started goes on.
    pub fn cancel_suspect_grace(&mut self, node: &NodeId) -> (cancelled: bool)
        ensures
            cancelled == is_suspect(old(self)@, node@),
            final(self)@ == suspect_cleared(old(self)@, node@),
    {
        let is_suspect_origin = match self.disconnected_since.get(node) {
            Some(grace) => grace.origin == GraceOrigin::LivenessSuspect,
            None => false,
        };
        if !is_suspect_origin {
            return false;
        }
        if !self.connection_states.contains_key(node) {
            return false;
        }
        let _ = self.connection_states.insert(node.clone(), ConnectionState::Connected);
        let _ = self.disconnected_since.remove(node);
        true
    }
}

} // verus!
