//! A peer connection and the events it reports.

use bytes::Bytes;
use vstd::prelude::*;

use super::candidate_delivery::{
    bit_of, candidate_retry_delay, candidate_retry_delay_ms, holds, mask_of, without_bits,
    without_node, CandidateModel, TrackStatus, CANDIDATE_RETRIES, MAX_TRACKED_CANDIDATE_NODES,
};
use super::ice_restart::should_trigger_ice_restart;
use super::lifecycle::{is_current, recovery_scheduled, stored, IceState};
use super::negotiation_delivery::NegotiationModel;
use super::recovery::{recovered_state, state_after_ice_recovery, IceRecoveryTrigger};
use super::send_queue::{bytes_contents, newest_within_limits, all_contents, SendQueue};
use super::{DisconnectGrace, GraceOrigin, TransportModel, WasmWebRtcTransport};
use crate::app::events::{emit_peer_disconnected, node_event, EmittedEvent};
use crate::app::EVENT_PEER_DISCONNECTED;
use crate::text::{name_precedes, precedes, same_text};
use crate::types::{ConnectionState, DeliveryMethod, NodeId};

verus! {

/// State of a data channel.
#[derive(Debug, Clone, Copy, PartialEq, Eq, Structural)]
pub enum ChannelState {
    Connecting,
    Open,
    Closing,
    Closed,
}

/// The state of each of a peer's channels; a channel may be missing.
#[derive(Debug, Clone, Copy, PartialEq, Eq, Structural)]
pub struct ChannelStates {
    pub reliable: Option<ChannelState>,
    pub unreliable_ordered: Option<ChannelState>,
    pub unreliable: Option<ChannelState>,
}

/// The state of the channel that a delivery method uses.
pub open spec fn channel_of(channels: ChannelStates, method: DeliveryMethod) -> Option<
    ChannelState,
> {
    match method {
        DeliveryMethod::ReliableOrdered => channels.reliable,
        DeliveryMethod::UnreliableOrdered => channels.unreliable_ordered,
        DeliveryMethod::Unreliable => channels.unreliable,
    }
}

/// Whether some channel is in a given state.
pub open spec fn any_channel(channels: ChannelStates, state: ChannelState) -> bool {
    exists|method: DeliveryMethod| channel_of(channels, method) == Some(state)
}

impl ChannelStates {
    pub fn of(&self, method: DeliveryMethod) -> (state: Option<ChannelState>)
        ensures
            state == channel_of(*self, method),
    {
        match method {
            DeliveryMethod::ReliableOrdered => self.reliable,
            DeliveryMethod::UnreliableOrdered => self.unreliable_ordered,
            DeliveryMethod::Unreliable => self.unreliable,
        }
    }

    fn has(&self, wanted: ChannelState) -> (found: bool)
        ensures
            found == any_channel(*self, wanted),
    {
        let found = self.reliable == Some(wanted) || self.unreliable_ordered == Some(wanted)
            || self.unreliable == Some(wanted);
        proof {
            assert(channel_of(*self, DeliveryMethod::ReliableOrdered) == self.reliable);
            assert(channel_of(*self, DeliveryMethod::UnreliableOrdered)
                == self.unreliable_ordered);
            assert(channel_of(*self, DeliveryMethod::Unreliable) == self.unreliable);
        }
        found
    }

    /// Whether a message could be sent on some channel right now.
    pub fn has_open_channel(&self) -> (open: bool)
        ensures
            open == any_channel(*self, ChannelState::Open),
    {
        self.has(ChannelState::Open)
    }

    /// Whether some channel is open or still opening.
    pub fn has_live_channel(&self) -> (live: bool)
        ensures
            live == (any_channel(*self, ChannelState::Open) || any_channel(
                *self,
                ChannelState::Connecting,
            )),
    {
        self.has(ChannelState::Open) || self.has(ChannelState::Connecting)
    }
}

/// The delivery method of a channel that the remote opened. An unknown label
/// counts as reliable.
pub open spec fn labelled_method(label: Seq<char>) -> DeliveryMethod {
    if label == "unreliable-ordered"@ {
        DeliveryMethod::UnreliableOrdered
    } else if label == "unreliable"@ {
        DeliveryMethod::Unreliable
    } else {
        DeliveryMethod::ReliableOrdered
    }
}

pub fn method_for_label(label: &str) -> (method: DeliveryMethod)
    ensures
        method == labelled_method(label@),
{
    if same_text(label, "unreliable-ordered") {
        DeliveryMethod::UnreliableOrdered
    } else if same_text(label, "unreliable") {
        DeliveryMethod::Unreliable
    } else {
        DeliveryMethod::ReliableOrdered
    }
}

/// How a channel is opened.
#[derive(Debug, Clone, Copy, PartialEq, Eq, Structural)]
pub struct ChannelPlan {
    pub ordered: bool,
    pub max_retransmits: Option<u16>,
}

/// The label of the channel for a delivery method.
pub open spec fn channel_name(method: DeliveryMethod) -> Seq<char> {
    match method {
        DeliveryMethod::ReliableOrdered => "reliable"@,
        DeliveryMethod::UnreliableOrdered => "unreliable-ordered"@,
        DeliveryMethod::Unreliable => "unreliable"@,
    }
}

pub fn channel_label(method: DeliveryMethod) -> (label: &'static str)
    ensures
        label@ == channel_name(method),
{
    match method {
        DeliveryMethod::ReliableOrdered => "reliable",
        DeliveryMethod::UnreliableOrdered => "unreliable-ordered",
        DeliveryMethod::Unreliable => "unreliable",
    }
}

/// The remote reads back the delivery method from the label it was given.
pub proof fn lemma_label_names_its_method(method: DeliveryMethod)
    ensures
        labelled_method(channel_name(method)) == method,
{
    reveal_strlit("reliable");
    reveal_strlit("unreliable-ordered");
    reveal_strlit("unreliable");
    assert("reliable"@[0] == 'r');
    assert("unreliable"@[0] == 'u');
    assert("unreliable-ordered"@[0] == 'u');
    assert("unreliable"@.len() != "unreliable-ordered"@.len());
}

/// Reliable messages are sent again until they arrive; the others never are.
pub fn channel_plan(method: DeliveryMethod) -> (plan: ChannelPlan)
    ensures
        plan.ordered == (method != DeliveryMethod::Unreliable),
        plan.max_retransmits == if method == DeliveryMethod::ReliableOrdered {
            None::<u16>
        } else {
            Some(0u16)
        },
        plan == plan_for(method),
{
    match method {
        DeliveryMethod::ReliableOrdered => ChannelPlan { ordered: true, max_retransmits: None },
        DeliveryMethod::UnreliableOrdered => ChannelPlan {
            ordered: true,
            max_retransmits: Some(0),
        },
        DeliveryMethod::Unreliable => ChannelPlan { ordered: false, max_retransmits: Some(0) },
    }
}

/// Sends that wait for a congested channel, named by the host.
pub struct DrainWaiters {
    pub reliable: Vec<u64>,
    pub unreliable_ordered: Vec<u64>,
    pub unreliable: Vec<u64>,
}

/// What belongs to one peer connection and goes away with it.
pub struct Peer {
    /// A track change that could not be negotiated yet.
    pub needs_track_reconcile: bool,
    /// Reliable messages that wait for the peer to come back.
    pub send_queue: SendQueue,
    /// Sends that wait for a congested channel to drain.
    pub buffered_amount_waiters: DrainWaiters,
}

/// What is known about a [`Peer`].
#[verifier::ext_equal]
pub struct PeerModel {
    pub needs_track_reconcile: bool,
    pub queue: Seq<Seq<u8>>,
    pub waiters: Map<DeliveryMethod, Seq<u64>>,
}

impl View for DrainWaiters {
    type V = Map<DeliveryMethod, Seq<u64>>;

    open spec fn view(&self) -> Map<DeliveryMethod, Seq<u64>> {
        Map::new(
            |method: DeliveryMethod| true,
            |method: DeliveryMethod|
                match method {
                    DeliveryMethod::ReliableOrdered => self.reliable@,
                    DeliveryMethod::UnreliableOrdered => self.unreliable_ordered@,
                    DeliveryMethod::Unreliable => self.unreliable@,
                },
        )
    }
}

impl View for Peer {
    type V = PeerModel;

    open spec fn view(&self) -> PeerModel {
        PeerModel {
            needs_track_reconcile: self.needs_track_reconcile,
            queue: self.send_queue@,
            waiters: self.buffered_amount_waiters@,
        }
    }
}

/// What happens to the negotiation of a peer's tracks.
#[derive(Debug, Clone, Copy, PartialEq, Eq, Structural)]
pub enum TrackEvent {
    /// An offer that announces a track change was sent.
    OfferMade,
    /// An offer that announces a track change could not be made.
    OfferFailed,
    /// Our pending offer is given up for the remote's.
    OfferYielded,
    /// An answer came that is not for our pending offer.
    AnswerStale,
    /// The remote's answer was applied.
    AnswerApplied,
    /// The remote's offer was answered in place.
    OfferAnswered,
    /// A failed exchange was rolled back.
    RolledBack,
    /// ICE is connected.
    IceConnected,
}

/// Events after which a track change has still to be negotiated.
pub open spec fn defers_tracks(event: TrackEvent) -> bool {
    event == TrackEvent::OfferFailed || event == TrackEvent::OfferYielded || event
        == TrackEvent::AnswerStale
}

/// Events after which an offer of ours can be made.
pub open spec fn settles_tracks(event: TrackEvent) -> bool {
    event == TrackEvent::AnswerApplied || event == TrackEvent::OfferAnswered || event
        == TrackEvent::RolledBack || event == TrackEvent::IceConnected
}

/// Whether a track change waits after an event, where `waiting` says whether one
/// did before.
pub open spec fn tracks_wait_after(waiting: bool, event: TrackEvent) -> bool {
    defers_tracks(event) || (waiting && !settles_tracks(event))
}

/// Whether a track change waits after a number of events.
pub open spec fn tracks_wait_after_all(waiting: bool, events: Seq<TrackEvent>) -> bool
    decreases events.len(),
{
    if events.len() == 0 {
        waiting
    } else {
        tracks_wait_after(tracks_wait_after_all(waiting, events.drop_last()), events.last())
    }
}

/// Waiters that nobody waits for any more are those the host no longer lists.
pub open spec fn still_waiting(waiters: Seq<u64>, live: Seq<u64>) -> Seq<u64> {
    waiters.filter(|waiter: u64| live.contains(waiter))
}

fn lists(live: &Vec<u64>, waiter: u64) -> (found: bool)
    ensures
        found == live@.contains(waiter),
{
    let mut i: usize = 0;
    while i < live.len()
        invariant
            i <= live@.len(),
            forall|j: int| 0 <= j < i ==> live@[j] != waiter,
        decreases live@.len() - i,
    {
        if live[i] == waiter {
            assert(live@[i as int] == waiter);
            return true;
        }
        i = i + 1;
    }
    false
}

fn keep_live(waiters: &Vec<u64>, live: &Vec<u64>) -> (kept: Vec<u64>)
    ensures
        kept@ == still_waiting(waiters@, live@),
{
    let ghost wanted = |waiter: u64| live@.contains(waiter);
    let mut kept: Vec<u64> = Vec::new();
    let mut i: usize = 0;
    proof {
        reveal(Seq::filter);
        assert(waiters@.take(0).filter(wanted) =~= Seq::empty());
    }
    while i < waiters.len()
        invariant
            i <= waiters@.len(),
            wanted == (|waiter: u64| live@.contains(waiter)),
            kept@ == waiters@.take(i as int).filter(wanted),
        decreases waiters@.len() - i,
    {
        proof {
            reveal(Seq::filter);
            assert(waiters@.take(i + 1).drop_last() =~= waiters@.take(i as int));
        }
        let waiter: u64 = waiters[i];
        if lists(live, waiter) {
            kept.push(waiter);
        }
        i = i + 1;
    }
    assert(waiters@.take(i as int) =~= waiters@);
    kept
}

impl DrainWaiters {
    pub fn new() -> (waiters: Self)
        ensures
            forall|method: DeliveryMethod| #[trigger] waiters@[method] == Seq::<u64>::empty(),
    {
        DrainWaiters {
            reliable: Vec::new(),
            unreliable_ordered: Vec::new(),
            unreliable: Vec::new(),
        }
    }

    fn get(&self, method: DeliveryMethod) -> (queue: &Vec<u64>)
        ensures
            queue@ == self@[method],
    {
        match method {
            DeliveryMethod::ReliableOrdered => &self.reliable,
            DeliveryMethod::UnreliableOrdered => &self.unreliable_ordered,
            DeliveryMethod::Unreliable => &self.unreliable,
        }
    }

    fn set(&mut self, method: DeliveryMethod, queue: Vec<u64>)
        ensures
            final(self)@ == old(self)@.insert(method, queue@),
    {
        match method {
            DeliveryMethod::ReliableOrdered => {
                self.reliable = queue;
            },
            DeliveryMethod::UnreliableOrdered => {
                self.unreliable_ordered = queue;
            },
            DeliveryMethod::Unreliable => {
                self.unreliable = queue;
            },
        }
        assert(self@ =~= old(self)@.insert(method, queue@));
    }
}

impl Peer {
    pub fn new() -> (peer: Self)
        ensures
            !peer@.needs_track_reconcile,
            peer@.queue == Seq::<Seq<u8>>::empty(),
            forall|method: DeliveryMethod| #[trigger] peer@.waiters[method] == Seq::<u64>::empty(),
    {
        Peer {
            needs_track_reconcile: false,
            send_queue: SendQueue::default(),
            buffered_amount_waiters: DrainWaiters::new(),
        }
    }

    /// Notes that a track change still has to be negotiated.
    pub fn defer_track_reconcile(&mut self)
        ensures
            final(self)@ == (PeerModel { needs_track_reconcile: true, ..old(self)@ }),
    {
        self.needs_track_reconcile = true;
    }

    /// Whether a track change waits to be negotiated; the note is used up.
    /// Called wherever signaling settles.
    pub fn take_track_reconcile(&mut self) -> (waiting: bool)
        ensures
            waiting == old(self)@.needs_track_reconcile,
            final(self)@ == (PeerModel { needs_track_reconcile: false, ..old(self)@ }),
    {
        let waiting = self.needs_track_reconcile;
        self.needs_track_reconcile = false;
        waiting
    }

    /// Takes note of an event in the negotiation of tracks. Returns whether a
    /// track change that waited is to be negotiated now.
    pub fn track_event(&mut self, event: TrackEvent) -> (reconcile: bool)
        ensures
            reconcile == (old(self)@.needs_track_reconcile && settles_tracks(event)),
            final(self)@ == (PeerModel {
                needs_track_reconcile: tracks_wait_after(old(self)@.needs_track_reconcile, event),
                ..old(self)@
            }),
    {
        match event {
            TrackEvent::OfferMade => false,
            TrackEvent::OfferFailed | TrackEvent::OfferYielded | TrackEvent::AnswerStale => {
                self.defer_track_reconcile();
                false
            },
            TrackEvent::AnswerApplied
            | TrackEvent::OfferAnswered
            | TrackEvent::RolledBack
            | TrackEvent::IceConnected => self.take_track_reconcile(),
        }
    }

    /// Keeps a reliable message for later. Returns whether older ones had to go.
    pub fn defer_send(&mut self, data: Bytes) -> (dropped_oldest: bool)
        ensures
            final(self)@ == (PeerModel {
                queue: newest_within_limits(old(self)@.queue.push(bytes_contents(data))),
                ..old(self)@
            }),
            dropped_oldest == (final(self)@.queue.len() < old(self)@.queue.len() + 1),
    {
        self.send_queue.push(data)
    }

    /// Hands out the waiting messages, oldest first, if the reliable channel is
    /// open; otherwise they go on waiting.
    pub fn flush_send_queue(&mut self, reliable: Option<ChannelState>) -> (messages: Vec<Bytes>)
        ensures
            reliable == Some(ChannelState::Open) ==> all_contents(messages@) == old(self)@.queue
                && final(self)@ == (PeerModel { queue: Seq::empty(), ..old(self)@ }),
            reliable != Some(ChannelState::Open) ==> messages@.len() == 0 && final(self)@
                == old(self)@,
    {
        if reliable == Some(ChannelState::Open) {
            self.send_queue.drain()
        } else {
            Vec::new()
        }
    }

    /// Drops the waiting messages and returns how many there were.
    pub fn clear_send_queue(&mut self) -> (dropped: usize)
        ensures
            dropped == old(self)@.queue.len(),
            final(self)@ == (PeerModel { queue: Seq::empty(), ..old(self)@ }),
    {
        self.send_queue.clear()
    }

    /// Registers a send that waits for a channel to drain. Waiters that gave up
    /// are dropped on this occasion.
    pub fn wait_for_buffered_amount_low(
        &mut self,
        method: DeliveryMethod,
        waiter: u64,
        live: &Vec<u64>,
    )
        ensures
            final(self)@ == (PeerModel {
                waiters: old(self)@.waiters.insert(
                    method,
                    still_waiting(old(self)@.waiters[method], live@).push(waiter),
                ),
                ..old(self)@
            }),
    {
        let mut queue = keep_live(self.buffered_amount_waiters.get(method), live);
        queue.push(waiter);
        self.buffered_amount_waiters.set(method, queue);
    }

    /// Called when a channel has drained. Hands out every send that waited for
    /// it, in order.
    pub fn buffered_amount_low(&mut self, method: DeliveryMethod) -> (waiters: Vec<u64>)
        ensures
            waiters@ == old(self)@.waiters[method],
            final(self)@ == (PeerModel {
                waiters: old(self)@.waiters.insert(method, Seq::empty()),
                ..old(self)@
            }),
    {
        let all = self.buffered_amount_waiters.get(method).clone();
        self.buffered_amount_waiters.set(method, Vec::new());
        all
    }

    /// Empties the peer when its connection is closed. Returns how many messages
    /// are lost; whoever waits for a channel learns that it is gone.
    pub fn close_all(&mut self) -> (dropped: usize)
        ensures
            dropped == old(self)@.queue.len(),
            final(self)@.queue == Seq::<Seq<u8>>::empty(),
            final(self)@.needs_track_reconcile == old(self)@.needs_track_reconcile,
            forall|method: DeliveryMethod| #[trigger]
                final(self)@.waiters[method] == Seq::<u64>::empty(),
    {
        self.buffered_amount_waiters = DrainWaiters::new();
        self.clear_send_queue()
    }
}

/// What a change of the ICE state leads to, for the host to carry out.
#[derive(Debug, Clone, Copy, PartialEq, Eq, Structural)]
pub enum IceReaction {
    /// The connection was replaced; its events no longer count.
    Stale,
    /// ICE is up. `flush` asks to send what waited; a deferred track change is
    /// due.
    Recovered { state: ConnectionState, grace_ended: bool, flush: bool },
    /// ICE is interrupted. `restart` asks for an offer that restarts it.
    Interrupted { restart: bool },
    /// The connection is lost; the loss is announced.
    Lost,
    /// ICE is being set up.
    Checking,
    Unchanged,
}

/// What is known after the ICE state of the held connection of `node` changed.
pub open spec fn ice_changed(
    model: TransportModel,
    node: Seq<char>,
    ice: IceState,
    has_open_channel: bool,
    now: u64,
) -> TransportModel {
    match ice {
        IceState::Connected | IceState::Completed => TransportModel {
            states: model.states.insert(node, recovered_state(has_open_channel)),
            graces: model.graces.remove(node),
            ..model
        },
        IceState::Disconnected => TransportModel {
            states: model.states.insert(node, ConnectionState::Reconnecting),
            graces: if model.graces.dom().contains(node) {
                model.graces
            } else {
                model.graces.insert(
                    node,
                    DisconnectGrace { started_at: now, origin: GraceOrigin::Ice },
                )
            },
            ..model
        },
        IceState::Failed | IceState::Closed => TransportModel {
            states: model.states.insert(node, ConnectionState::Disconnected),
            graces: model.graces.remove(node),
            peers: model.peers.remove(node),
            senders: model.senders.remove(node),
            pending: model.pending.remove(node),
            candidates: CandidateModel {
                pending: without_node(model.candidates.pending, node),
                received: without_node(model.candidates.received, node),
                ack_pending: without_node(model.candidates.ack_pending, node),
            },
            negotiations: NegotiationModel {
                pending: model.negotiations.pending.remove(node),
                received: model.negotiations.received.remove(node),
            },
            ..model
        },
        IceState::Checking => TransportModel {
            states: model.states.insert(node, ConnectionState::Connecting),
            ..model
        },
        IceState::New => model,
    }
}

/// What is known after a channel of the held connection of `node` closed.
pub open spec fn channel_lost(model: TransportModel, node: Seq<char>) -> TransportModel {
    TransportModel {
        peers: model.peers.remove(node),
        states: model.states.remove(node),
        graces: model.graces.remove(node),
        senders: model.senders.remove(node),
        pending: model.pending.remove(node),
        ..model
    }
}

/// What a change of the ICE state of the held connection leads to.
pub open spec fn ice_reaction(
    model: TransportModel,
    node: Seq<char>,
    ice: IceState,
    has_open_channel: bool,
    signaling_is_stable: bool,
) -> IceReaction {
    match ice {
        IceState::Connected | IceState::Completed => IceReaction::Recovered {
            state: recovered_state(has_open_channel),
            grace_ended: model.graces.dom().contains(node),
            flush: has_open_channel,
        },
        IceState::Disconnected => IceReaction::Interrupted {
            restart: !model.graces.dom().contains(node) && name_precedes(model.local_node, node)
                && signaling_is_stable,
        },
        IceState::Failed | IceState::Closed => IceReaction::Lost,
        IceState::Checking => IceReaction::Checking,
        IceState::New => IceReaction::Unchanged,
    }
}

/// What the opening of a channel leads to.
#[derive(Debug, Clone, Copy, PartialEq, Eq, Structural)]
pub enum ChannelOpened {
    /// Only the reliable channel of the held connection makes a peer connected.
    Ignored,
    /// The peer is connected; what waited is sent. `announce` tells whether the
    /// application learns of it.
    Connected { announce: bool },
}

/// What the opening of a channel leads to, and what is known afterwards.
pub open spec fn channel_announced(
    model: TransportModel,
    node: Seq<char>,
    handle: u64,
    method: DeliveryMethod,
) -> (ChannelOpened, TransportModel) {
    if method == DeliveryMethod::ReliableOrdered && is_current(model, node, handle) {
        (
            ChannelOpened::Connected {
                announce: stored(model.states, node) != Some(ConnectionState::Connected),
            },
            TransportModel {
                states: model.states.insert(node, ConnectionState::Connected),
                graces: model.graces.remove(node),
                ..model
            },
        )
    } else {
        (ChannelOpened::Ignored, model)
    }
}

/// How a channel of a delivery method is opened.
pub open spec fn plan_for(method: DeliveryMethod) -> ChannelPlan {
    match method {
        DeliveryMethod::ReliableOrdered => ChannelPlan { ordered: true, max_retransmits: None },
        DeliveryMethod::UnreliableOrdered => ChannelPlan {
            ordered: true,
            max_retransmits: Some(0),
        },
        DeliveryMethod::Unreliable => ChannelPlan { ordered: false, max_retransmits: Some(0) },
    }
}

/// How a candidate of ours is sent.
#[derive(Debug, Clone, Copy, PartialEq, Eq, Structural)]
pub enum CandidateSend {
    /// Once, without a sequence number: the numbers are used up.
    Plain,
    /// With this sequence number, and again until it is acknowledged.
    Reliable { sequence: u8 },
    /// With this sequence number, once: no room is left to track it.
    Numbered { sequence: u8 },
}

/// What is due for a candidate that was sent before.
#[derive(Debug, Clone, Copy, PartialEq, Eq, Structural)]
pub enum CandidateRetry {
    /// It was acknowledged.
    Stop,
    /// It is sent again.
    SendAgain,
}

// --- Events of a peer connection ---
impl WasmWebRtcTransport {
    /// Handles a change of a connection's ICE state.
    pub fn ice_state_changed(
        &mut self,
        node: &NodeId,
        handle: u64,
        ice: IceState,
        has_open_channel: bool,
        signaling_is_stable: bool,
        now: u64,
    ) -> (reaction: IceReaction)
        ensures
            !is_current(old(self)@, node@, handle) ==> {
                &&& reaction == IceReaction::Stale
                &&& final(self)@ == old(self)@
            },
            is_current(old(self)@, node@, handle) ==> {
                &&& reaction == ice_reaction(
                    old(self)@,
                    node@,
                    ice,
                    has_open_channel,
                    signaling_is_stable,
                )
                &&& final(self)@ == ice_changed(old(self)@, node@, ice, has_open_channel, now)
            },
    {
        let current = match self.peers.get(node) {
            Some(held) => *held == handle,
            None => false,
        };
        if !current {
            return IceReaction::Stale;
        }
        match ice {
            IceState::Connected | IceState::Completed => {
                let trigger = if ice == IceState::Connected {
                    IceRecoveryTrigger::Connected
                } else {
                    IceRecoveryTrigger::Completed
                };
                let state = state_after_ice_recovery(trigger, has_open_channel);
                let _ = self.connection_states.insert(node.clone(), state);
                let grace_ended = self.disconnected_since.remove(node).is_some();
                IceReaction::Recovered {
                    state,
                    grace_ended,
                    flush: state == ConnectionState::Connected,
                }
            },
            IceState::Disconnected => {
                let _ = self.connection_states.insert(node.clone(), ConnectionState::Reconnecting);
                let is_new_grace = !self.disconnected_since.contains_key(node);
                if is_new_grace {
                    let _ = self.disconnected_since.insert(
                        node.clone(),
                        DisconnectGrace { started_at: now, origin: GraceOrigin::Ice },
                    );
                }
                let is_initiator = precedes(self.local_node_id.0.as_str(), node.0.as_str());
                let restart = should_trigger_ice_restart(
                    is_new_grace,
                    is_initiator,
                    signaling_is_stable,
                );
                IceReaction::Interrupted { restart }
            },
            IceState::Failed | IceState::Closed => {
                let _ = self.connection_states.insert(node.clone(), ConnectionState::Disconnected);
                let _ = self.disconnected_since.remove(node);
                let _ = self.peers.remove(node);
                let _ = self.peer_senders.remove(node);
                let _ = self.pending_candidates.remove(node);
                self.candidate_delivery.remove_node(node);
                self.negotiation_delivery.remove_node(node);
                assert(self@.senders =~= old(self)@.senders.remove(node@));
                IceReaction::Lost
            },
            IceState::Checking => {
                let _ = self.connection_states.insert(node.clone(), ConnectionState::Connecting);
                IceReaction::Checking
            },
            IceState::New => IceReaction::Unchanged,
        }
    }

    /// Handles the opening of a channel.
    pub fn channel_opened(
        &mut self,
        node: &NodeId,
        handle: u64,
        method: DeliveryMethod,
    ) -> (opened: ChannelOpened)
        ensures
            method != DeliveryMethod::ReliableOrdered || !is_current(old(self)@, node@, handle)
                ==> opened == ChannelOpened::Ignored && final(self)@ == old(self)@,
            method == DeliveryMethod::ReliableOrdered && is_current(old(self)@, node@, handle)
                ==> {
                &&& opened == (ChannelOpened::Connected {
                    announce: stored(old(self)@.states, node@) != Some(ConnectionState::Connected),
                })
                &&& final(self)@ == (TransportModel {
                    states: old(self)@.states.insert(node@, ConnectionState::Connected),
                    graces: old(self)@.graces.remove(node@),
                    ..old(self)@
                })
            },
            (opened, final(self)@) == channel_announced(old(self)@, node@, handle, method),
    {
        if method != DeliveryMethod::ReliableOrdered {
            return ChannelOpened::Ignored;
        }
        let current = match self.peers.get(node) {
            Some(held) => *held == handle,
            None => false,
        };
        if !current {
            return ChannelOpened::Ignored;
        }
        let previous = self.connection_states.insert(node.clone(), ConnectionState::Connected);
        let _ = self.disconnected_since.remove(node);
        let announce = match previous {
            Some(state) => state != ConnectionState::Connected,
            None => true,
        };
        ChannelOpened::Connected { announce }
    }

    /// Handles the closing of a channel. Returns whether the connection is torn
    /// down, closed and announced as lost.
    pub fn channel_closed(&mut self, node: &NodeId, handle: u64) -> (lost: bool)
        ensures
            lost == is_current(old(self)@, node@, handle),
            !lost ==> final(self)@ == old(self)@,
            lost ==> final(self)@ == channel_lost(old(self)@, node@),
    {
        let current = match self.peers.get(node) {
            Some(held) => *held == handle,
            None => false,
        };
        if !current {
            return false;
        }
        let _ = self.peers.remove(node);
        let _ = self.connection_states.remove(node);
        let _ = self.disconnected_since.remove(node);
        let _ = self.peer_senders.remove(node);
        let _ = self.pending_candidates.remove(node);
        assert(self@.senders =~= old(self)@.senders.remove(node@));
        true
    }

    /// Takes the confirmed loss of a peer: a check for isolation is scheduled in
    /// this room, and in no other. Returns what the page is told and the number
    /// of the check.
    pub fn peer_lost(&mut self, node: &NodeId) -> (lost: (EmittedEvent, u32))
        ensures
            final(self)@ == recovery_scheduled(old(self)@),
            lost.0@ == node_event(EVENT_PEER_DISCONNECTED, node@, old(self)@.room),
            lost.1 == final(self)@.recovery_epoch,
    {
        let check: u32 = self.schedule_isolation_recovery();
        (emit_peer_disconnected(node.clone(), self.room_id.clone()), check)
    }
}

// --- Candidates of ours ---
impl WasmWebRtcTransport {
    /// Decides how the `count`-th candidate of a connection, counted from 0, is
    /// sent.
    pub fn plan_candidate(
        &mut self,
        remote: &NodeId,
        generation: u32,
        count: u32,
    ) -> (plan: CandidateSend)
        ensures
            count >= 64 ==> plan == CandidateSend::Plain && final(self)@ == old(self)@,
            count < 64 ==> ({
                let key = (remote@, generation);
                let pending = old(self)@.candidates.pending;
                let fresh = !holds(mask_of(pending, key), count as u8) && (pending.dom().contains(
                    key,
                ) || pending.len() < MAX_TRACKED_CANDIDATE_NODES);
                if fresh {
                    &&& plan == (CandidateSend::Reliable { sequence: count as u8 })
                    &&& final(self)@ == (TransportModel {
                        candidates: CandidateModel {
                            pending: pending.insert(
                                key,
                                mask_of(pending, key) | bit_of(count as u8)->Some_0,
                            ),
                            ..old(self)@.candidates
                        },
                        ..old(self)@
                    })
                } else {
                    &&& plan == (CandidateSend::Numbered { sequence: count as u8 })
                    &&& final(self)@ == old(self)@
                }
            }),
    {
        if count >= 64 {
            return CandidateSend::Plain;
        }
        let sequence: u8 = count as u8;
        let status = self.candidate_delivery.track(remote.clone(), generation, sequence);
        if status == TrackStatus::New {
            CandidateSend::Reliable { sequence }
        } else {
            CandidateSend::Numbered { sequence }
        }
    }

    /// Decides whether a candidate is sent again once its delay has passed.
    pub fn retry_candidate(
        &self,
        remote: &NodeId,
        generation: u32,
        sequence: u8,
    ) -> (retry: CandidateRetry)
        ensures
            retry == if holds(mask_of(self@.candidates.pending, (remote@, generation)), sequence) {
                CandidateRetry::SendAgain
            } else {
                CandidateRetry::Stop
            },
    {
        if self.candidate_delivery.contains(remote, generation, sequence) {
            CandidateRetry::SendAgain
        } else {
            CandidateRetry::Stop
        }
    }

    /// Gives a candidate up after its last retry. Returns whether it was never
    /// acknowledged.
    pub fn give_up_candidate(
        &mut self,
        remote: &NodeId,
        generation: u32,
        sequence: u8,
    ) -> (unacknowledged: bool)
        ensures
            unacknowledged == holds(
                mask_of(old(self)@.candidates.pending, (remote@, generation)),
                sequence,
            ),
            final(self)@ == (TransportModel {
                candidates: CandidateModel {
                    pending: match bit_of(sequence) {
                        Some(bit) => without_bits(
                            old(self)@.candidates.pending,
                            (remote@, generation),
                            bit,
                        ),
                        None => old(self)@.candidates.pending,
                    },
                    ..old(self)@.candidates
                },
                ..old(self)@
            }),
    {
        self.candidate_delivery.expire(remote, generation, sequence)
    }
}

/// How long to wait after the `sent`-th time a candidate was sent before it is
/// sent again; nothing if it is not sent again.
pub fn candidate_wait(plan: CandidateSend, sent: usize) -> (delay: Option<u32>)
    requires
        sent > 0,
    ensures
        delay == if plan is Reliable && sent <= CANDIDATE_RETRIES {
            Some(candidate_retry_delay(sent - 1))
        } else {
            None
        },
{
    match plan {
        CandidateSend::Reliable { sequence: _ } => {
            if sent <= CANDIDATE_RETRIES {
                Some(candidate_retry_delay_ms(sent - 1))
            } else {
                None
            }
        },
        _ => None,
    }
}

} // verus!
