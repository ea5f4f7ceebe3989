//! What holds of connections from their first attempt to their end.

use vstd::prelude::*;

use super::lifecycle::{
    all_closed, attempt_reserved, attempt_timed_out, connect_decided, grace_expired, is_suspect,
    live_nodes, recovery_scheduled, stored, suspect_cleared, suspect_marked, sweeper_ensured, swept,
    torn_down, ConnectStart, IceState, SweepOutcome,
};
use super::peer::{
    channel_announced, channel_lost, ice_changed, ice_reaction, tracks_wait_after, ChannelOpened,
    IceReaction, TrackEvent,
};
use super::{
    next_count, DisconnectGrace, GraceOrigin, TransportModel, CONNECTION_TIMEOUT_MS,
    DISCONNECTED_GRACE_MS, ISOLATION_RECOVERY_DELAY_MS, SWEEP_INTERVAL_MS,
};
use crate::text::name_precedes;
use crate::types::{ConnectionState, DeliveryMethod};

verus! {

/// Whether both maps agree on a key.
pub open spec fn agree_on<K, V>(a: Map<K, V>, b: Map<K, V>, key: K) -> bool {
    &&& a.dom().contains(key) <==> b.dom().contains(key)
    &&& a.dom().contains(key) ==> a[key] == b[key]
}

/// Whether the same is known of a node, and of the transport's own settings and
/// tracks.
pub open spec fn same_for(a: TransportModel, b: TransportModel, node: Seq<char>) -> bool {
    &&& agree_on(a.peers, b.peers, node)
    &&& agree_on(a.states, b.states, node)
    &&& agree_on(a.attempts, b.attempts, node)
    &&& agree_on(a.pending, b.pending, node)
    &&& agree_on(a.graces, b.graces, node)
    &&& agree_on(a.senders, b.senders, node)
    &&& agree_on(a.restarted, b.restarted, node)
    &&& agree_on(a.epochs, b.epochs, node)
    &&& agree_on(a.negotiations.pending, b.negotiations.pending, node)
    &&& agree_on(a.negotiations.received, b.negotiations.received, node)
    &&& forall|generation: u32| #[trigger]
        agree_on(a.candidates.pending, b.candidates.pending, (node, generation))
    &&& forall|generation: u32| #[trigger]
        agree_on(a.candidates.received, b.candidates.received, (node, generation))
    &&& forall|generation: u32| #[trigger]
        agree_on(a.candidates.ack_pending, b.candidates.ack_pending, (node, generation))
    &&& a.local_node == b.local_node
    &&& a.room == b.room
    &&& a.ice_servers == b.ice_servers
    &&& a.max_connections == b.max_connections
    &&& a.max_message_bytes == b.max_message_bytes
    &&& a.tracks == b.tracks
}

// --- The sweep ---
/// An interrupted connection gets its whole grace period: as long as less than
/// [`DISCONNECTED_GRACE_MS`] has passed since it began, a sweep keeps a connection
/// with a live channel whose ICE has neither failed nor closed, and once that time
/// has passed it gives the connection up.
pub proof fn lemma_interruptions_get_their_grace_period(
    model: TransportModel,
    node: Seq<char>,
    ice: IceState,
    now: u64,
)
    requires
        model.peers.dom().contains(node),
        model.graces.dom().contains(node),
        stored(model.states, node) == Some(ConnectionState::Reconnecting),
        ice != IceState::Failed,
        ice != IceState::Closed,
    ensures
        ({
            let elapsed = now - model.graces[node].started_at;
            let (outcome, after) = swept(model, node, ice, true, now);
            &&& elapsed < DISCONNECTED_GRACE_MS ==> outcome == SweepOutcome::Kept && after == model
            &&& elapsed >= DISCONNECTED_GRACE_MS ==> outcome is Cleaned && outcome->close
                == model.peers[node]
        }),
{
}

/// The grace period runs from the report of the interruption: a connection that
/// ICE reports as interrupted at one time is kept by every sweep before
/// [`DISCONNECTED_GRACE_MS`] have passed, and given up by every later one unless
/// ICE has recovered.
pub proof fn lemma_reported_interruptions_are_swept_in_time(
    model: TransportModel,
    node: Seq<char>,
    open: bool,
    reported: u64,
    now: u64,
)
    requires
        model.peers.dom().contains(node),
        !model.graces.dom().contains(node),
    ensures
        ({
            let interrupted = ice_changed(model, node, IceState::Disconnected, open, reported);
            let (outcome, after) = swept(interrupted, node, IceState::Disconnected, true, now);
            &&& now - reported < DISCONNECTED_GRACE_MS ==> outcome == SweepOutcome::Kept && after
                == interrupted
            &&& now - reported >= DISCONNECTED_GRACE_MS ==> outcome is Cleaned
            &&& swept(
                ice_changed(interrupted, node, IceState::Connected, true, now),
                node,
                IceState::Connected,
                true,
                now,
            ).0 == SweepOutcome::Kept
        }),
{
}

/// A suspicion gets the same time: a connected peer that comes under suspicion is
/// kept until the grace period is over and given up afterwards.
pub proof fn lemma_suspicions_are_swept_in_time(
    model: TransportModel,
    node: Seq<char>,
    suspected: u64,
    now: u64,
)
    requires
        model.peers.dom().contains(node),
        !model.graces.dom().contains(node),
        stored(model.states, node) == Some(ConnectionState::Connected),
    ensures
        ({
            let marked = suspect_marked(model, node, suspected);
            let outcome = swept(marked, node, IceState::Connected, true, now).0;
            &&& outcome == SweepOutcome::Kept <==> now - suspected < DISCONNECTED_GRACE_MS
            &&& outcome is Cleaned <==> now - suspected >= DISCONNECTED_GRACE_MS
        }),
{
}

/// A connection without interruption is never swept while it has a live channel
/// and its ICE works, however much time has passed, and one that is still coming
/// up is kept even without a channel.
pub proof fn lemma_healthy_connections_are_kept(
    model: TransportModel,
    node: Seq<char>,
    ice: IceState,
    has_live_channel: bool,
    now: u64,
)
    requires
        model.peers.dom().contains(node),
        ice == IceState::New || ice == IceState::Checking || ice == IceState::Connected || ice
            == IceState::Completed,
        stored(model.states, node) != Some(ConnectionState::Reconnecting),
        stored(model.states, node) == Some(ConnectionState::Connected) ==> has_live_channel,
    ensures
        swept(model, node, ice, has_live_channel, now) == (SweepOutcome::Kept, model),
{
}

/// A dead connection is swept at once, whatever grace period runs: one whose ICE
/// failed or closed, and one that counts as connected without a live channel.
pub proof fn lemma_dead_connections_are_given_up(
    model: TransportModel,
    node: Seq<char>,
    ice: IceState,
    has_live_channel: bool,
    now: u64,
)
    requires
        model.peers.dom().contains(node),
        ice == IceState::Failed || ice == IceState::Closed || (stored(model.states, node) == Some(
            ConnectionState::Connected,
        ) && !has_live_channel),
    ensures
        ({
            let (outcome, after) = swept(model, node, ice, has_live_channel, now);
            &&& outcome is Cleaned
            &&& outcome->close == model.peers[node]
            &&& outcome->isolation_check == after.recovery_epoch
        }),
{
}

/// Whatever a sweep finds, it concerns the node alone. A node that is given up
/// has nothing left but its disconnected state, a node without a connection is
/// forgotten, and a node that is kept is as before.
pub proof fn lemma_sweeps_are_local_and_complete(
    model: TransportModel,
    node: Seq<char>,
    other: Seq<char>,
    ice: IceState,
    has_live_channel: bool,
    now: u64,
)
    requires
        other != node,
    ensures
        ({
            let (outcome, after) = swept(model, node, ice, has_live_channel, now);
            &&& same_for(model, after, other)
            &&& outcome == SweepOutcome::Forgotten <==> !model.peers.dom().contains(node)
            &&& outcome == SweepOutcome::Kept ==> after == model
            &&& outcome != SweepOutcome::Kept ==> {
                &&& !after.peers.dom().contains(node)
                &&& !after.graces.dom().contains(node)
                &&& !after.pending.dom().contains(node)
                &&& !after.restarted.dom().contains(node)
                &&& !after.epochs.dom().contains(node)
            }
            &&& outcome is Cleaned ==> {
                &&& stored(after.states, node) == Some(ConnectionState::Disconnected)
                &&& !after.senders.dom().contains(node)
                &&& !after.attempts.dom().contains(node)
                &&& after.recovery_epoch != model.recovery_epoch
            }
            &&& outcome == SweepOutcome::Forgotten ==> {
                &&& !after.states.dom().contains(node)
                &&& after.attempts == model.attempts
                &&& after.recovery_epoch == model.recovery_epoch
            }
        }),
{
}

/// A sweep that gave a connection up finds nothing more to do: the next one
/// forgets the node.
pub proof fn lemma_swept_nodes_are_forgotten_next(
    model: TransportModel,
    node: Seq<char>,
    ice: IceState,
    has_live_channel: bool,
    now: u64,
    later_ice: IceState,
    later: u64,
)
    requires
        swept(model, node, ice, has_live_channel, now).0 is Cleaned,
    ensures
        swept(swept(model, node, ice, has_live_channel, now).1, node, later_ice, false, later).0
            == SweepOutcome::Forgotten,
{
}

/// A grace period is over exactly when its time has passed.
pub proof fn lemma_grace_lasts_its_time(grace: DisconnectGrace, elapsed: nat)
    requires
        grace.started_at + elapsed <= u64::MAX,
    ensures
        grace_expired(Some(grace), (grace.started_at + elapsed) as u64) <==> elapsed
            >= DISCONNECTED_GRACE_MS,
        !grace_expired(None, (grace.started_at + elapsed) as u64),
{
}

/// The times fit together: an interruption outlasts two sweeps but ends before an
/// attempt does, and isolation is acted on sooner than that.
pub proof fn lemma_times_fit_together()
    ensures
        2 * SWEEP_INTERVAL_MS <= DISCONNECTED_GRACE_MS,
        DISCONNECTED_GRACE_MS < CONNECTION_TIMEOUT_MS,
        SWEEP_INTERVAL_MS < ISOLATION_RECOVERY_DELAY_MS < DISCONNECTED_GRACE_MS,
{
}

/// One sweep runs at a time: where one is running none is started, and otherwise
/// a new one runs under a number of its own.
pub proof fn lemma_one_sweep_runs_at_a_time(model: TransportModel)
    ensures
        ({
            let (generation, after) = sweeper_ensured(model);
            &&& generation is Some <==> !model.sweeper_started
            &&& generation is None ==> after == model
            &&& after.sweeper_started
            &&& generation is Some ==> generation == Some(after.sweeper_generation)
                && after.sweeper_generation != model.sweeper_generation
            &&& sweeper_ensured(after).0 is None
            &&& after == TransportModel {
                sweeper_started: after.sweeper_started,
                sweeper_generation: after.sweeper_generation,
                ..model
            }
        }),
{
}

// --- Attempts ---
/// An outgoing connection starts exactly if the node is not connected or on its
/// way and a slot is free; otherwise the reason is told and nothing changes.
pub proof fn lemma_connections_start_whenever_they_can(model: TransportModel, node: Seq<char>)
    ensures
        ({
            let (start, after) = connect_decided(model, node);
            let busy = model.states.dom().contains(node) && (model.states[node]
                == ConnectionState::Connected || model.states[node] == ConnectionState::Connecting
                || model.states[node] == ConnectionState::Reconnecting);
            &&& start == ConnectStart::AlreadyActive <==> busy
            &&& start is Started <==> !busy && live_nodes(model.states).len()
                < model.max_connections
            &&& !(start is Started) ==> after == model
        }),
{
}

/// An attempt that starts makes the node connecting, is the one on record for it
/// under a new number, and concerns no other node.
pub proof fn lemma_started_attempts_are_on_record(
    model: TransportModel,
    node: Seq<char>,
    other: Seq<char>,
)
    requires
        connect_decided(model, node).0 is Started,
        other != node,
    ensures
        ({
            let (start, after) = connect_decided(model, node);
            &&& stored(after.states, node) == Some(ConnectionState::Connecting)
            &&& stored(after.attempts, node) == Some(start->attempt_id)
            &&& start->attempt_id != model.last_attempt
            &&& after.last_attempt == start->attempt_id
            &&& after.peers == model.peers
            &&& same_for(model, after, other)
        }),
{
}

/// Every attempt has a number that differs from the one before it, and it
/// replaces the attempt that was on record for its node.
pub proof fn lemma_attempts_are_numbered(model: TransportModel, node: Seq<char>, other: Seq<char>)
    requires
        other != node,
    ensures
        ({
            let after = attempt_reserved(model, node);
            &&& stored(after.attempts, node) == Some(after.last_attempt)
            &&& after.last_attempt != model.last_attempt
            &&& stored(after.attempts, other) == stored(model.attempts, other)
            &&& after == TransportModel {
                attempts: after.attempts,
                last_attempt: after.last_attempt,
                ..model
            }
        }),
{
}

/// Counters count up by one and start over only after the last number.
pub proof fn lemma_counters_count_up(counter: u32)
    ensures
        counter < u32::MAX ==> next_count(counter) == counter + 1,
        counter == u32::MAX ==> next_count(counter) == 0,
{
}

/// An attempt that has had its time is given up exactly if it is still the one on
/// record, the node is still connecting, and ICE or the channels are not up.
/// Otherwise nothing happens.
pub proof fn lemma_only_stalled_attempts_time_out(
    model: TransportModel,
    node: Seq<char>,
    attempt_id: u32,
    ice: IceState,
    channel_alive: bool,
)
    ensures
        ({
            let (check, after) = attempt_timed_out(model, node, attempt_id, ice, channel_alive);
            let works = channel_alive && (ice == IceState::Connected || ice == IceState::Completed);
            &&& check is Some <==> {
                &&& model.attempts.dom().contains(node) && model.attempts[node] == attempt_id
                &&& model.states.dom().contains(node) && model.states[node]
                    == ConnectionState::Connecting
                &&& !works
            }
            &&& check is None ==> after == model
        }),
{
}

/// An attempt that times out leaves the node disconnected, without connection and
/// without attempt, keeps what is known of its restarts, schedules a check for
/// isolation and concerns no other node.
pub proof fn lemma_timeouts_end_the_attempt(
    model: TransportModel,
    node: Seq<char>,
    attempt_id: u32,
    ice: IceState,
    channel_alive: bool,
    other: Seq<char>,
)
    requires
        attempt_timed_out(model, node, attempt_id, ice, channel_alive).0 is Some,
        other != node,
    ensures
        ({
            let (check, after) = attempt_timed_out(model, node, attempt_id, ice, channel_alive);
            &&& check == Some(after.recovery_epoch)
            &&& after.recovery_epoch != model.recovery_epoch
            &&& stored(after.states, node) == Some(ConnectionState::Disconnected)
            &&& !after.peers.dom().contains(node)
            &&& !after.attempts.dom().contains(node)
            &&& !after.senders.dom().contains(node)
            &&& !after.pending.dom().contains(node)
            &&& agree_on(after.restarted, model.restarted, node)
            &&& agree_on(after.epochs, model.epochs, node)
            &&& same_for(model, after, other)
        }),
{
}

/// Scheduling a check for isolation changes nothing but its number.
pub proof fn lemma_scheduling_changes_only_the_check(model: TransportModel)
    ensures
        recovery_scheduled(model).recovery_epoch == next_count(model.recovery_epoch),
        model == (TransportModel {
            recovery_epoch: model.recovery_epoch,
            ..recovery_scheduled(model)
        }),
{
}

/// A teardown concerns the node alone, down to the delivery of its messages.
pub proof fn lemma_teardowns_are_local(model: TransportModel, node: Seq<char>, other: Seq<char>)
    requires
        other != node,
    ensures
        same_for(model, torn_down(model, node), other),
        torn_down(model, node).recovery_epoch == model.recovery_epoch,
        torn_down(model, node).last_attempt == model.last_attempt,
        torn_down(model, node).candidates == model.candidates,
        torn_down(model, node).negotiations == model.negotiations,
{
}

/// Closing everything leaves no peer, no attempt and nothing that waits; checks
/// and sweeps that are under way are void. The settings and the tracks stay.
pub proof fn lemma_closing_leaves_no_peer(model: TransportModel, node: Seq<char>)
    ensures
        ({
            let after = all_closed(model);
            &&& !after.peers.dom().contains(node)
            &&& !after.states.dom().contains(node)
            &&& !after.attempts.dom().contains(node)
            &&& !after.senders.dom().contains(node)
            &&& !after.pending.dom().contains(node)
            &&& !after.restarted.dom().contains(node)
            &&& !after.epochs.dom().contains(node)
            &&& !after.sweeper_started
            &&& after.sweeper_generation != model.sweeper_generation
            &&& after.recovery_epoch != model.recovery_epoch
            &&& after.tracks == model.tracks
            &&& after.room == model.room
            &&& after.max_connections == model.max_connections
            &&& after.max_message_bytes == model.max_message_bytes
            &&& after.ice_servers == model.ice_servers
            &&& after.local_node == model.local_node
            &&& after.last_attempt == model.last_attempt
        }),
{
}

// --- ICE and channels ---
/// What ICE reports of one connection concerns no other node, and none of the
/// counters.
pub proof fn lemma_ice_reports_are_local(
    model: TransportModel,
    node: Seq<char>,
    other: Seq<char>,
    ice: IceState,
    open: bool,
    now: u64,
)
    requires
        other != node,
    ensures
        ({
            let after = ice_changed(model, node, ice, open, now);
            &&& same_for(model, after, other)
            &&& after.recovery_epoch == model.recovery_epoch
            &&& after.last_attempt == model.last_attempt
            &&& after.sweeper_generation == model.sweeper_generation
            &&& after.sweeper_started == model.sweeper_started
            &&& after.attempts == model.attempts
            &&& after.restarted == model.restarted
            &&& after.epochs == model.epochs
        }),
{
    let after = ice_changed(model, node, ice, open, now);
    assert forall|generation: u32| #[trigger]
        agree_on(model.candidates.pending, after.candidates.pending, (other, generation)) by {}
    assert forall|generation: u32| #[trigger]
        agree_on(model.candidates.received, after.candidates.received, (other, generation)) by {}
    assert forall|generation: u32| #[trigger]
        agree_on(
            model.candidates.ack_pending,
            after.candidates.ack_pending,
            (other, generation),
        ) by {}
}

/// A connection stays with the node unless ICE failed or closed: then nothing is
/// left of it, and the loss is reported.
pub proof fn lemma_only_failure_loses_the_connection(
    model: TransportModel,
    node: Seq<char>,
    ice: IceState,
    open: bool,
    stable: bool,
    now: u64,
    generation: u32,
)
    ensures
        ({
            let after = ice_changed(model, node, ice, open, now);
            let failed = ice == IceState::Failed || ice == IceState::Closed;
            &&& !failed ==> after == TransportModel {
                states: after.states,
                graces: after.graces,
                ..model
            }
            &&& ice_reaction(model, node, ice, open, stable) == IceReaction::Lost <==> failed
            &&& failed ==> {
                &&& stored(after.states, node) == Some(ConnectionState::Disconnected)
                &&& !after.peers.dom().contains(node)
                &&& !after.graces.dom().contains(node)
                &&& !after.senders.dom().contains(node)
                &&& !after.pending.dom().contains(node)
                &&& !after.candidates.pending.dom().contains((node, generation))
                &&& !after.candidates.received.dom().contains((node, generation))
                &&& !after.candidates.ack_pending.dom().contains((node, generation))
                &&& !after.negotiations.pending.dom().contains(node)
                &&& !after.negotiations.received.dom().contains(node)
            }
        }),
{
}

/// An interruption makes the connection reconnecting and starts a grace period,
/// which ICE then owns; one that runs already goes on as it is.
pub proof fn lemma_interruptions_start_a_grace_period(
    model: TransportModel,
    node: Seq<char>,
    open: bool,
    now: u64,
)
    ensures
        ({
            let after = ice_changed(model, node, IceState::Disconnected, open, now);
            &&& stored(after.states, node) == Some(ConnectionState::Reconnecting)
            &&& model.graces.dom().contains(node) ==> after.graces == model.graces
            &&& !model.graces.dom().contains(node) ==> stored(after.graces, node) == Some(
                DisconnectGrace { started_at: now, origin: GraceOrigin::Ice },
            )
        }),
{
}

/// Recovery ends the grace period, and the connection counts as connected again
/// exactly if a channel is open; then what waited is sent.
pub proof fn lemma_recovery_ends_the_grace_period(
    model: TransportModel,
    node: Seq<char>,
    ice: IceState,
    open: bool,
    stable: bool,
    now: u64,
)
    requires
        ice == IceState::Connected || ice == IceState::Completed,
    ensures
        ({
            let after = ice_changed(model, node, ice, open, now);
            let reaction = ice_reaction(model, node, ice, open, stable);
            &&& !after.graces.dom().contains(node)
            &&& stored(after.states, node) == Some(ConnectionState::Connected) <==> open
            &&& stored(after.states, node) == Some(ConnectionState::Connecting) <==> !open
            &&& reaction is Recovered
            &&& Some(reaction->state) == stored(after.states, node)
            &&& reaction->flush <==> open
            &&& reaction->grace_ended <==> model.graces.dom().contains(node)
        }),
{
}

/// While ICE is being set up the connection is connecting, and a new one changes
/// nothing.
pub proof fn lemma_setup_is_connecting(
    model: TransportModel,
    node: Seq<char>,
    open: bool,
    stable: bool,
    now: u64,
)
    ensures
        stored(ice_changed(model, node, IceState::Checking, open, now).states, node) == Some(
            ConnectionState::Connecting,
        ),
        ice_changed(model, node, IceState::Checking, open, now).graces == model.graces,
        ice_reaction(model, node, IceState::Checking, open, stable) == IceReaction::Checking,
        ice_changed(model, node, IceState::New, open, now) == model,
        ice_reaction(model, node, IceState::New, open, stable) == IceReaction::Unchanged,
{
}

/// ICE is restarted exactly by the node whose name comes first, at the beginning
/// of an interruption, while signaling is at rest; without rest it is not.
pub proof fn lemma_restarts_need_rest_and_a_new_interruption(
    model: TransportModel,
    node: Seq<char>,
    open: bool,
    stable: bool,
)
    ensures
        ({
            let reaction = ice_reaction(model, node, IceState::Disconnected, open, stable);
            &&& reaction is Interrupted
            &&& reaction->restart ==> stable && !model.graces.dom().contains(node)
            &&& stable && !model.graces.dom().contains(node) ==> (reaction->restart
                <==> name_precedes(model.local_node, node))
        }),
{
}

/// A closed channel ends the connection and leaves nothing of it, and no other
/// node is concerned.
pub proof fn lemma_closed_channels_end_the_connection(
    model: TransportModel,
    node: Seq<char>,
    other: Seq<char>,
)
    requires
        other != node,
    ensures
        ({
            let after = channel_lost(model, node);
            &&& !after.peers.dom().contains(node)
            &&& !after.states.dom().contains(node)
            &&& !after.graces.dom().contains(node)
            &&& !after.senders.dom().contains(node)
            &&& !after.pending.dom().contains(node)
            &&& same_for(model, after, other)
            &&& after.recovery_epoch == model.recovery_epoch
            &&& after.attempts == model.attempts
            &&& after.restarted == model.restarted
            &&& after.epochs == model.epochs
        }),
{
}

/// A peer becomes connected when the reliable channel of its held connection
/// opens, and by no other channel or connection. It is announced if it was not
/// connected before, and an interruption is over with it.
pub proof fn lemma_the_reliable_channel_connects(
    model: TransportModel,
    node: Seq<char>,
    handle: u64,
    method: DeliveryMethod,
    other: Seq<char>,
)
    requires
        other != node,
    ensures
        ({
            let (opened, after) = channel_announced(model, node, handle, method);
            let counts = method == DeliveryMethod::ReliableOrdered && model.peers.dom().contains(
                node,
            ) && model.peers[node] == handle;
            &&& opened == ChannelOpened::Ignored <==> !counts
            &&& !counts ==> after == model
            &&& counts ==> {
                &&& stored(after.states, node) == Some(ConnectionState::Connected)
                &&& !after.graces.dom().contains(node)
                &&& opened->announce <==> !(model.states.dom().contains(node) && model.states[node]
                    == ConnectionState::Connected)
                &&& channel_announced(after, node, handle, method) == (
                    ChannelOpened::Connected { announce: false },
                    after,
                )
                &&& after == TransportModel {
                    states: after.states,
                    graces: after.graces,
                    ..model
                }
            }
            &&& same_for(model, after, other)
        }),
{
    let (opened, after) = channel_announced(model, node, handle, method);
    assert(channel_announced(after, node, handle, method).1 =~= after
        || opened == ChannelOpened::Ignored);
}

// --- Suspicion ---
/// Only a connected peer comes under suspicion. It then counts as reconnecting,
/// its grace period runs from that moment, and no other node is concerned.
pub proof fn lemma_suspicion_falls_on_connected_peers(
    model: TransportModel,
    node: Seq<char>,
    now: u64,
    other: Seq<char>,
)
    requires
        other != node,
    ensures
        ({
            let after = suspect_marked(model, node, now);
            let connected = stored(model.states, node) == Some(ConnectionState::Connected);
            &&& !connected ==> after == model
            &&& connected ==> {
                &&& stored(after.states, node) == Some(ConnectionState::Reconnecting)
                &&& after.graces.dom().contains(node)
                &&& model.graces.dom().contains(node) ==> after.graces == model.graces
                &&& !model.graces.dom().contains(node) ==> after.graces[node] == (DisconnectGrace {
                    started_at: now,
                    origin: GraceOrigin::LivenessSuspect,
                })
            }
            &&& same_for(model, after, other)
            &&& after == TransportModel { states: after.states, graces: after.graces, ..model }
        }),
{
}

/// A suspicion can be taken back exactly where one runs for a node that is on
/// record; the node is then connected and its grace period over, and no other
/// node is concerned.
pub proof fn lemma_suspicions_can_be_taken_back(
    model: TransportModel,
    node: Seq<char>,
    other: Seq<char>,
)
    requires
        other != node,
    ensures
        is_suspect(model, node) <==> {
            &&& model.states.dom().contains(node)
            &&& model.graces.dom().contains(node)
            &&& model.graces[node].origin != GraceOrigin::Ice
        },
        ({
            let after = suspect_cleared(model, node);
            &&& is_suspect(model, node) ==> stored(after.states, node) == Some(
                ConnectionState::Connected,
            ) && !after.graces.dom().contains(node)
            &&& !is_suspect(model, node) ==> after == model
            &&& same_for(model, after, other)
            &&& after == TransportModel { states: after.states, graces: after.graces, ..model }
        }),
{
}

// --- Track changes ---
/// Each event in the negotiation of tracks does one thing: an offer that was sent
/// leaves a waiting change waiting, an offer that came to nothing makes it wait,
/// and whatever settles signaling ends the waiting.
pub proof fn lemma_track_events_do_one_thing(waiting: bool)
    ensures
        tracks_wait_after(waiting, TrackEvent::OfferMade) == waiting,
        tracks_wait_after(waiting, TrackEvent::OfferFailed),
        tracks_wait_after(waiting, TrackEvent::OfferYielded),
        tracks_wait_after(waiting, TrackEvent::AnswerStale),
        !tracks_wait_after(waiting, TrackEvent::AnswerApplied),
        !tracks_wait_after(waiting, TrackEvent::OfferAnswered),
        !tracks_wait_after(waiting, TrackEvent::RolledBack),
        !tracks_wait_after(waiting, TrackEvent::IceConnected),
        forall|event: TrackEvent|
            #![trigger super::peer::settles_tracks(event)]
            super::peer::settles_tracks(event) <==> !tracks_wait_after(true, event),
{
}

} // verus!
