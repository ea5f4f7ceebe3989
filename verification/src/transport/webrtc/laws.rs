//! What holds of the transport as a whole.

use vstd::prelude::*;

use super::lifecycle::{
    all_peers_lost, attempt_reserved, connect_started, finds_isolation, is_suspect, live_nodes,
    may_connect, recovery_scheduled, stored, suspect_cleared, suspect_marked, torn_down, IceState,
};
use super::negotiation::{
    after_step, already_rebuilt, epoch_stamped, first_step, offer_action_in, offer_received,
    request_action_in, restart_noted, restart_taken, Exchange, ExchangeNext, ExchangeStep,
    SignalingState, StepResult,
};
use super::offer_guard::OfferAction;
use super::peer::{
    channel_lost, defers_tracks, ice_changed, ice_reaction, settles_tracks, tracks_wait_after,
    tracks_wait_after_all, IceReaction, TrackEvent,
};
use super::request_guard::RequestAction;
use super::sending::{send_outcome, ChannelSnapshots};
use super::{GraceOrigin, TransportModel};
use crate::text::lemma_name_order_is_strict;
use crate::types::{ConnectionState, DeliveryMethod};

verus! {

/// A teardown leaves nothing of the peer but its disconnected state and a
/// running grace period, and it touches no other peer.
pub proof fn lemma_teardown_is_complete_and_local(
    model: TransportModel,
    node: Seq<char>,
    other: Seq<char>,
)
    requires
        other != node,
    ensures
        ({
            let after = torn_down(model, node);
            &&& stored(after.states, node) == Some(ConnectionState::Disconnected)
            &&& stored(after.peers, node) is None
            &&& stored(after.attempts, node) is None
            &&& stored(after.pending, node) is None
            &&& stored(after.senders, node) is None
            &&& stored(after.restarted, node) is None
            &&& stored(after.epochs, node) is None
            &&& after.graces == model.graces
            &&& stored(after.states, other) == stored(model.states, other)
            &&& stored(after.peers, other) == stored(model.peers, other)
            &&& stored(after.attempts, other) == stored(model.attempts, other)
            &&& stored(after.pending, other) == stored(model.pending, other)
            &&& stored(after.senders, other) == stored(model.senders, other)
            &&& stored(after.restarted, other) == stored(model.restarted, other)
            &&& stored(after.epochs, other) == stored(model.epochs, other)
        }),
{
}

/// A teardown that is repeated changes nothing more.
pub proof fn lemma_teardown_is_idempotent(model: TransportModel, node: Seq<char>)
    ensures
        torn_down(torn_down(model, node), node) == torn_down(model, node),
{
    assert(torn_down(torn_down(model, node), node) =~= torn_down(model, node));
}

/// A restart mark is used up by the first request or offer that meets it.
pub proof fn lemma_restart_mark_is_one_shot(model: TransportModel, node: Seq<char>)
    ensures
        stored(restart_taken(model, node).restarted, node) is None,
        restart_taken(restart_taken(model, node), node) == restart_taken(model, node),
{
    assert(restart_taken(restart_taken(model, node), node) =~= restart_taken(model, node));
}

/// After the notice that a peer restarted, its next request reconnects and its
/// next offer builds a new connection, and both learn the newest epoch.
pub proof fn lemma_restart_forces_a_rebuild(
    model: TransportModel,
    node: Seq<char>,
    epoch: u64,
    has_open_channel: bool,
    signaling: SignalingState,
)
    ensures
        ({
            let noted = restart_noted(model, node, epoch);
            &&& stored(noted.peers, node) is None
            &&& noted.restarted.dom().contains(node)
            &&& noted.restarted[node] >= epoch
            &&& request_action_in(noted, node, has_open_channel) == RequestAction::CleanupAndConnect
            &&& offer_action_in(noted, node, signaling) == (OfferAction::Accept {
                newly_reserved: false,
            })
        }),
{
}

/// Once the connection that answers a restart is built, notices of that restart
/// or of an earlier one leave it alone, and only a later restart tears it down.
pub proof fn lemma_repeated_notices_are_harmless(
    model: TransportModel,
    node: Seq<char>,
    epoch: u64,
    handle: u64,
    late: u64,
)
    requires
        late != 0,
    ensures
        ({
            let noted = restart_noted(model, node, epoch);
            let newest = noted.restarted[node];
            let accepted = offer_received(
                noted,
                node,
                OfferAction::Accept { newly_reserved: false },
            );
            let built = attempt_reserved(
                TransportModel { peers: accepted.peers.insert(node, handle), ..accepted },
                node,
            );
            let answered = epoch_stamped(built, node, stored(noted.restarted, node));
            already_rebuilt(answered, node, late) <==> late <= newest
        }),
{
}

/// A suspicion that proves wrong leaves everything as it was.
pub proof fn lemma_wrong_suspicion_leaves_no_trace(
    model: TransportModel,
    node: Seq<char>,
    now: u64,
)
    requires
        stored(model.states, node) == Some(ConnectionState::Connected),
        !model.graces.dom().contains(node),
    ensures
        is_suspect(suspect_marked(model, node, now), node),
        suspect_cleared(suspect_marked(model, node, now), node) == model,
{
    assert(suspect_cleared(suspect_marked(model, node, now), node) =~= model);
}

/// An interruption that ICE reported is not ended by taking a suspicion back.
pub proof fn lemma_ice_grace_outlasts_suspicion(model: TransportModel, node: Seq<char>, now: u64)
    requires
        model.graces.dom().contains(node),
        model.graces[node].origin == GraceOrigin::Ice,
    ensures
        suspect_cleared(model, node) == model,
        suspect_cleared(suspect_marked(model, node, now), node) == suspect_marked(
            model,
            node,
            now,
        ),
{
}

/// Starting a connection never exceeds the limit on connections.
pub proof fn lemma_connections_stay_within_limit(model: TransportModel, node: Seq<char>)
    requires
        live_nodes(model.states).finite(),
        may_connect(model, node),
    ensures
        live_nodes(connect_started(model, node).states).len() <= model.max_connections,
{
    assert(live_nodes(connect_started(model, node).states) =~= live_nodes(model.states).insert(
        node,
    ));
}

/// Reserving a slot for an inbound offer never exceeds the limit either.
pub proof fn lemma_offers_stay_within_limit(
    model: TransportModel,
    remote: Seq<char>,
    signaling: SignalingState,
)
    requires
        live_nodes(model.states).finite(),
        offer_action_in(model, remote, signaling) == (OfferAction::Accept { newly_reserved: true }),
    ensures
        live_nodes(
            offer_received(model, remote, offer_action_in(model, remote, signaling)).states,
        ).len() <= model.max_connections,
{
    let after = offer_received(model, remote, offer_action_in(model, remote, signaling));
    assert(live_nodes(after.states) =~= live_nodes(model.states).insert(remote));
}

/// A node that is connecting is not isolated, however many peers it has lost.
pub proof fn lemma_connecting_is_not_isolated(model: TransportModel, node: Seq<char>)
    ensures
        !all_peers_lost(connect_started(model, node)),
        !all_peers_lost(attempt_reserved(model, node)),
{
    assert(connect_started(model, node).attempts.dom().contains(node));
    assert(attempt_reserved(model, node).attempts.dom().contains(node));
}

/// Scheduling a check for isolation voids the one before it.
pub proof fn lemma_new_check_voids_the_last(model: TransportModel)
    ensures
        recovery_scheduled(model).recovery_epoch != model.recovery_epoch,
{
}

/// A confirmed loss is followed by a check for isolation: whether ICE failed or a
/// channel closed, the check that the loss schedules replaces the one before it,
/// and it finds the node isolated exactly if no other peer is live and no attempt
/// is on record.
pub proof fn lemma_loss_is_checked_for_isolation(
    model: TransportModel,
    node: Seq<char>,
    ice: IceState,
    has_open_channel: bool,
    now: u64,
)
    requires
        ice == IceState::Failed || ice == IceState::Closed,
    ensures
        ({
            let by_ice = recovery_scheduled(
                ice_changed(model, node, ice, has_open_channel, now),
            );
            let by_channel = recovery_scheduled(channel_lost(model, node));
            let alone = live_nodes(model.states).subset_of(set![node]) && model.attempts.dom()
                == Set::<Seq<char>>::empty();
            &&& !finds_isolation(by_ice, model.recovery_epoch)
            &&& !finds_isolation(by_channel, model.recovery_epoch)
            &&& finds_isolation(by_ice, by_ice.recovery_epoch) <==> alone
            &&& finds_isolation(by_channel, by_channel.recovery_epoch) <==> alone
        }),
{
    let by_ice = ice_changed(model, node, ice, has_open_channel, now);
    let by_channel = channel_lost(model, node);
    let others = live_nodes(model.states).remove(node);
    assert(live_nodes(by_ice.states) =~= others);
    assert(live_nodes(by_channel.states) =~= others);
    if live_nodes(model.states).subset_of(set![node]) {
        assert(others =~= Set::empty());
    }
    if others =~= Set::empty() {
        assert forall|live: Seq<char>| live_nodes(model.states).contains(live) implies set![
            node,
        ].contains(live) by {
            if live != node {
                assert(others.contains(live));
            }
        }
    }
}

/// When the connection between two nodes is interrupted, exactly one of them
/// restarts ICE.
pub proof fn lemma_one_side_restarts(
    here: TransportModel,
    there: TransportModel,
    open_here: bool,
    open_there: bool,
)
    requires
        here.local_node != there.local_node,
        !here.graces.dom().contains(there.local_node),
        !there.graces.dom().contains(here.local_node),
    ensures
        ({
            let reaction_here = ice_reaction(
                here,
                there.local_node,
                IceState::Disconnected,
                open_here,
                true,
            );
            let reaction_there = ice_reaction(
                there,
                here.local_node,
                IceState::Disconnected,
                open_there,
                true,
            );
            (reaction_here == IceReaction::Interrupted { restart: true }) != (reaction_there
                == IceReaction::Interrupted { restart: true })
        }),
{
    lemma_name_order_is_strict(here.local_node, there.local_node);
}

/// An interruption restarts ICE at most once: while the grace period runs, a
/// repeated report changes nothing more.
pub proof fn lemma_restart_happens_once_per_grace(
    model: TransportModel,
    node: Seq<char>,
    open: bool,
    stable: bool,
    now: u64,
    later: u64,
)
    ensures
        ({
            let interrupted = ice_changed(model, node, IceState::Disconnected, open, now);
            &&& ice_reaction(interrupted, node, IceState::Disconnected, open, stable)
                == (IceReaction::Interrupted { restart: false })
            &&& ice_changed(interrupted, node, IceState::Disconnected, open, later) == interrupted
        }),
{
    let interrupted = ice_changed(model, node, IceState::Disconnected, open, now);
    assert(ice_changed(interrupted, node, IceState::Disconnected, open, later) =~= interrupted);
}

/// ICE may flicker between its two good states without any effect.
pub proof fn lemma_recovery_is_idempotent(
    model: TransportModel,
    node: Seq<char>,
    open: bool,
    now: u64,
    later: u64,
)
    ensures
        ({
            let recovered = ice_changed(model, node, IceState::Connected, open, now);
            &&& ice_changed(model, node, IceState::Completed, open, now) == recovered
            &&& ice_changed(recovered, node, IceState::Connected, open, later) == recovered
            &&& ice_changed(recovered, node, IceState::Completed, open, later) == recovered
        }),
{
    let recovered = ice_changed(model, node, IceState::Connected, open, now);
    assert(ice_changed(recovered, node, IceState::Connected, open, later) =~= recovered);
    assert(ice_changed(recovered, node, IceState::Completed, open, later) =~= recovered);
}

/// Whatever leaves the node or waits for a peer respects the size limit, and
/// an unreliable message neither waits nor is kept.
pub proof fn lemma_sends_respect_the_limit(
    model: TransportModel,
    node: Seq<char>,
    size: usize,
    method: DeliveryMethod,
    channels: ChannelSnapshots,
)
    ensures
        ({
            let outcome = send_outcome(model, node, size, method, channels);
            &&& size > model.max_message_bytes ==> outcome is Fail
            &&& method != DeliveryMethod::ReliableOrdered ==> !(outcome is Defer) && !(
            outcome is WaitThenSend)
        }),
{
}

/// An exchange that meets no obstacle applies its steps in order and sends one
/// description.
pub proof fn lemma_exchange_runs_to_its_end(exchange: Exchange)
    ensures
        first_step(exchange) == ExchangeStep::SetRemote ==> after_step(
            exchange,
            ExchangeStep::SetRemote,
            StepResult::Succeeded,
        ) == ExchangeNext::Continue(ExchangeStep::CreateLocal),
        after_step(exchange, ExchangeStep::CreateLocal, StepResult::Succeeded)
            == ExchangeNext::Continue(ExchangeStep::SetLocal),
        after_step(exchange, ExchangeStep::SetLocal, StepResult::Succeeded)
            == ExchangeNext::Continue(ExchangeStep::Send),
        after_step(exchange, ExchangeStep::Send, StepResult::Succeeded) == ExchangeNext::Finished,
{
}

/// No track change is lost: one that could not be negotiated waits, whatever
/// happens, until signaling settles, and then it is negotiated, once.
pub proof fn lemma_track_change_is_not_lost(
    waiting: bool,
    deferral: TrackEvent,
    events: Seq<TrackEvent>,
    settling: TrackEvent,
)
    requires
        defers_tracks(deferral),
        forall|i: int| 0 <= i < events.len() ==> !settles_tracks(#[trigger] events[i]),
        settles_tracks(settling),
    ensures
        tracks_wait_after_all(tracks_wait_after(waiting, deferral), events),
        !tracks_wait_after(
            tracks_wait_after_all(tracks_wait_after(waiting, deferral), events),
            settling,
        ),
    decreases events.len(),
{
    if events.len() > 0 {
        let earlier = events.drop_last();
        assert forall|i: int| 0 <= i < earlier.len() implies !settles_tracks(
            #[trigger] earlier[i],
        ) by {
            assert(earlier[i] == events[i]);
        }
        lemma_track_change_is_not_lost(waiting, deferral, earlier, settling);
    }
}

} // verus!
