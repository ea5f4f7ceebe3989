//! What holds of offers, answers, requests and restarts.

use vstd::prelude::*;

use super::connection_laws::same_for;
use super::lifecycle::{live_nodes, stored};
use super::messages::{
    candidate_buffered, candidate_decided, candidates_buffered, is_for_room, step_for,
    CandidateFate, SignalingStep,
};
use super::negotiation::{
    after_answer, after_step, already_rebuilt, answer_decision, epoch_stamped, first_step,
    may_offer, offer_action_in, offer_built, offer_received, rejoin_decided, rejoin_epoch,
    request_action_in, request_decided, reservation_returned, restart_taken,
    snapshot_of, AnswerAction, AnswerStep, Exchange, ExchangeNext, ExchangeStep, SignalingState,
    StepResult,
};
use super::offer_guard::{OfferAction, SignalingSnapshot};
use super::pending_candidates::{
    active_for_pending, candidates_for, MAX_PENDING_CANDIDATES_PER_NODE,
};
use super::request_guard::RequestAction;
use super::sdp_lines::media_sections;
use super::TransportModel;
use crate::text::{decimal_text, lemma_decimal_text_reads_back, name_precedes};
use crate::types::{ConnectionState, SignalingData, SignalingType};

verus! {

// --- Exchanges ---
/// An exchange that answers begins with the remote's description, and one that
/// offers has none to begin with.
pub proof fn lemma_answers_begin_with_the_offer(exchange: Exchange)
    ensures
        first_step(exchange) == ExchangeStep::SetRemote <==> exchange == Exchange::FirstAnswer
            || exchange == Exchange::AnswerInPlace,
        first_step(exchange) == ExchangeStep::CreateLocal <==> exchange == Exchange::Offer
            || exchange == Exchange::IceRestartOffer,
{
}

/// A step that fails ends its exchange. The connection is rolled back exactly if
/// it outlives the failure and a description was rejected: a new connection and a
/// restart are given up, and there is nothing to take back once the description
/// is only to be sent, or where the browser made none.
pub proof fn lemma_failures_end_the_exchange(
    exchange: Exchange,
    step: ExchangeStep,
    result: StepResult,
)
    requires
        result != StepResult::Succeeded,
    ensures
        ({
            let next = after_step(exchange, step, result);
            &&& next is Failed
            &&& next->roll_back <==> {
                &&& result == StepResult::Rejected
                &&& exchange == Exchange::Offer || exchange == Exchange::AnswerInPlace
                &&& step != ExchangeStep::Send
            }
        }),
{
}

/// A step that succeeds never fails its exchange, which ends only when the
/// description was sent.
pub proof fn lemma_exchanges_end_by_sending(exchange: Exchange, step: ExchangeStep)
    ensures
        ({
            let next = after_step(exchange, step, StepResult::Succeeded);
            &&& !(next is Failed)
            &&& next == ExchangeNext::Finished <==> step == ExchangeStep::Send
            &&& next == ExchangeNext::Continue(ExchangeStep::CreateLocal) <==> step
                == ExchangeStep::SetRemote
            &&& next == ExchangeNext::Continue(ExchangeStep::SetLocal) <==> step
                == ExchangeStep::CreateLocal
            &&& next == ExchangeNext::Continue(ExchangeStep::Send) <==> step
                == ExchangeStep::SetLocal
        }),
{
}

/// An answer that fits our description is applied, and so is any answer where the
/// connection has no description of ours; one that does not fit is never applied.
pub proof fn lemma_fitting_answers_are_applied(local: Seq<char>, answer: Seq<char>)
    ensures
        answer_decision(Some(local), local) == AnswerAction::Apply,
        answer_decision(None, answer) == AnswerAction::Apply,
        answer_decision(Some(local), answer) == AnswerAction::Apply <==> media_sections(local)
            == media_sections(answer),
        answer_decision(Some(local), answer) != AnswerAction::Apply ==> answer_decision(
            Some(local),
            answer,
        ) == AnswerAction::IgnoreStale,
{
}

/// An answer is applied once, and then signaling settles or is rolled back by how
/// that ended; a stale answer is never applied.
pub proof fn lemma_answers_settle_or_are_taken_back(action: AnswerAction, applied: Option<StepResult>)
    ensures
        after_answer(action, applied) == AnswerStep::SetRemote <==> action == AnswerAction::Apply
            && applied is None,
        after_answer(action, applied) == AnswerStep::Settle <==> action == AnswerAction::Apply
            && applied == Some(StepResult::Succeeded),
        after_answer(action, applied) == AnswerStep::RollBack <==> action == AnswerAction::Apply
            && applied is Some && applied != Some(StepResult::Succeeded),
        after_answer(action, applied) == AnswerStep::DeferTracks <==> action
            == AnswerAction::IgnoreStale,
{
}

/// Our own offer is made only to a peer that is up or on its way up.
pub proof fn lemma_offers_go_to_peers_on_their_way_up(state: ConnectionState)
    ensures
        may_offer(Some(state)) <==> state == ConnectionState::Connected || state
            == ConnectionState::Connecting,
        !may_offer(None),
{
}

/// An offer sees of the signaling state whether it is at rest and whether an
/// offer of our own is pending, and every other state alike.
pub proof fn lemma_offers_see_rest_and_own_offers(signaling: SignalingState)
    ensures
        snapshot_of(signaling) == SignalingSnapshot::Stable <==> signaling
            == SignalingState::Stable,
        snapshot_of(signaling) == SignalingSnapshot::HaveLocalOffer <==> signaling
            == SignalingState::HaveLocalOffer,
{
}

// --- Offers ---
/// An offer from a node without connection is accepted whenever a slot is free,
/// and always if the node is on record; it is refused exactly if it is not and
/// there is no slot. A node with a connection is never refused.
pub proof fn lemma_offers_are_accepted_while_slots_are_free(
    model: TransportModel,
    remote: Seq<char>,
    signaling: SignalingState,
)
    ensures
        ({
            let action = offer_action_in(model, remote, signaling);
            let held = model.peers.dom().contains(remote);
            let known = model.states.dom().contains(remote);
            let full = live_nodes(model.states).len() >= model.max_connections;
            &&& action == OfferAction::IgnoreAtCapacity <==> !held && !known && full
            &&& action is Accept <==> !held && (known || !full)
            &&& action is Accept ==> (action->newly_reserved <==> !known)
        }),
{
}

/// An offer on a held connection is taken on it wherever that can be done, and
/// leads to a new connection exactly if the remote restarted.
pub proof fn lemma_offers_are_taken_on_held_connections(
    model: TransportModel,
    remote: Seq<char>,
    signaling: SignalingState,
)
    requires
        model.peers.dom().contains(remote),
    ensures
        ({
            let action = offer_action_in(model, remote, signaling);
            let restarted = model.restarted.dom().contains(remote);
            &&& action == OfferAction::ReplacePeer <==> restarted
            &&& action == OfferAction::ApplyInPlace <==> !restarted && signaling
                == SignalingState::Stable
            &&& action == OfferAction::YieldAndApply <==> !restarted && signaling
                == SignalingState::HaveLocalOffer
        }),
{
}

/// Deciding on an offer uses up the restart mark of its sender, reserves a slot
/// where the decision says so, tears down a session that is gone, and otherwise
/// changes nothing, least of all for another node.
pub proof fn lemma_offers_change_only_what_they_must(
    model: TransportModel,
    remote: Seq<char>,
    action: OfferAction,
    other: Seq<char>,
)
    requires
        other != remote,
    ensures
        ({
            let after = offer_received(model, remote, action);
            &&& !after.restarted.dom().contains(remote)
            &&& same_for(model, after, other)
            &&& action == (OfferAction::Accept { newly_reserved: true }) ==> stored(
                after.states,
                remote,
            ) == Some(ConnectionState::Connecting)
            &&& action == OfferAction::ReplacePeer ==> {
                &&& stored(after.states, remote) == Some(ConnectionState::Disconnected)
                &&& !after.peers.dom().contains(remote)
                &&& !after.attempts.dom().contains(remote)
                &&& !after.graces.dom().contains(remote)
                &&& !after.epochs.dom().contains(remote)
                &&& !after.pending.dom().contains(remote)
                &&& !after.senders.dom().contains(remote)
            }
            &&& action != OfferAction::ReplacePeer ==> {
                &&& after == TransportModel {
                    states: after.states,
                    restarted: after.restarted,
                    ..model
                }
                &&& action != (OfferAction::Accept { newly_reserved: true }) ==> after.states
                    == model.states
            }
            &&& after.recovery_epoch == model.recovery_epoch
        }),
{
}

/// A slot that was reserved for an offer is given back whole when no connection
/// can be built, and a sender that was on record stays on record.
pub proof fn lemma_failed_offers_leave_no_trace(
    model: TransportModel,
    remote: Seq<char>,
    signaling: SignalingState,
)
    requires
        !model.restarted.dom().contains(remote),
        offer_action_in(model, remote, signaling) is Accept,
    ensures
        ({
            let action = offer_action_in(model, remote, signaling);
            reservation_returned(
                offer_received(model, remote, action),
                remote,
                action->newly_reserved,
            ) == model
        }),
{
    let action = offer_action_in(model, remote, signaling);
    assert(reservation_returned(
        offer_received(model, remote, action),
        remote,
        action->newly_reserved,
    ) =~= model);
}

/// A connection that is built for an offer is the held one, has an attempt of its
/// own, and concerns no other node.
pub proof fn lemma_accepted_offers_get_their_connection(
    model: TransportModel,
    remote: Seq<char>,
    handle: u64,
    other: Seq<char>,
)
    requires
        other != remote,
    ensures
        ({
            let after = offer_built(model, remote, handle);
            &&& stored(after.peers, remote) == Some(handle)
            &&& stored(after.attempts, remote) == Some(after.last_attempt)
            &&& after.last_attempt != model.last_attempt
            &&& after.states == model.states
            &&& same_for(model, after, other)
        }),
{
}

// --- Requests ---
/// Of two nodes that ask each other to connect, at most one connects: a request
/// is answered only by the node whose name comes first, and changes nothing at
/// the other one.
pub proof fn lemma_one_side_answers_a_request(
    model: TransportModel,
    node: Seq<char>,
    has_open_channel: bool,
)
    requires
        !name_precedes(model.local_node, node),
    ensures
        request_decided(model, node, has_open_channel).0.action == RequestAction::Ignore,
        request_decided(model, node, has_open_channel).1 == model,
{
}

/// A request that comes to the right node is ignored only while a session with
/// the sender is at work; otherwise the node connects. What is left of an old
/// session is closed and torn down first, and nothing else is.
pub proof fn lemma_requests_lead_to_a_connection(
    model: TransportModel,
    node: Seq<char>,
    has_open_channel: bool,
    other: Seq<char>,
)
    requires
        name_precedes(model.local_node, node),
        other != node,
    ensures
        ({
            let (plan, after) = request_decided(model, node, has_open_channel);
            let state = stored(model.states, node);
            let at_work = {
                ||| state == Some(ConnectionState::Connected) && model.peers.dom().contains(node)
                    && has_open_channel
                ||| state == Some(ConnectionState::Connecting) && model.attempts.dom().contains(
                    node,
                )
                ||| state == Some(ConnectionState::Reconnecting) && model.attempts.dom().contains(
                    node,
                )
            };
            let restarted = model.restarted.dom().contains(node);
            &&& plan.action == RequestAction::Ignore <==> at_work && !restarted
            &&& plan.action == RequestAction::Connect <==> !restarted && (state is None || state
                == Some(ConnectionState::Disconnected))
            &&& plan.action == request_action_in(model, node, has_open_channel)
            &&& plan.restarted_epoch == stored(model.restarted, node)
            &&& plan.replaced == if plan.action == RequestAction::CleanupAndConnect {
                stored(model.peers, node)
            } else {
                None
            }
            &&& plan.action == RequestAction::CleanupAndConnect ==> {
                &&& !after.peers.dom().contains(node)
                &&& !after.attempts.dom().contains(node)
                &&& stored(after.states, node) == Some(ConnectionState::Disconnected)
            }
            &&& plan.action != RequestAction::CleanupAndConnect ==> after == (TransportModel {
                restarted: after.restarted,
                ..model
            })
            &&& !after.restarted.dom().contains(node)
            &&& same_for(model, after, other)
        }),
{
}

// --- Restarts ---
/// A notice that carries a number says when the node restarted; one that carries
/// none says nothing of when.
pub proof fn lemma_notices_tell_the_epoch(epoch: u64)
    ensures
        rejoin_epoch(decimal_text(epoch as nat)) == epoch,
        rejoin_epoch(Seq::empty()) == 0,
{
    lemma_decimal_text_reads_back(epoch);
}

/// A restart is already answered only by a held connection that was built for the
/// same session or a later one; a notice without epoch is never already answered.
pub proof fn lemma_only_newer_connections_answer_a_restart(
    model: TransportModel,
    node: Seq<char>,
    epoch: u64,
)
    ensures
        already_rebuilt(model, node, epoch) <==> {
            &&& epoch > 0
            &&& model.peers.dom().contains(node)
            &&& model.epochs.dom().contains(node)
            &&& model.epochs[node] >= epoch
        },
{
}

/// A notice that is answered already changes nothing. Any other closes the held
/// connection, tears its session down, and leaves a mark with the newest epoch
/// that was heard of, which concerns no other node.
pub proof fn lemma_notices_tear_down_old_sessions(
    model: TransportModel,
    node: Seq<char>,
    epoch: u64,
    other: Seq<char>,
)
    requires
        other != node,
    ensures
        ({
            let (replaced, after) = rejoin_decided(model, node, epoch);
            &&& replaced is None <==> already_rebuilt(model, node, epoch)
            &&& replaced is None ==> after == model
            &&& replaced is Some ==> {
                &&& replaced == Some(stored(model.peers, node))
                &&& !after.peers.dom().contains(node)
                &&& stored(after.states, node) == Some(ConnectionState::Disconnected)
                &&& !after.epochs.dom().contains(node)
                &&& !after.attempts.dom().contains(node)
                &&& after.restarted.dom().contains(node)
                &&& after.restarted[node] >= epoch
                &&& model.restarted.dom().contains(node) ==> after.restarted[node]
                    >= model.restarted[node]
                &&& after.restarted[node] == epoch || Some(after.restarted[node]) == stored(
                    model.restarted,
                    node,
                )
            }
            &&& same_for(model, after, other)
        }),
{
}

/// The mark of a restart is removed and nothing else, and a connection is stamped
/// with the restart that it answers, if it answers one.
pub proof fn lemma_marks_and_stamps_are_local(
    model: TransportModel,
    node: Seq<char>,
    epoch: Option<u64>,
    other: Seq<char>,
)
    requires
        other != node,
    ensures
        same_for(model, restart_taken(model, node), other),
        restart_taken(model, node) == (TransportModel {
            restarted: model.restarted.remove(node),
            ..model
        }),
        same_for(model, epoch_stamped(model, node, epoch), other),
        epoch is Some ==> stored(epoch_stamped(model, node, epoch).epochs, node) == epoch,
        epoch is None ==> epoch_stamped(model, node, epoch) == model,
        epoch_stamped(model, node, epoch) == (TransportModel {
            epochs: epoch_stamped(model, node, epoch).epochs,
            ..model
        }),
{
}

// --- Messages and candidates ---
/// Every message is handled by its kind, with its sender and its content.
pub proof fn lemma_messages_are_handled_by_their_kind(data: SignalingData)
    ensures
        data.signaling_type == SignalingType::Offer <==> step_for(data) is Offer,
        data.signaling_type == SignalingType::Answer <==> step_for(data) is Answer,
        data.signaling_type == SignalingType::Candidate <==> step_for(data) is Candidate,
        data.signaling_type == SignalingType::Candidates <==> step_for(data) is Candidates,
        data.signaling_type == SignalingType::Request <==> step_for(data) is Request,
        data.signaling_type == SignalingType::Rejoin <==> step_for(data) is Rejoin,
        match step_for(data) {
            SignalingStep::Offer { sender, payload } => sender@ == data@.sender && payload@
                == data@.data,
            SignalingStep::Answer { sender, payload } => sender@ == data@.sender && payload@
                == data@.data,
            SignalingStep::Candidate { sender, candidate } => sender@ == data@.sender && candidate@
                == data@.data,
            SignalingStep::Candidates { sender, list } => sender@ == data@.sender && list@
                == data@.data,
            SignalingStep::Request { sender } => sender@ == data@.sender,
            SignalingStep::Rejoin { sender, notice } => sender@ == data@.sender && notice@
                == data@.data,
        },
{
}

/// A room takes its own messages and those without a room, and no others.
pub proof fn lemma_rooms_take_their_own_messages(room: Seq<char>, here: Seq<char>)
    ensures
        is_for_room(here, here),
        is_for_room(Seq::empty(), here),
        is_for_room(room, here) && room != here ==> room.len() == 0,
{
}

/// A candidate goes to the connection if there is one that can take it, waits if
/// the node is connected or on its way, and is dropped otherwise. Only a waiting
/// candidate changes what is known.
pub proof fn lemma_candidates_wait_for_their_description(
    model: TransportModel,
    node: Seq<char>,
    candidate: Seq<char>,
    described: bool,
)
    ensures
        ({
            let (fate, after) = candidate_decided(model, node, candidate, described);
            let live = model.states.dom().contains(node) && (model.states[node]
                == ConnectionState::Connected || model.states[node] == ConnectionState::Connecting
                || model.states[node] == ConnectionState::Reconnecting);
            &&& fate == CandidateFate::Added <==> described && model.peers.dom().contains(node)
            &&& fate is Buffered <==> !(described && model.peers.dom().contains(node)) && live
            &&& !(fate is Buffered) ==> after == model
            &&& fate is Buffered ==> {
                &&& after == candidate_buffered(model, node, candidate)
                &&& fate->dropped_oldest <==> candidates_for(model.pending, node).len() == 64
            }
        }),
{
}

/// Candidates are worth keeping for a node that is connected or on its way, and
/// for no other.
pub proof fn lemma_candidates_are_kept_for_live_nodes(state: ConnectionState)
    ensures
        active_for_pending(Some(state)) <==> state != ConnectionState::Disconnected && state
            != ConnectionState::Failed,
        !active_for_pending(None),
{
}

/// A candidate that waits comes last. The ones before it stay in their order, up
/// to the limit, and no other node is concerned.
pub proof fn lemma_waiting_candidates_keep_their_order(
    model: TransportModel,
    node: Seq<char>,
    candidate: Seq<char>,
    other: Seq<char>,
)
    requires
        other != node,
        candidates_for(model.pending, node).len() <= MAX_PENDING_CANDIDATES_PER_NODE,
    ensures
        ({
            let before = candidates_for(model.pending, node);
            let after = candidate_buffered(model, node, candidate);
            let waiting = candidates_for(after.pending, node);
            &&& waiting.last() == candidate
            &&& waiting.len() <= MAX_PENDING_CANDIDATES_PER_NODE
            &&& before.len() < MAX_PENDING_CANDIDATES_PER_NODE ==> waiting == before.push(candidate)
            &&& before.len() == MAX_PENDING_CANDIDATES_PER_NODE ==> waiting
                == before.drop_first().push(candidate)
            &&& same_for(model, after, other)
            &&& after == TransportModel { pending: after.pending, ..model }
        }),
{
    let before = candidates_for(model.pending, node);
    let waiting = candidates_for(candidate_buffered(model, node, candidate).pending, node);
    if before.len() == MAX_PENDING_CANDIDATES_PER_NODE {
        assert(waiting =~= before.drop_first().push(candidate));
    }
}

/// As long as there is room, candidates that wait come out in the order in which
/// they came in, none of them lost.
pub proof fn lemma_no_candidate_is_lost_while_there_is_room(
    model: TransportModel,
    node: Seq<char>,
    candidates: Seq<Seq<char>>,
)
    requires
        candidates_for(model.pending, node).len() + candidates.len()
            <= MAX_PENDING_CANDIDATES_PER_NODE,
    ensures
        candidates_for(candidates_buffered(model, node, candidates).pending, node)
            == candidates_for(model.pending, node) + candidates,
    decreases candidates.len(),
{
    let before = candidates_for(model.pending, node);
    if candidates.len() == 0 {
        assert(before + candidates =~= before);
    } else {
        let earlier = candidates.drop_last();
        lemma_no_candidate_is_lost_while_there_is_room(model, node, earlier);
        assert((before + earlier).push(candidates.last()) =~= before + candidates);
    }
}

/// Nothing waits for a node of which nothing is kept.
pub proof fn lemma_unknown_nodes_have_no_candidates(
    pending: Map<Seq<char>, Seq<Seq<char>>>,
    node: Seq<char>,
)
    ensures
        candidates_for(pending.remove(node), node) == Seq::<Seq<char>>::empty(),
        pending.dom().contains(node) ==> candidates_for(pending, node) == pending[node],
{
}

} // verus!
