//! How descriptions are exchanged with a peer.

use vstd::prelude::*;

use super::lifecycle::{
    attempt_reserved, list_states, live_nodes, recovery_scheduled, stored, torn_down, IceState,
    Teardown,
};
use super::media::any_published;
use super::offer_guard::{
    active_connection_count, create_failure_rollback, offer_action, offer_action_for_snapshot,
    OfferAction, OfferCreateFailureRollback, SignalingSnapshot,
};
use super::request_guard::{
    request_action, request_action_for_snapshot, RequestAction, RequestState,
};
use super::sdp_lines::{media_sections, mline_signature, signature_model};
use super::{IsolationRecovery, TransportModel, WasmWebRtcTransport};
use crate::text::{join_text, parse_unsigned, precedes, name_precedes, unsigned_number};
use crate::types::{ConnectionState, ErrorModel, MistError, NodeId, SignalingType};

verus! {

/// Signaling state of a peer connection.
#[derive(Debug, Clone, Copy, PartialEq, Eq, Structural)]
pub enum SignalingState {
    Stable,
    HaveLocalOffer,
    HaveRemoteOffer,
    HaveLocalPranswer,
    HaveRemotePranswer,
    Closed,
    Unknown,
}

pub open spec fn snapshot_of(signaling: SignalingState) -> SignalingSnapshot {
    match signaling {
        SignalingState::Stable => SignalingSnapshot::Stable,
        SignalingState::HaveLocalOffer => SignalingSnapshot::HaveLocalOffer,
        _ => SignalingSnapshot::Other,
    }
}

impl SignalingState {
    pub fn snapshot(self) -> (snapshot: SignalingSnapshot)
        ensures
            snapshot == snapshot_of(self),
    {
        match self {
            SignalingState::Stable => SignalingSnapshot::Stable,
            SignalingState::HaveLocalOffer => SignalingSnapshot::HaveLocalOffer,
            _ => SignalingSnapshot::Other,
        }
    }
}

/// An exchange of descriptions with a peer.
#[derive(Debug, Clone, Copy, PartialEq, Eq, Structural)]
pub enum Exchange {
    /// Our offer on an existing connection.
    Offer,
    /// Our offer that restarts ICE.
    IceRestartOffer,
    /// Our answer on a connection that was built for the remote's offer.
    FirstAnswer,
    /// Our answer on a connection that existed before.
    AnswerInPlace,
}

/// What an exchange does next.
#[derive(Debug, Clone, Copy, PartialEq, Eq, Structural)]
pub enum ExchangeStep {
    SetRemote,
    CreateLocal,
    SetLocal,
    Send,
}

/// How a step ended.
#[derive(Debug, Clone, Copy, PartialEq, Eq, Structural)]
pub enum StepResult {
    Succeeded,
    Rejected,
    /// The browser made a description without text.
    NoDescription,
}

/// What follows from a step.
#[derive(Debug, Clone, Copy, PartialEq, Eq, Structural)]
pub enum ExchangeNext {
    Continue(ExchangeStep),
    Finished,
    /// The exchange failed; `roll_back` asks to bring the connection back to a
    /// stable signaling state.
    Failed { roll_back: bool },
}

/// The first step: an answer applies the remote's offer, an offer starts with
/// our own description.
pub open spec fn first_step(exchange: Exchange) -> ExchangeStep {
    match exchange {
        Exchange::Offer | Exchange::IceRestartOffer => ExchangeStep::CreateLocal,
        Exchange::FirstAnswer | Exchange::AnswerInPlace => ExchangeStep::SetRemote,
    }
}

/// Steps run in the order in which they are declared. A rejected description
/// is rolled back on connections that outlive the failure.
pub open spec fn after_step(
    exchange: Exchange,
    step: ExchangeStep,
    result: StepResult,
) -> ExchangeNext {
    match result {
        StepResult::Succeeded => match step {
            ExchangeStep::SetRemote => ExchangeNext::Continue(ExchangeStep::CreateLocal),
            ExchangeStep::CreateLocal => ExchangeNext::Continue(ExchangeStep::SetLocal),
            ExchangeStep::SetLocal => ExchangeNext::Continue(ExchangeStep::Send),
            ExchangeStep::Send => ExchangeNext::Finished,
        },
        StepResult::NoDescription => ExchangeNext::Failed { roll_back: false },
        StepResult::Rejected => ExchangeNext::Failed {
            roll_back: (exchange == Exchange::Offer || exchange == Exchange::AnswerInPlace) && step
                != ExchangeStep::Send,
        },
    }
}

pub fn start_exchange(exchange: Exchange) -> (step: ExchangeStep)
    ensures
        step == first_step(exchange),
{
    match exchange {
        Exchange::Offer | Exchange::IceRestartOffer => ExchangeStep::CreateLocal,
        Exchange::FirstAnswer | Exchange::AnswerInPlace => ExchangeStep::SetRemote,
    }
}

pub fn continue_exchange(
    exchange: Exchange,
    step: ExchangeStep,
    result: StepResult,
) -> (next: ExchangeNext)
    ensures
        next == after_step(exchange, step, result),
{
    match result {
        StepResult::Succeeded => match step {
            ExchangeStep::SetRemote => ExchangeNext::Continue(ExchangeStep::CreateLocal),
            ExchangeStep::CreateLocal => ExchangeNext::Continue(ExchangeStep::SetLocal),
            ExchangeStep::SetLocal => ExchangeNext::Continue(ExchangeStep::Send),
            ExchangeStep::Send => ExchangeNext::Finished,
        },
        StepResult::NoDescription => ExchangeNext::Failed { roll_back: false },
        StepResult::Rejected => {
            let outlives = match exchange {
                Exchange::Offer | Exchange::AnswerInPlace => true,
                Exchange::IceRestartOffer | Exchange::FirstAnswer => false,
            };
            ExchangeNext::Failed { roll_back: outlives && step != ExchangeStep::Send }
        },
    }
}

/// Kind of the message that an exchange sends: its description.
pub fn exchange_message(exchange: Exchange) -> (kind: SignalingType)
    ensures
        kind == match exchange {
            Exchange::Offer | Exchange::IceRestartOffer => SignalingType::Offer,
            Exchange::FirstAnswer | Exchange::AnswerInPlace => SignalingType::Answer,
        },
{
    match exchange {
        Exchange::Offer | Exchange::IceRestartOffer => SignalingType::Offer,
        Exchange::FirstAnswer | Exchange::AnswerInPlace => SignalingType::Answer,
    }
}

/// Whether the candidates that wait for a peer's description are handed to its
/// connection after a step. In an exchange that answers, that is when both
/// descriptions are in place.
pub fn candidates_are_due(exchange: Exchange, step: ExchangeStep, result: StepResult) -> (due: bool)
    ensures
        due == (first_step(exchange) == ExchangeStep::SetRemote && step == ExchangeStep::SetLocal
            && result == StepResult::Succeeded),
{
    start_exchange(exchange) == ExchangeStep::SetRemote && step == ExchangeStep::SetLocal && result
        == StepResult::Succeeded
}

/// Whether a connection whose negotiation lock is held may restart ICE.
pub fn may_restart_ice(signaling: SignalingState) -> (may: bool)
    ensures
        may == (signaling == SignalingState::Stable),
{
    signaling == SignalingState::Stable
}

/// Which description a rollback takes back.
#[derive(Debug, Clone, Copy, PartialEq, Eq, Structural)]
pub enum Rollback {
    Local,
    Remote,
    /// Nothing is pending.
    Unneeded,
    /// No way back is known.
    Impossible,
}

/// A rollback takes back the description that is pending on its own side.
pub fn rollback_for_state(signaling: SignalingState) -> (rollback: Rollback)
    ensures
        rollback == match signaling {
            SignalingState::HaveLocalOffer => Rollback::Local,
            SignalingState::HaveLocalPranswer => Rollback::Local,
            SignalingState::HaveRemoteOffer => Rollback::Remote,
            SignalingState::HaveRemotePranswer => Rollback::Remote,
            SignalingState::Stable => Rollback::Unneeded,
            SignalingState::Closed => Rollback::Unneeded,
            SignalingState::Unknown => Rollback::Impossible,
        },
{
    match signaling {
        SignalingState::HaveLocalOffer | SignalingState::HaveLocalPranswer => Rollback::Local,
        SignalingState::HaveRemoteOffer | SignalingState::HaveRemotePranswer => Rollback::Remote,
        SignalingState::Stable | SignalingState::Closed => Rollback::Unneeded,
        SignalingState::Unknown => Rollback::Impossible,
    }
}

/// Our own offer may only be made on a connection that is up or coming up.
pub open spec fn may_offer(state: Option<ConnectionState>) -> bool {
    state == Some(ConnectionState::Connecting) || state == Some(ConnectionState::Connected)
}

pub open spec fn ice_state_name(ice: IceState) -> Seq<char> {
    match ice {
        IceState::New => "New"@,
        IceState::Checking => "Checking"@,
        IceState::Connected => "Connected"@,
        IceState::Completed => "Completed"@,
        IceState::Disconnected => "Disconnected"@,
        IceState::Failed => "Failed"@,
        IceState::Closed => "Closed"@,
    }
}

fn ice_state_text(ice: IceState) -> (name: &'static str)
    ensures
        name@ == ice_state_name(ice),
{
    match ice {
        IceState::New => "New",
        IceState::Checking => "Checking",
        IceState::Connected => "Connected",
        IceState::Completed => "Completed",
        IceState::Disconnected => "Disconnected",
        IceState::Failed => "Failed",
        IceState::Closed => "Closed",
    }
}

/// Whether a connection whose negotiation lock is held may send an offer:
/// signaling must be stable and ICE must not be broken.
pub fn check_offer_preconditions(
    remote: &NodeId,
    signaling: SignalingState,
    ice: IceState,
) -> (checked: Result<(), MistError>)
    ensures
        checked is Ok <==> signaling == SignalingState::Stable && ice != IceState::Failed && ice
            != IceState::Closed && ice != IceState::Disconnected,
        checked matches Err(error) ==> error@ == if signaling != SignalingState::Stable {
            ErrorModel::Internal(
                "Offer precondition failed: signaling state is not stable for "@ + remote@,
            )
        } else {
            ErrorModel::Internal(
                "Offer precondition failed: unstable ice state "@ + ice_state_name(ice) + " for "@
                    + remote@,
            )
        },
{
    if signaling != SignalingState::Stable {
        return Err(
            MistError::Internal(
                join_text(
                    "Offer precondition failed: signaling state is not stable for ",
                    remote.0.as_str(),
                ),
            ),
        );
    }
    if ice == IceState::Failed || ice == IceState::Closed || ice == IceState::Disconnected {
        let start = join_text(
            "Offer precondition failed: unstable ice state ",
            ice_state_text(ice),
        );
        let middle = join_text(start.as_str(), " for ");
        return Err(MistError::Internal(join_text(middle.as_str(), remote.0.as_str())));
    }
    Ok(())
}

/// Whether a connection whose negotiation lock is held may answer an offer. A
/// first answer needs stable signaling; in place, our own pending offer may be
/// given up, which `yields` reports.
pub fn check_answer_preconditions(
    remote: &NodeId,
    exchange: Exchange,
    signaling: SignalingState,
) -> (yields: Result<bool, MistError>)
    ensures
        yields is Ok <==> signaling == SignalingState::Stable || (exchange
            == Exchange::AnswerInPlace && signaling == SignalingState::HaveLocalOffer),
        yields matches Ok(own_offer) ==> own_offer == (signaling == SignalingState::HaveLocalOffer),
        yields matches Err(error) ==> error@ == ErrorModel::Internal(
            "Offer precondition failed: signaling is not stable for "@ + remote@,
        ),
{
    if signaling == SignalingState::Stable {
        return Ok(false);
    }
    if exchange == Exchange::AnswerInPlace && signaling == SignalingState::HaveLocalOffer {
        return Ok(true);
    }
    Err(
        MistError::Internal(
            join_text(
                "Offer precondition failed: signaling is not stable for ",
                remote.0.as_str(),
            ),
        ),
    )
}

/// The description that a signaling payload carries. `sdp` is the string under
/// the key "sdp" where the payload is a JSON object that has one; any other
/// payload is the description itself.
pub fn sdp_from_signaling_payload(payload: &str, sdp: Option<String>) -> (description: String)
    ensures
        description@ == (match sdp {
            Some(sdp) => sdp@,
            None => payload@,
        }),
{
    match sdp {
        Some(sdp) => sdp,
        None => payload.to_string(),
    }
}

/// What a remote's answer leads to.
#[derive(Debug, Clone, Copy, PartialEq, Eq, Structural)]
pub enum AnswerAction {
    Apply,
    /// The answer belongs to an earlier offer; the current one stays pending.
    IgnoreStale,
}

/// What is done next about a remote's answer.
#[derive(Debug, Clone, Copy, PartialEq, Eq, Structural)]
pub enum AnswerStep {
    /// The answer becomes the remote description.
    SetRemote,
    /// Signaling has settled: the candidates that wait are handed to the
    /// connection, and a track change that waits is negotiated.
    Settle,
    /// The answer was rejected: the connection is brought back to a stable
    /// signaling state, and the answer is an error.
    RollBack,
    /// The answer is dropped and tracks are negotiated again when signaling
    /// settles: whatever the answer was for is not in place.
    DeferTracks,
}

/// What follows from the decision on an answer, and then from how applying it
/// ended.
pub open spec fn after_answer(action: AnswerAction, applied: Option<StepResult>) -> AnswerStep {
    match (action, applied) {
        (AnswerAction::IgnoreStale, _) => AnswerStep::DeferTracks,
        (AnswerAction::Apply, None) => AnswerStep::SetRemote,
        (AnswerAction::Apply, Some(StepResult::Succeeded)) => AnswerStep::Settle,
        (AnswerAction::Apply, Some(_)) => AnswerStep::RollBack,
    }
}

/// Decides what is done next about an answer; `applied` says how it was taken,
/// once it has been applied.
pub fn answer_step(action: AnswerAction, applied: Option<StepResult>) -> (step: AnswerStep)
    ensures
        step == after_answer(action, applied),
{
    match action {
        AnswerAction::IgnoreStale => AnswerStep::DeferTracks,
        AnswerAction::Apply => match applied {
            None => AnswerStep::SetRemote,
            Some(StepResult::Succeeded) => AnswerStep::Settle,
            Some(_) => AnswerStep::RollBack,
        },
    }
}

fn same_signature(
    left: &Vec<(String, String)>,
    right: &Vec<(String, String)>,
) -> (same: bool)
    ensures
        same == (signature_model(left@) == signature_model(right@)),
{
    let ghost a = signature_model(left@);
    let ghost b = signature_model(right@);
    if left.len() != right.len() {
        assert(a.len() != b.len());
        return false;
    }
    let mut i: usize = 0;
    while i < left.len()
        invariant
            i <= left@.len(),
            left@.len() == right@.len(),
            a == signature_model(left@),
            b == signature_model(right@),
            forall|j: int| 0 <= j < i ==> a[j] == b[j],
        decreases left@.len() - i,
    {
        if left[i].0 != right[i].0 || left[i].1 != right[i].1 {
            assert(a[i as int] != b[i as int]);
            return false;
        }
        i = i + 1;
    }
    assert(a =~= b);
    true
}

/// Decides on an answer for an existing peer. `local_sdp` is our pending
/// description, if the connection has one.
pub fn answer_action(
    remote: &NodeId,
    signaling: SignalingState,
    local_sdp: Option<&str>,
    answer_sdp: &str,
) -> (action: Result<AnswerAction, MistError>)
    ensures
        action is Ok <==> signaling == SignalingState::HaveLocalOffer,
        action matches Err(error) ==> error@ == ErrorModel::Internal(
            "Answer precondition failed: signaling state is not HaveLocalOffer for "@ + remote@,
        ),
        action matches Ok(chosen) ==> chosen == if local_sdp is Some && media_sections(
            local_sdp->Some_0@,
        ) != media_sections(answer_sdp@) {
            AnswerAction::IgnoreStale
        } else {
            AnswerAction::Apply
        },
        action matches Ok(chosen) ==> chosen == answer_decision(
            match local_sdp {
                Some(local) => Some(local@),
                None => None,
            },
            answer_sdp@,
        ),
{
    if signaling != SignalingState::HaveLocalOffer {
        return Err(
            MistError::Internal(
                join_text(
                    "Answer precondition failed: signaling state is not HaveLocalOffer for ",
                    remote.0.as_str(),
                ),
            ),
        );
    }
    if let Some(local) = local_sdp {
        let local_sections = mline_signature(local);
        let answer_sections = mline_signature(answer_sdp);
        if !same_signature(&local_sections, &answer_sections) {
            return Ok(AnswerAction::IgnoreStale);
        }
    }
    Ok(AnswerAction::Apply)
}

/// The decision on an answer to our pending description, if there is one.
pub open spec fn answer_decision(local_sdp: Option<Seq<char>>, answer_sdp: Seq<char>) -> AnswerAction {
    match local_sdp {
        Some(local) => if media_sections(local) == media_sections(answer_sdp) {
            AnswerAction::Apply
        } else {
            AnswerAction::IgnoreStale
        },
        None => AnswerAction::Apply,
    }
}

/// What is known once the restart mark of a peer is used up.
pub open spec fn restart_taken(model: TransportModel, node: Seq<char>) -> TransportModel {
    TransportModel { restarted: model.restarted.remove(node), ..model }
}

/// What an inbound offer leads to, for the host to carry out.
#[derive(Debug, Clone, Copy, PartialEq, Eq, Structural)]
pub struct OfferPlan {
    pub action: OfferAction,
    /// Session epoch of the remote's restart that this offer follows.
    pub restarted_epoch: Option<u64>,
    /// Connection of the session that is gone, to be closed.
    pub replaced: Option<u64>,
}

/// The action for an offer, given what is known.
pub open spec fn offer_action_in(
    model: TransportModel,
    remote: Seq<char>,
    signaling: SignalingState,
) -> OfferAction {
    offer_action(
        model.peers.dom().contains(remote),
        model.restarted.dom().contains(remote),
        stored(model.states, remote),
        live_nodes(model.states).len(),
        model.max_connections as nat,
        if model.peers.dom().contains(remote) {
            snapshot_of(signaling)
        } else {
            SignalingSnapshot::Other
        },
    )
}

/// What is known once an offer is decided on.
pub open spec fn offer_received(
    model: TransportModel,
    remote: Seq<char>,
    action: OfferAction,
) -> TransportModel {
    let taken = restart_taken(model, remote);
    match action {
        OfferAction::Accept { newly_reserved: true } => TransportModel {
            states: taken.states.insert(remote, ConnectionState::Connecting),
            ..taken
        },
        OfferAction::ReplacePeer => TransportModel {
            graces: taken.graces.remove(remote),
            ..torn_down(taken, remote)
        },
        _ => taken,
    }
}

/// What a connection request leads to, for the host to carry out.
#[derive(Debug, Clone, Copy, PartialEq, Eq, Structural)]
pub struct RequestPlan {
    pub action: RequestAction,
    pub restarted_epoch: Option<u64>,
    /// Connection of the session that is gone, to be closed.
    pub replaced: Option<u64>,
}

/// The action for a request, given what is known.
pub open spec fn request_action_in(
    model: TransportModel,
    node: Seq<char>,
    has_open_channel: bool,
) -> RequestAction {
    request_action(
        RequestState {
            state: stored(model.states, node),
            peer_exists: model.peers.dom().contains(node),
            has_open_data_channel: model.peers.dom().contains(node) && has_open_channel,
            has_attempt: model.attempts.dom().contains(node),
            remote_restarted: model.restarted.dom().contains(node),
        },
    )
}

/// The epoch that a rejoin notice carries; 0 if it is not known.
pub open spec fn rejoin_epoch(data: Seq<char>) -> u64 {
    match unsigned_number(data) {
        Some(epoch) => epoch,
        None => 0,
    }
}

/// Whether the held connection was already built for the session that a rejoin
/// notice announces. An unknown epoch proves nothing.
pub open spec fn already_rebuilt(model: TransportModel, node: Seq<char>, epoch: u64) -> bool {
    epoch != 0 && model.peers.dom().contains(node) && model.epochs.dom().contains(node)
        && model.epochs[node] >= epoch
}

/// What is known after a restart: the old session is torn down, and the mark
/// with the newest epoch waits for the next request or offer.
pub open spec fn restart_noted(model: TransportModel, node: Seq<char>, epoch: u64) -> TransportModel {
    let newest = if model.restarted.dom().contains(node) && model.restarted[node] > epoch {
        model.restarted[node]
    } else {
        epoch
    };
    TransportModel { restarted: model.restarted.insert(node, newest), ..torn_down(model, node) }
}

/// What a connection request leads to, and what is known afterwards. Only the
/// node whose name comes first answers it.
pub open spec fn request_decided(
    model: TransportModel,
    node: Seq<char>,
    has_open_channel: bool,
) -> (RequestPlan, TransportModel) {
    if name_precedes(model.local_node, node) {
        let action = request_action_in(model, node, has_open_channel);
        let cleans = action == RequestAction::CleanupAndConnect;
        (
            RequestPlan {
                action,
                restarted_epoch: stored(model.restarted, node),
                replaced: if cleans {
                    stored(model.peers, node)
                } else {
                    None
                },
            },
            if cleans {
                torn_down(restart_taken(model, node), node)
            } else {
                restart_taken(model, node)
            },
        )
    } else {
        (
            RequestPlan { action: RequestAction::Ignore, restarted_epoch: None, replaced: None },
            model,
        )
    }
}

/// The connection that a rejoin notice ends, if it ends one's session, and what
/// is known afterwards.
pub open spec fn rejoin_decided(model: TransportModel, node: Seq<char>, epoch: u64) -> (
    Option<Option<u64>>,
    TransportModel,
) {
    if already_rebuilt(model, node, epoch) {
        (None, model)
    } else {
        (Some(stored(model.peers, node)), restart_noted(model, node, epoch))
    }
}

/// What is known after no connection could be built for an accepted offer.
pub open spec fn reservation_returned(
    model: TransportModel,
    node: Seq<char>,
    newly_reserved: bool,
) -> TransportModel {
    if newly_reserved {
        TransportModel { states: model.states.remove(node), ..model }
    } else {
        model
    }
}

/// What is known after a connection was built for an accepted offer.
pub open spec fn offer_built(model: TransportModel, node: Seq<char>, handle: u64) -> TransportModel {
    attempt_reserved(TransportModel { peers: model.peers.insert(node, handle), ..model }, node)
}

/// What is known once the connection of a peer is built; `epoch` tells which
/// restart it answers.
pub open spec fn epoch_stamped(
    model: TransportModel,
    node: Seq<char>,
    epoch: Option<u64>,
) -> TransportModel {
    match epoch {
        Some(epoch) => TransportModel { epochs: model.epochs.insert(node, epoch), ..model },
        None => model,
    }
}

// --- Offers ---
impl WasmWebRtcTransport {
    /// Whether the state of a peer allows an offer of ours.
    pub fn check_offer_state(&self, remote: &NodeId) -> (checked: Result<(), MistError>)
        ensures
            checked is Ok <==> may_offer(stored(self@.states, remote@)),
            checked matches Err(error) ==> error@ == ErrorModel::Internal(
                "Offer precondition failed: invalid connection state for "@ + remote@,
            ),
    {
        let state_ok = match self.connection_states.get(remote) {
            Some(state) => *state == ConnectionState::Connecting || *state
                == ConnectionState::Connected,
            None => false,
        };
        if !state_ok {
            return Err(
                MistError::Internal(
                    join_text(
                        "Offer precondition failed: invalid connection state for ",
                        remote.0.as_str(),
                    ),
                ),
            );
        }
        Ok(())
    }

    /// Uses up the restart mark of a peer.
    pub fn take_remote_restarted(&mut self, node: &NodeId) -> (epoch: Option<u64>)
        ensures
            final(self)@ == restart_taken(old(self)@, node@),
            epoch == stored(old(self)@.restarted, node@),
    {
        self.restarted_peers.remove(node)
    }

    /// Decides on an inbound offer. A slot is reserved for a new connection,
    /// and the connection of a session that is gone is torn down.
    pub fn handle_offer(&mut self, remote: &NodeId, signaling: SignalingState) -> (plan: OfferPlan)
        ensures
            plan.action == offer_action_in(old(self)@, remote@, signaling),
            plan.restarted_epoch == stored(old(self)@.restarted, remote@),
            plan.replaced == if plan.action == OfferAction::ReplacePeer {
                stored(old(self)@.peers, remote@)
            } else {
                None
            },
            final(self)@ == offer_received(old(self)@, remote@, plan.action),
    {
        let peer_exists = self.peers.contains_key(remote);
        let restarted_epoch = self.take_remote_restarted(remote);
        let snapshot = if peer_exists {
            signaling.snapshot()
        } else {
            SignalingSnapshot::Other
        };
        let state = match self.connection_states.get(remote) {
            Some(state) => Some(*state),
            None => None,
        };
        let states = list_states(&self.connection_states);
        let active: usize = active_connection_count(states.as_slice());
        let action = offer_action_for_snapshot(
            peer_exists,
            restarted_epoch.is_some(),
            state,
            active,
            self.max_connections as usize,
            snapshot,
        );
        let mut replaced: Option<u64> = None;
        match action {
            OfferAction::Accept { newly_reserved } => {
                if newly_reserved {
                    let _ = self.connection_states.insert(
                        remote.clone(),
                        ConnectionState::Connecting,
                    );
                }
            },
            OfferAction::ReplacePeer => {
                let teardown = self.cleanup_peer_connection(remote, true, IsolationRecovery::Skip);
                let _ = self.disconnected_since.remove(remote);
                replaced = teardown.close;
            },
            _ => {},
        }
        OfferPlan { action, restarted_epoch, replaced }
    }

    /// Called when no connection could be created for an accepted offer: a
    /// reservation made for it is given back.
    pub fn offer_creation_failed(&mut self, remote: &NodeId, newly_reserved: bool)
        ensures
            final(self)@ == if newly_reserved {
                TransportModel { states: old(self)@.states.remove(remote@), ..old(self)@ }
            } else {
                old(self)@
            },
            final(self)@ == reservation_returned(old(self)@, remote@, newly_reserved),
    {
        if create_failure_rollback(newly_reserved)
            == OfferCreateFailureRollback::RemoveReservation {
            let _ = self.connection_states.remove(remote);
        }
    }

    /// Records the connection created for an accepted offer. Returns the number
    /// of the attempt and the connection that is displaced.
    pub fn offer_peer_created(
        &mut self,
        remote: &NodeId,
        handle: u64,
    ) -> (started: (u32, Option<u64>))
        ensures
            final(self)@ == attempt_reserved(
                TransportModel {
                    peers: old(self)@.peers.insert(remote@, handle),
                    ..old(self)@
                },
                remote@,
            ),
            final(self)@ == offer_built(old(self)@, remote@, handle),
            started.0 == final(self)@.last_attempt,
            started.1 == stored(old(self)@.peers, remote@),
    {
        let displaced = self.install_peer(remote, handle);
        let attempt_id: u32 = self.reserve_connection_attempt(remote);
        (attempt_id, displaced)
    }

    /// Called when a new connection has answered its offer. Returns whether an
    /// offer of ours must follow, because an answer cannot announce our tracks.
    pub fn offer_answered(&mut self, remote: &NodeId, restarted_epoch: Option<u64>) -> (follow_up:
        bool)
        ensures
            final(self)@ == epoch_stamped(old(self)@, remote@, restarted_epoch),
            follow_up == any_published(old(self)@.tracks),
    {
        if let Some(epoch) = restarted_epoch {
            let _ = self.peer_epochs.insert(remote.clone(), epoch);
        }
        self.has_published_tracks()
    }

    /// Called when a new connection could not answer its offer.
    pub fn offer_failed(&mut self, remote: &NodeId) -> (teardown: Teardown)
        ensures
            final(self)@ == recovery_scheduled(torn_down(old(self)@, remote@)),
            teardown.close == stored(old(self)@.peers, remote@),
            teardown.isolation_check == Some(final(self)@.recovery_epoch),
    {
        self.cleanup_peer_connection(remote, true, IsolationRecovery::Schedule)
    }
}

// --- Requests and restarts ---
impl WasmWebRtcTransport {
    /// What a request from `node` calls for. The restart mark is used up.
    pub fn request_action_for(
        &mut self,
        node: &NodeId,
        has_open_channel: bool,
    ) -> (outcome: (RequestAction, Option<u64>))
        ensures
            outcome.0 == request_action_in(old(self)@, node@, has_open_channel),
            outcome.1 == stored(old(self)@.restarted, node@),
            final(self)@ == restart_taken(old(self)@, node@),
    {
        let state = match self.connection_states.get(node) {
            Some(state) => Some(*state),
            None => None,
        };
        let peer_exists = self.peers.contains_key(node);
        let has_attempt = self.connection_attempt_ids.contains_key(node);
        let restarted_epoch = self.take_remote_restarted(node);
        let action = request_action_for_snapshot(
            RequestState {
                state,
                peer_exists,
                has_open_data_channel: peer_exists && has_open_channel,
                has_attempt,
                remote_restarted: restarted_epoch.is_some(),
            },
        );
        (action, restarted_epoch)
    }

    /// Decides on a connection request. Only the node whose name comes first
    /// answers it; a session that is gone is torn down before reconnecting.
    pub fn handle_request(&mut self, sender: &NodeId, has_open_channel: bool) -> (plan: RequestPlan)
        ensures
            !name_precedes(old(self)@.local_node, sender@) ==> final(self)@ == old(self)@ && plan
                == (RequestPlan {
                action: RequestAction::Ignore,
                restarted_epoch: None,
                replaced: None,
            }),
            name_precedes(old(self)@.local_node, sender@) ==> {
                &&& plan.action == request_action_in(old(self)@, sender@, has_open_channel)
                &&& plan.restarted_epoch == stored(old(self)@.restarted, sender@)
                &&& plan.replaced == if plan.action == RequestAction::CleanupAndConnect {
                    stored(old(self)@.peers, sender@)
                } else {
                    None
                }
                &&& final(self)@ == if plan.action == RequestAction::CleanupAndConnect {
                    torn_down(restart_taken(old(self)@, sender@), sender@)
                } else {
                    restart_taken(old(self)@, sender@)
                }
            },
            (plan, final(self)@) == request_decided(old(self)@, sender@, has_open_channel),
    {
        if !precedes(self.local_node_id.0.as_str(), sender.0.as_str()) {
            return RequestPlan {
                action: RequestAction::Ignore,
                restarted_epoch: None,
                replaced: None,
            };
        }
        let (action, restarted_epoch) = self.request_action_for(sender, has_open_channel);
        let mut replaced: Option<u64> = None;
        if action == RequestAction::CleanupAndConnect {
            let teardown = self.cleanup_peer_connection(sender, true, IsolationRecovery::Skip);
            replaced = teardown.close;
        }
        RequestPlan { action, restarted_epoch, replaced }
    }

    /// Called when the connection that a request asked for is under way.
    pub fn request_connected(&mut self, sender: &NodeId, restarted_epoch: Option<u64>)
        ensures
            final(self)@ == epoch_stamped(old(self)@, sender@, restarted_epoch),
    {
        if let Some(epoch) = restarted_epoch {
            let _ = self.peer_epochs.insert(sender.clone(), epoch);
        }
    }

    /// Handles the notice that a peer restarted. Returns `None` if the held
    /// connection already belongs to the new session, otherwise the connection
    /// to close, if there is one.
    pub fn handle_rejoin(&mut self, sender: &NodeId, data: &str) -> (replaced: Option<Option<u64>>)
        ensures
            already_rebuilt(old(self)@, sender@, rejoin_epoch(data@)) ==> {
                &&& replaced is None
                &&& final(self)@ == old(self)@
            },
            !already_rebuilt(old(self)@, sender@, rejoin_epoch(data@)) ==> {
                &&& replaced == Some(stored(old(self)@.peers, sender@))
                &&& final(self)@ == restart_noted(old(self)@, sender@, rejoin_epoch(data@))
            },
            (replaced, final(self)@) == rejoin_decided(
                old(self)@,
                sender@,
                rejoin_epoch(data@),
            ),
    {
        let epoch: u64 = match parse_unsigned(data) {
            Some(epoch) => epoch,
            None => 0,
        };
        if epoch != 0 && self.peers.contains_key(sender) {
            if let Some(known) = self.peer_epochs.get(sender) {
                if *known >= epoch {
                    return None;
                }
            }
        }
        let newest: u64 = match self.restarted_peers.get(sender) {
            Some(existing) => if *existing > epoch {
                *existing
            } else {
                epoch
            },
            None => epoch,
        };
        let teardown = self.cleanup_peer_connection(sender, true, IsolationRecovery::Skip);
        let _ = self.restarted_peers.insert(sender.clone(), newest);
        proof {
            assert(self@.restarted =~= restart_noted(
                old(self)@,
                sender@,
                rejoin_epoch(data@),
            ).restarted);
        }
        Some(teardown.close)
    }
}

} // verus!
