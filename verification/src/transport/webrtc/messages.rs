//! Signaling messages: what is sent and how what arrives is sorted.

use vstd::prelude::*;

use super::lifecycle::stored;
use super::pending_candidates::{
    active_for_pending, candidates_for, is_active_for_pending, newest_candidates,
};
use super::{TransportModel, WasmWebRtcTransport};
use crate::json::{json_string_list, parse_string_list};
use crate::text::texts_of;
use crate::types::{MessageContent, NodeId, SignalingData, SignalingModel, SignalingType};

verus! {

/// What becomes of a candidate.
#[derive(Debug)]
pub enum CandidateOutcome {
    /// It is handed to the connection.
    Add(String),
    /// It waits for the remote description.
    Buffered { dropped_oldest: bool },
    /// The node is not connecting.
    Dropped,
}

/// What a signaling message asks the transport to do.
#[derive(Debug)]
pub enum SignalingStep {
    /// To decide on the offer that `payload` carries.
    Offer { sender: NodeId, payload: String },
    /// To decide on the answer that `payload` carries.
    Answer { sender: NodeId, payload: String },
    /// To decide on one candidate.
    Candidate { sender: NodeId, candidate: String },
    /// To decide on a list of candidates.
    Candidates { sender: NodeId, list: String },
    /// To decide on a connection request.
    Request { sender: NodeId },
    /// To take the notice that the sender restarted.
    Rejoin { sender: NodeId, notice: String },
}

/// Every kind of message has a step of its own.
pub open spec fn step_for(data: SignalingData) -> SignalingStep {
    match data.signaling_type {
        SignalingType::Offer => SignalingStep::Offer {
            sender: data.sender_id,
            payload: data.data,
        },
        SignalingType::Answer => SignalingStep::Answer {
            sender: data.sender_id,
            payload: data.data,
        },
        SignalingType::Candidate => SignalingStep::Candidate {
            sender: data.sender_id,
            candidate: data.data,
        },
        SignalingType::Candidates => SignalingStep::Candidates {
            sender: data.sender_id,
            list: data.data,
        },
        SignalingType::Request => SignalingStep::Request { sender: data.sender_id },
        SignalingType::Rejoin => SignalingStep::Rejoin {
            sender: data.sender_id,
            notice: data.data,
        },
    }
}

/// The step that an accepted message calls for.
pub fn signaling_step(data: SignalingData) -> (step: SignalingStep)
    ensures
        step == step_for(data),
{
    let sender = data.sender_id;
    let content = data.data;
    match data.signaling_type {
        SignalingType::Offer => SignalingStep::Offer { sender, payload: content },
        SignalingType::Answer => SignalingStep::Answer { sender, payload: content },
        SignalingType::Candidate => SignalingStep::Candidate { sender, candidate: content },
        SignalingType::Candidates => SignalingStep::Candidates { sender, list: content },
        SignalingType::Request => SignalingStep::Request { sender },
        SignalingType::Rejoin => SignalingStep::Rejoin { sender, notice: content },
    }
}

/// Whether candidates of `node` go straight to its connection.
pub open spec fn takes_candidates(
    model: TransportModel,
    node: Seq<char>,
    has_remote_description: bool,
) -> bool {
    model.peers.dom().contains(node) && has_remote_description
}

/// What is known once a candidate of `node` waits.
pub open spec fn candidate_buffered(
    model: TransportModel,
    node: Seq<char>,
    candidate: Seq<char>,
) -> TransportModel {
    TransportModel {
        pending: model.pending.insert(
            node,
            newest_candidates(candidates_for(model.pending, node).push(candidate)),
        ),
        ..model
    }
}

/// What is known once several candidates of `node` wait.
pub open spec fn candidates_buffered(
    model: TransportModel,
    node: Seq<char>,
    candidates: Seq<Seq<char>>,
) -> TransportModel
    decreases candidates.len(),
{
    if candidates.len() == 0 {
        model
    } else {
        candidate_buffered(
            candidates_buffered(model, node, candidates.drop_last()),
            node,
            candidates.last(),
        )
    }
}

/// What becomes of a candidate, without its text.
pub enum CandidateFate {
    Added,
    Buffered { dropped_oldest: bool },
    Dropped,
}

/// What becomes of a candidate, and what is known afterwards.
pub open spec fn candidate_decided(
    model: TransportModel,
    node: Seq<char>,
    candidate: Seq<char>,
    has_remote_description: bool,
) -> (CandidateFate, TransportModel) {
    if takes_candidates(model, node, has_remote_description) {
        (CandidateFate::Added, model)
    } else if active_for_pending(stored(model.states, node)) {
        (
            CandidateFate::Buffered {
                dropped_oldest: candidates_for(model.pending, node).len() == 64,
            },
            candidate_buffered(model, node, candidate),
        )
    } else {
        (CandidateFate::Dropped, model)
    }
}

/// Whether a message with this room is one of the room `here`. One without a
/// room is.
pub open spec fn is_for_room(room: Seq<char>, here: Seq<char>) -> bool {
    room.len() == 0 || room == here
}

impl WasmWebRtcTransport {
    /// A message to `receiver` in this room.
    pub fn signaling_message(
        &self,
        receiver: &NodeId,
        data: String,
        signaling_type: SignalingType,
    ) -> (message: SignalingData)
        ensures
            message@ == (SignalingModel {
                sender: self@.local_node,
                receiver: receiver@,
                room: self@.room,
                data: data@,
                kind: signaling_type,
            }),
    {
        SignalingData {
            sender_id: self.local_node_id.clone(),
            receiver_id: receiver.clone(),
            room_id: self.room_id.clone(),
            data,
            signaling_type,
        }
    }

    /// The message that asks everyone in the room to connect, and the name of
    /// the node to send it to.
    pub fn request_peers(&self) -> (request: (NodeId, SignalingData))
        ensures
            request.0@ == "server"@,
            request.1@ == (SignalingModel {
                sender: self@.local_node,
                receiver: Seq::empty(),
                room: self@.room,
                data: Seq::empty(),
                kind: SignalingType::Request,
            }),
    {
        let everyone = NodeId::broadcast();
        let message = self.signaling_message(&everyone, String::new(), SignalingType::Request);
        (NodeId("server".to_string()), message)
    }

    /// Sorts out what is no signaling message or belongs to another room. A
    /// message without a room counts as one of this room.
    pub fn handle_message(&self, message: MessageContent) -> (accepted: Option<SignalingData>)
        ensures
            accepted == match message {
                MessageContent::Data(data) => if data.room_id@.len() == 0 || data.room_id@
                    == self@.room {
                    Some(data)
                } else {
                    None
                },
                _ => None,
            },
            accepted == match message {
                MessageContent::Data(data) => if is_for_room(data.room_id@, self@.room) {
                    Some(data)
                } else {
                    None
                },
                _ => None,
            },
    {
        match message {
            MessageContent::Data(data) => {
                if !data.room_id.as_str().is_empty() && data.room_id != self.room_id {
                    None
                } else {
                    Some(data)
                }
            },
            _ => None,
        }
    }

    /// Decides on one candidate.
    pub fn handle_candidate_payload(
        &mut self,
        node: &NodeId,
        candidate: String,
        has_remote_description: bool,
    ) -> (outcome: CandidateOutcome)
        ensures
            ({
                let model = old(self)@;
                if takes_candidates(model, node@, has_remote_description) {
                    &&& outcome == CandidateOutcome::Add(candidate)
                    &&& final(self)@ == model
                } else if active_for_pending(stored(model.states, node@)) {
                    &&& outcome == (CandidateOutcome::Buffered {
                        dropped_oldest: candidates_for(model.pending, node@).len() == 64,
                    })
                    &&& final(self)@ == candidate_buffered(model, node@, candidate@)
                } else {
                    &&& outcome == CandidateOutcome::Dropped
                    &&& final(self)@ == model
                }
            }),
            (
                match outcome {
                    CandidateOutcome::Add(_) => CandidateFate::Added,
                    CandidateOutcome::Buffered { dropped_oldest } => CandidateFate::Buffered {
                        dropped_oldest,
                    },
                    CandidateOutcome::Dropped => CandidateFate::Dropped,
                },
                final(self)@,
            ) == candidate_decided(old(self)@, node@, candidate@, has_remote_description),
    {
        if has_remote_description && self.peers.contains_key(node) {
            return CandidateOutcome::Add(candidate);
        }
        if !is_active_for_pending(self.connection_states.get(node)) {
            return CandidateOutcome::Dropped;
        }
        let dropped_oldest = self.pending_candidates.push(node.clone(), candidate);
        CandidateOutcome::Buffered { dropped_oldest }
    }

    /// Decides on a list of candidates. Returns those to hand to the
    /// connection, in order.
    pub fn handle_candidate_list(
        &mut self,
        node: &NodeId,
        candidates: Vec<String>,
        has_remote_description: bool,
    ) -> (add: Vec<String>)
        ensures
            ({
                let model = old(self)@;
                if takes_candidates(model, node@, has_remote_description) {
                    add@ == candidates@ && final(self)@ == model
                } else if active_for_pending(stored(model.states, node@)) {
                    add@ == Seq::<String>::empty() && final(self)@ == candidates_buffered(
                        model,
                        node@,
                        texts_of(candidates@),
                    )
                } else {
                    add@ == Seq::<String>::empty() && final(self)@ == model
                }
            }),
    {
        let mut add: Vec<String> = Vec::new();
        let mut i: usize = 0;
        let ghost model = self@;
        let ghost takes = takes_candidates(model, node@, has_remote_description);
        let ghost active = active_for_pending(stored(model.states, node@));
        proof {
            assert(candidates@.take(0) =~= Seq::empty());
            assert(texts_of(candidates@.take(0)) =~= Seq::empty());
        }
        while i < candidates.len()
            invariant
                i <= candidates@.len(),
                takes == takes_candidates(model, node@, has_remote_description),
                active == active_for_pending(stored(model.states, node@)),
                takes ==> add@ == candidates@.take(i as int) && self@ == model,
                !takes ==> add@ == Seq::<String>::empty(),
                !takes && !active ==> self@ == model,
                !takes && active ==> self@ == candidates_buffered(
                    model,
                    node@,
                    texts_of(candidates@.take(i as int)),
                ),
                self@.peers == model.peers,
                self@.states == model.states,
            decreases candidates@.len() - i,
        {
            let candidate = candidates[i].clone();
            proof {
                let next = candidates@.take(i + 1);
                assert(next.drop_last() =~= candidates@.take(i as int));
                assert(next =~= candidates@.take(i as int).push(candidate));
                assert(texts_of(next).drop_last() =~= texts_of(candidates@.take(i as int)));
            }
            match self.handle_candidate_payload(node, candidate, has_remote_description) {
                CandidateOutcome::Add(candidate) => {
                    add.push(candidate);
                },
                _ => {},
            }
            i = i + 1;
        }
        assert(candidates@.take(i as int) =~= candidates@);
        add
    }

    /// Decides on a message that carries a JSON list of candidates. A text that
    /// is no such list is ignored.
    pub fn handle_candidates(
        &mut self,
        node: &NodeId,
        data: &str,
        has_remote_description: bool,
    ) -> (add: Vec<String>)
        ensures
            match json_string_list(data@) {
                None => add@ == Seq::<String>::empty() && final(self)@ == old(self)@,
                Some(candidates) => if takes_candidates(
                    old(self)@,
                    node@,
                    has_remote_description,
                ) {
                    texts_of(add@) == candidates && final(self)@ == old(self)@
                } else if active_for_pending(stored(old(self)@.states, node@)) {
                    add@ == Seq::<String>::empty() && final(self)@ == candidates_buffered(
                        old(self)@,
                        node@,
                        candidates,
                    )
                } else {
                    add@ == Seq::<String>::empty() && final(self)@ == old(self)@
                },
            },
    {
        match parse_string_list(data) {
            Some(candidates) => self.handle_candidate_list(
                node,
                candidates,
                has_remote_description,
            ),
            None => Vec::new(),
        }
    }

    /// Hands out the candidates that waited for the description of `node`.
    pub fn apply_pending_candidates(&mut self, node: &NodeId) -> (candidates: Vec<String>)
        ensures
            texts_of(candidates@) == candidates_for(old(self)@.pending, node@),
            final(self)@ == (TransportModel {
                pending: old(self)@.pending.remove(node@),
                ..old(self)@
            }),
    {
        match self.pending_candidates.take(node) {
            Some(candidates) => candidates,
            None => {
                let none: Vec<String> = Vec::new();
                assert(texts_of(none@) =~= Seq::empty());
                none
            },
        }
    }
}

} // verus!
