//! What events from the relays lead to.
//!
//! The host reads and decrypts the events and keeps the table of known nodes;
//! the decisions between these steps are made here.

use vstd::prelude::*;

use crate::signaling::nostr::{current_key, peer_purged, NostrModel, WasmNostrSignaler};
use crate::text::{decimal, decimal_text, same_text};
use crate::types::{ErrorModel, MistError, NodeId, SignalingData, SignalingModel, SignalingType};

verus! {

/// How an event is to be read.
#[derive(Debug)]
pub enum EventRoute {
    Ignore,
    /// As the announcement of a node in the room.
    Discovery { room: String },
    /// As a message in the room.
    Message { room: String },
}

/// What to do when a message cannot be read.
#[derive(Debug, Clone, Copy, PartialEq, Eq, Structural)]
pub enum UnreadableMessage {
    /// It is for somebody else; it only counts as seen.
    Skip,
    /// It is an error.
    Fail,
}

/// Whether a message that cannot be read is for somebody else: it was sealed for
/// another node and went to everybody in the room, or it names another receiver.
pub open spec fn is_for_somebody_else(error: ErrorModel, to_everybody: bool) -> bool {
    match error {
        ErrorModel::Signaling(text) => (text == "invalid encrypted Nostr payload"@ && to_everybody)
            || text == "Nostr message receiver pubkey mismatch"@,
        _ => false,
    }
}

/// Whether the holder of a key announced a later join than before.
pub open spec fn has_rejoined(model: NostrModel, key: Seq<char>, joined_at: Option<u64>) -> bool {
    &&& joined_at is Some
    &&& model.sessions.dom().contains(key)
    &&& joined_at->Some_0 > model.sessions[key]
}

/// The model after the holder of a key was announced. The first announcement and
/// every later join are remembered; a later join makes the requests and the
/// message numbers of the earlier one void.
pub open spec fn announced(model: NostrModel, key: Seq<char>, joined_at: Option<u64>) -> NostrModel {
    match joined_at {
        Some(at) => if has_rejoined(model, key, joined_at) {
            NostrModel {
                sessions: model.sessions.insert(key, at),
                requested: model.requested.remove(key),
                incoming: model.incoming.remove(key),
                outgoing: model.outgoing.remove(key),
                ..model
            }
        } else if model.sessions.dom().contains(key) {
            model
        } else {
            NostrModel { sessions: model.sessions.insert(key, at), ..model }
        },
        None => model,
    }
}

/// Whether a message that was read is looked at further: its room is still the
/// present one, it was not seen before, and it is not one that is only ever made
/// up locally.
pub open spec fn is_considered(
    model: NostrModel,
    room: Seq<char>,
    fresh: bool,
    kind: SignalingType,
) -> bool {
    model.room == Some(room) && fresh && kind != SignalingType::Rejoin
}

/// Whether a sender is let in: it is known or was asked, or it is a node that is
/// known under another key and says that it joined later than when last heard
/// of.
pub open spec fn sender_is_admitted(
    admitted: bool,
    known: bool,
    stored_epoch: Option<u64>,
    sender_epoch: Option<u64>,
) -> bool {
    admitted || (known && sender_epoch is Some && (stored_epoch is Some ==> sender_epoch->Some_0
        > stored_epoch->Some_0))
}

/// What the host found out about a message that was read.
#[derive(Debug, Clone, Copy, PartialEq, Eq, Structural)]
pub enum MessageFact {
    /// Its event was marked as seen; `fresh` says whether it was not seen before
    /// and its room is the present one.
    Marked { fresh: bool },
    /// Its sender was looked up: whether its key is known or was asked, whether
    /// the node is known under some key, and when it said that it joined.
    SenderFound { admitted: bool, known: bool, stored_epoch: Option<u64> },
    /// It was compared with the last message of its sender: whether it comes in
    /// order, and the number to remember, if there is one.
    Ordered { accepted: bool, sequence: Option<u64> },
}

/// What the host does next about a message that was read.
#[derive(Debug, Clone, Copy, PartialEq, Eq, Structural)]
pub enum MessageStep {
    /// The message is dropped.
    Drop,
    /// The sender is looked up; `requested` says whether its key was sent a
    /// request.
    FindSender { requested: bool },
    /// The message is compared with the last one of its sender, whose number is
    /// `last`.
    CheckOrder { last: Option<u64> },
    /// The sender is taken into the table of known nodes, and then the message
    /// is delivered; `answers_request` says whether the sender answers a request
    /// of ours.
    Bind { answers_request: bool },
}

/// Whether a message answers a request of ours: it is a request itself, and its
/// sender was asked.
pub fn answers_request(requested: bool, kind: SignalingType) -> (answers: bool)
    ensures
        answers == (requested && kind == SignalingType::Request),
{
    requested && kind == SignalingType::Request
}

/// The number of the last message from a key.
pub open spec fn last_number(model: NostrModel, key: Seq<char>) -> Option<u64> {
    if model.incoming.dom().contains(key) {
        Some(model.incoming[key])
    } else {
        None
    }
}

/// The step that follows a finding. A message that was read is looked at further
/// only in its room and only once; then its sender has to be let in; then it has
/// to come in order.
pub open spec fn after_message_fact(
    model: NostrModel,
    room: Seq<char>,
    message: SignalingModel,
    key: Seq<char>,
    joined_at: Option<u64>,
    fact: MessageFact,
) -> MessageStep {
    match fact {
        MessageFact::Marked { fresh } => if is_considered(model, room, fresh, message.kind) {
            MessageStep::FindSender { requested: model.requested.contains(key) }
        } else {
            MessageStep::Drop
        },
        MessageFact::SenderFound { admitted, known, stored_epoch } => if sender_is_admitted(
            admitted,
            known,
            stored_epoch,
            joined_at,
        ) {
            MessageStep::CheckOrder { last: last_number(model, key) }
        } else {
            MessageStep::Drop
        },
        MessageFact::Ordered { accepted, .. } => if accepted {
            MessageStep::Bind {
                answers_request: model.requested.contains(key) && message.kind
                    == SignalingType::Request,
            }
        } else {
            MessageStep::Drop
        },
    }
}

/// The model after a finding: the number that comparing a message gives is
/// remembered, also where the message is dropped.
pub open spec fn message_noted(model: NostrModel, key: Seq<char>, fact: MessageFact) -> NostrModel {
    match fact {
        MessageFact::Ordered { sequence: Some(number), .. } => NostrModel {
            incoming: model.incoming.insert(key, number),
            ..model
        },
        _ => model,
    }
}

/// What taking a sender into the table of known nodes came to.
#[derive(Debug)]
pub struct Binding {
    /// Whether the node was known under this key.
    pub known: bool,
    /// The key under which the node was known before.
    pub rebound_from: Option<String>,
}

/// What to do with a message of a sender that is let in.
#[derive(Debug)]
pub struct MessageDelivery {
    /// What to hand on, in this order.
    pub forward: Vec<SignalingData>,
    /// Key that is to be sent a request once everything was handed on, unless it
    /// was sent one before.
    pub reply_to: Option<String>,
}

/// The news that a node has restarted.
pub open spec fn rejoin_news(
    model: NostrModel,
    message: SignalingModel,
    room: Seq<char>,
    joined_at: Option<u64>,
) -> SignalingModel {
    SignalingModel {
        sender: message.sender,
        receiver: model.local_node,
        room,
        data: decimal_text(
            match joined_at {
                Some(at) => at as nat,
                None => 0nat,
            },
        ),
        kind: SignalingType::Rejoin,
    }
}

/// A message as it is handed on: one for everybody is for this node.
pub open spec fn addressed(model: NostrModel, message: SignalingModel) -> SignalingModel {
    SignalingModel {
        receiver: if message.receiver.len() == 0 {
            model.local_node
        } else {
            message.receiver
        },
        ..message
    }
}

/// What is handed on of a message: nothing in another room than the one for
/// which it was read, and the news of a restarted sender before the message
/// itself.
pub open spec fn handed_on(
    model: NostrModel,
    message: SignalingModel,
    room: Seq<char>,
    joined_at: Option<u64>,
    rebound: bool,
) -> Seq<SignalingModel> {
    if model.room != Some(room) {
        Seq::empty()
    } else if rebound {
        seq![rejoin_news(model, message, room, joined_at), addressed(model, message)]
    } else {
        seq![addressed(model, message)]
    }
}

/// The three ways in which an event is read.
pub enum RouteModel {
    Ignore,
    Discovery { room: Seq<char> },
    Message { room: Seq<char> },
}

/// How an event of a kind that was signed with a key is read.
pub open spec fn event_route(model: NostrModel, key: Seq<char>, kind: u64) -> RouteModel {
    if key == current_key(model) || model.room is None {
        RouteModel::Ignore
    } else if kind == model.discovery_kind {
        RouteModel::Discovery { room: model.room->Some_0 }
    } else if kind == model.message_kind {
        RouteModel::Message { room: model.room->Some_0 }
    } else {
        RouteModel::Ignore
    }
}

/// Whether an announcement that was read for `room` is gone on with.
pub open spec fn discovery_counts(model: NostrModel, room: Seq<char>, fresh: bool) -> bool {
    model.room == Some(room) && fresh
}

/// The model after an announcement that was read for `room` came in.
pub open spec fn discovery_taken(
    model: NostrModel,
    room: Seq<char>,
    fresh: bool,
    key: Seq<char>,
    joined_at: Option<u64>,
) -> NostrModel {
    if discovery_counts(model, room, fresh) {
        announced(model, key, joined_at)
    } else {
        model
    }
}

/// Whether a key is sent a request, if one is `wanted`.
pub open spec fn is_asked(model: NostrModel, key: Seq<char>, wanted: bool) -> bool {
    wanted && !model.requested.contains(key)
}

/// The model after a request to a key was noted, if one is `wanted`.
pub open spec fn request_noted(model: NostrModel, key: Seq<char>, wanted: bool) -> NostrModel {
    if wanted {
        NostrModel { requested: model.requested.insert(key), ..model }
    } else {
        model
    }
}

/// Whether the sender of a message is sent a request in return: it was not known
/// under its key and asked everybody in the room.
pub open spec fn is_answered(
    model: NostrModel,
    room: Seq<char>,
    message: SignalingModel,
    known: bool,
) -> bool {
    &&& model.room == Some(room)
    &&& !known
    &&& message.kind == SignalingType::Request
    &&& message.receiver.len() == 0
}

/// The model after a message was delivered whose sender was known under the key
/// `rebound_from` before.
pub open spec fn sender_bound(model: NostrModel, rebound_from: Option<Seq<char>>) -> NostrModel {
    match rebound_from {
        Some(previous) => peer_purged(model, previous),
        None => model,
    }
}

/// What some messages say.
pub open spec fn message_models(messages: Seq<SignalingData>) -> Seq<SignalingModel> {
    messages.map_values(|message: SignalingData| message@)
}

impl WasmNostrSignaler {
    /// Decides how an event is to be read: the client's own events are ignored,
    /// and so is everything outside of a room.
    pub fn process_event(&self, pubkey: &String, kind: u64) -> (route: EventRoute)
        ensures
            if pubkey@ == current_key(self@) || self@.room is None {
                route is Ignore
            } else if kind == self@.discovery_kind {
                route is Discovery && route->Discovery_room@ == self@.room->Some_0
            } else if kind == self@.message_kind {
                route is Message && route->Message_room@ == self@.room->Some_0
            } else {
                route is Ignore
            },
            match event_route(self@, pubkey@, kind) {
                RouteModel::Ignore => route is Ignore,
                RouteModel::Discovery { room } => route is Discovery && route->Discovery_room@
                    == room,
                RouteModel::Message { room } => route is Message && route->Message_room@ == room,
            },
    {
        if same_text(pubkey.as_str(), self.current_identity().as_str()) {
            return EventRoute::Ignore;
        }
        match &self.room_id {
            Some(room) => {
                if kind == self.discovery_kind {
                    EventRoute::Discovery { room: room.clone() }
                } else if kind == self.message_kind {
                    EventRoute::Message { room: room.clone() }
                } else {
                    EventRoute::Ignore
                }
            },
            None => EventRoute::Ignore,
        }
    }

    /// Takes an announcement in; `fresh` says whether its event was not seen
    /// before. Returns whether to go on with it, which is the case only in the
    /// room for which it was read.
    pub fn process_discovery(
        &mut self,
        room_id: &str,
        fresh: bool,
        pubkey: &String,
        joined_at: Option<u64>,
    ) -> (go_on: bool)
        ensures
            go_on == (old(self)@.room == Some(room_id@) && fresh),
            final(self)@ == (if go_on {
                announced(old(self)@, pubkey@, joined_at)
            } else {
                old(self)@
            }),
            go_on == discovery_counts(old(self)@, room_id@, fresh),
            final(self)@ == discovery_taken(old(self)@, room_id@, fresh, pubkey@, joined_at),
    {
        if !self.room_is_current(room_id) || !fresh {
            return false;
        }
        if let Some(at) = joined_at {
            match self.peer_sessions.get(pubkey) {
                Some(previous) => {
                    let previous: u64 = *previous;
                    if at > previous {
                        let _ = self.peer_sessions.insert(pubkey.clone(), at);
                        let _ = self.requested_pubkeys.remove(pubkey);
                        let _ = self.incoming_sequences.remove(pubkey);
                        let _ = self.outgoing_sequences.remove(pubkey);
                    }
                },
                None => {
                    let _ = self.peer_sessions.insert(pubkey.clone(), at);
                },
            }
        }
        true
    }

    /// Notes a request to a key, if one is wanted. Returns whether to send it:
    /// a key is sent one request only.
    pub fn first_request(&mut self, pubkey: String, wanted: bool) -> (send: bool)
        ensures
            send == (wanted && !old(self)@.requested.contains(pubkey@)),
            final(self)@ == (if wanted {
                NostrModel { requested: old(self)@.requested.insert(pubkey@), ..old(self)@ }
            } else {
                old(self)@
            }),
            send == is_asked(old(self)@, pubkey@, wanted),
            final(self)@ == request_noted(old(self)@, pubkey@, wanted),
    {
        wanted && self.requested_pubkeys.insert(pubkey)
    }

    /// Decides what to do about a message that cannot be read; `to_everybody`
    /// says whether it went to everybody in the room.
    pub fn unreadable_message(error: &MistError, to_everybody: bool) -> (result: UnreadableMessage)
        ensures
            result == (if is_for_somebody_else(error@, to_everybody) {
                UnreadableMessage::Skip
            } else {
                UnreadableMessage::Fail
            }),
    {
        match error {
            MistError::Signaling(text) => {
                if same_text(text.as_str(), "invalid encrypted Nostr payload") && to_everybody {
                    return UnreadableMessage::Skip;
                }
                if same_text(text.as_str(), "Nostr message receiver pubkey mismatch") {
                    return UnreadableMessage::Skip;
                }
                UnreadableMessage::Fail
            },
            _ => UnreadableMessage::Fail,
        }
    }

    /// Decides whether a message that was read is looked at further; `fresh`
    /// says whether its event was not seen before.
    pub fn consider_message(&self, room_id: &str, fresh: bool, message: &SignalingData) -> (go_on:
        bool)
        ensures
            go_on == is_considered(self@, room_id@, fresh, message@.kind),
    {
        self.room_is_current(room_id) && fresh && !message.signaling_type.is_local_only()
    }

    /// Whether the holder of a key was sent a request.
    pub fn was_requested(&self, pubkey: &String) -> (requested: bool)
        ensures
            requested == self@.requested.contains(pubkey@),
    {
        self.requested_pubkeys.contains(pubkey)
    }

    /// Whether a sender is let in, where `admitted` says whether its key is
    /// known or was asked, `known` whether the node is known under some key, and
    /// `stored_epoch` when it said that it joined.
    pub fn accept_sender_for_payload(
        admitted: bool,
        known: bool,
        stored_epoch: Option<u64>,
        sender_epoch: Option<u64>,
    ) -> (accepted: bool)
        ensures
            accepted == sender_is_admitted(admitted, known, stored_epoch, sender_epoch),
    {
        if admitted {
            return true;
        }
        if !known {
            return false;
        }
        match (sender_epoch, stored_epoch) {
            (Some(candidate), Some(stored)) => candidate > stored,
            (Some(_), None) => true,
            (None, _) => false,
        }
    }

    /// The number of the last message from a key.
    pub fn incoming_sequence(&self, pubkey: &String) -> (sequence: Option<u64>)
        ensures
            sequence == last_number(self@, pubkey@),
    {
        match self.incoming_sequences.get(pubkey) {
            Some(sequence) => Some(*sequence),
            None => None,
        }
    }

    /// Takes the number of a message from a key.
    pub fn set_incoming_sequence(&mut self, pubkey: String, sequence: u64)
        ensures
            final(self)@ == (NostrModel {
                incoming: old(self)@.incoming.insert(pubkey@, sequence),
                ..old(self)@
            }),
    {
        let _ = self.incoming_sequences.insert(pubkey, sequence);
    }

    /// Decides what is done next about a message that was read for a room, by
    /// what the host found out about it last.
    pub fn message_step(
        &mut self,
        room_id: &str,
        message: &SignalingData,
        sender_pubkey: &String,
        sender_joined_at: Option<u64>,
        fact: MessageFact,
    ) -> (step: MessageStep)
        ensures
            step == after_message_fact(
                old(self)@,
                room_id@,
                message@,
                sender_pubkey@,
                sender_joined_at,
                fact,
            ),
            final(self)@ == message_noted(old(self)@, sender_pubkey@, fact),
    {
        match fact {
            MessageFact::Marked { fresh } => {
                if self.consider_message(room_id, fresh, message) {
                    MessageStep::FindSender { requested: self.was_requested(sender_pubkey) }
                } else {
                    MessageStep::Drop
                }
            },
            MessageFact::SenderFound { admitted, known, stored_epoch } => {
                if Self::accept_sender_for_payload(
                    admitted,
                    known,
                    stored_epoch,
                    sender_joined_at,
                ) {
                    MessageStep::CheckOrder { last: self.incoming_sequence(sender_pubkey) }
                } else {
                    MessageStep::Drop
                }
            },
            MessageFact::Ordered { accepted, sequence } => {
                if let Some(number) = sequence {
                    self.set_incoming_sequence(sender_pubkey.clone(), number);
                }
                if accepted {
                    MessageStep::Bind {
                        answers_request: answers_request(
                            self.was_requested(sender_pubkey),
                            message.signaling_type,
                        ),
                    }
                } else {
                    MessageStep::Drop
                }
            },
        }
    }

    /// Delivers a message of a sender that was let in. A sender that is known
    /// under another key has restarted: what is known under that key is
    /// forgotten, and the news of it goes before the message. Nothing is
    /// delivered in another room than the one for which the message was read.
    pub fn deliver_message(
        &mut self,
        room_id: &str,
        message: SignalingData,
        sender_pubkey: String,
        sender_joined_at: Option<u64>,
        binding: Binding,
    ) -> (delivery: MessageDelivery)
        ensures
            final(self)@ == (match binding.rebound_from {
                Some(previous) => peer_purged(old(self)@, previous@),
                None => old(self)@,
            }),
            message_models(delivery.forward@) == handed_on(
                old(self)@,
                message@,
                room_id@,
                sender_joined_at,
                binding.rebound_from is Some,
            ),
            match delivery.reply_to {
                Some(key) => key == sender_pubkey,
                None => true,
            },
            delivery.reply_to is Some <==> {
                &&& old(self)@.room == Some(room_id@)
                &&& !binding.known
                &&& message@.kind == SignalingType::Request
                &&& message@.receiver.len() == 0
            },
            delivery.reply_to is Some <==> is_answered(
                old(self)@,
                room_id@,
                message@,
                binding.known,
            ),
            final(self)@ == sender_bound(
                old(self)@,
                match binding.rebound_from {
                    Some(previous) => Some(previous@),
                    None => None,
                },
            ),
    {
        let current = self.room_is_current(room_id);
        let wants_reply = !binding.known && message.signaling_type == SignalingType::Request
            && message.receiver_id.is_broadcast();
        let mut forward: Vec<SignalingData> = Vec::new();
        let ghost rebound = binding.rebound_from is Some;
        if let Some(previous) = binding.rebound_from {
            self.purge_peer_state(&previous);
            if current {
                let new_epoch: u64 = match sender_joined_at {
                    Some(at) => at,
                    None => 0,
                };
                forward.push(
                    SignalingData {
                        sender_id: message.sender_id.clone(),
                        receiver_id: self.local_node_id.clone(),
                        room_id: room_id.to_string(),
                        data: decimal(new_epoch),
                        signaling_type: SignalingType::Rejoin,
                    },
                );
            }
        }
        if !current {
            assert(message_models(forward@) =~= Seq::empty());
            return MessageDelivery { forward, reply_to: None };
        }
        let receiver_id: NodeId = if message.receiver_id.is_broadcast() {
            self.local_node_id.clone()
        } else {
            message.receiver_id
        };
        forward.push(
            SignalingData {
                sender_id: message.sender_id,
                receiver_id,
                room_id: message.room_id,
                data: message.data,
                signaling_type: message.signaling_type,
            },
        );
        assert(message_models(forward@) =~= handed_on(
            old(self)@,
            message@,
            room_id@,
            sender_joined_at,
            rebound,
        ));
        MessageDelivery {
            forward,
            reply_to: if wants_reply {
                Some(sender_pubkey)
            } else {
                None
            },
        }
    }
}

/// A message that is only ever made up locally is never taken from a relay.
pub proof fn lemma_forged_rejoin_is_dropped(model: NostrModel, room: Seq<char>, fresh: bool)
    ensures
        !is_considered(model, room, fresh, SignalingType::Rejoin),
{
}

/// The news that a node has restarted comes before the message from which it was
/// seen, and it comes only with a change of the node's key.
pub proof fn lemma_news_come_first(
    model: NostrModel,
    message: SignalingModel,
    room: Seq<char>,
    joined_at: Option<u64>,
    rebound: bool,
)
    requires
        model.room == Some(room),
        message.kind != SignalingType::Rejoin,
    ensures
        ({
            let forward = handed_on(model, message, room, joined_at, rebound);
            &&& forward.last() == addressed(model, message)
            &&& rebound ==> forward.len() == 2 && forward[0].kind == SignalingType::Rejoin
                && forward[0].sender == message.sender
            &&& !rebound ==> forward.len() == 1 && forward[0].kind != SignalingType::Rejoin
        }),
{
}

/// A sender is bound only by a message that passed every check: it is new, it
/// was read in the present room, it may come from a relay, its sender is let in,
/// and it comes in order. Whether the sender was asked does not change meanwhile.
pub proof fn lemma_only_checked_messages_are_bound(
    model: NostrModel,
    room: Seq<char>,
    message: SignalingModel,
    key: Seq<char>,
    joined_at: Option<u64>,
    marked: MessageFact,
    found: MessageFact,
    ordered: MessageFact,
)
    requires
        marked is Marked,
        found is SenderFound,
        ordered is Ordered,
    ensures
        ({
            let noted = message_noted(message_noted(model, key, marked), key, found);
            let first = after_message_fact(model, room, message, key, joined_at, marked);
            let second = after_message_fact(
                message_noted(model, key, marked),
                room,
                message,
                key,
                joined_at,
                found,
            );
            let third = after_message_fact(noted, room, message, key, joined_at, ordered);
            &&& first is FindSender && second is CheckOrder && third is Bind <==> {
                &&& is_considered(model, room, marked->fresh, message.kind)
                &&& sender_is_admitted(
                    found->admitted,
                    found->known,
                    found->stored_epoch,
                    joined_at,
                )
                &&& ordered->accepted
            }
            &&& first is FindSender && third is Bind ==> third->answers_request == (
            first->requested && message.kind == SignalingType::Request)
            &&& message_noted(noted, key, ordered).requested == model.requested
        }),
{
}

/// A node that is known under another key is let in by a strictly later join and
/// by nothing else: repeating an old one does not help.
pub proof fn lemma_only_later_joins_are_admitted(stored: u64, claimed: u64)
    ensures
        sender_is_admitted(false, true, Some(stored), Some(claimed)) <==> claimed > stored,
        !sender_is_admitted(false, true, Some(stored), None),
        !sender_is_admitted(false, false, Some(stored), Some(claimed)),
{
}

/// Repeating an announcement changes nothing, and a later join makes the key be
/// asked again.
pub proof fn lemma_announcements_are_idempotent(
    model: NostrModel,
    key: Seq<char>,
    joined_at: Option<u64>,
)
    ensures
        announced(announced(model, key, joined_at), key, joined_at) == announced(
            model,
            key,
            joined_at,
        ),
        has_rejoined(model, key, joined_at) ==> !announced(model, key, joined_at).requested.contains(
            key,
        ),
{
}

/// The epoch that the news of a restart carries is the one that the restarted
/// node announced.
pub proof fn lemma_news_carry_the_epoch(
    model: NostrModel,
    message: SignalingModel,
    room: Seq<char>,
    joined_at: u64,
)
    ensures
        crate::text::unsigned_number(rejoin_news(model, message, room, Some(joined_at)).data)
            == Some(joined_at),
        rejoin_news(model, message, room, Some(joined_at)).sender == message.sender,
{
    crate::text::lemma_decimal_text_reads_back(joined_at);
}

} // verus!
