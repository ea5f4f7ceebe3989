//! Signaling over Nostr relays.

pub mod connection;
pub mod handler;
pub mod keepalive;
pub mod laws;
pub mod refresh;
pub mod relay_source;

use vstd::prelude::*;

use crate::arith::saturating_product;
use crate::config::NostrSignalingConfig;
use crate::signaling::epoch::next_epoch;
use crate::table::{NameSet, Table};
use crate::text::{same_text, texts_of};
use crate::types::{
    ErrorModel, MessageContent, MistError, NodeId, SignalingData, SignalingModel, SignalingType,
};

verus! {

/// Interval at which the subscriptions are sent again. Browsers cannot ping a
/// socket; this traffic keeps it alive, and it keeps the filters current.
pub const RELAY_KEEPALIVE_INTERVAL_MS: u32 = 30000;

/// How long a relay may stay silent before its connection is given up: two
/// keepalive intervals.
pub const RELAY_IDLE_THRESHOLD_MS: u32 = 60000;

/// State of signaling over relays. The host keeps its sockets under numbers, and
/// it keeps the keys of which this holds the public ones.
pub struct WasmNostrSignaler {
    pub relays: Vec<String>,
    pub relay_list_url: Option<String>,
    pub local_node_id: NodeId,
    pub public_key: String,
    /// Key that replaced the first one.
    pub rotated_public_key: Option<String>,
    pub ttl_seconds: u64,
    pub discovery_kind: u64,
    pub message_kind: u64,
    pub sockets: Vec<u64>,
    pub room_id: Option<String>,
    pub outgoing_sequences: Table<String, u64>,
    pub incoming_sequences: Table<String, u64>,
    /// When the room was joined.
    pub local_joined_at: Option<u64>,
    /// Keys that were sent a request.
    pub requested_pubkeys: NameSet,
    /// When the holder of a key joined, as announced last.
    pub peer_sessions: Table<String, u64>,
    pub refresh_epoch: u64,
    pub reconnect_epoch: u64,
    pub keepalive_epoch: u64,
    /// Names of the two subscriptions. They stay the same, so that sending one
    /// again replaces it.
    pub discovery_subscription_id: String,
    pub message_subscription_id: String,
}

/// What a [`WasmNostrSignaler`] holds.
#[verifier::ext_equal]
pub struct NostrModel {
    pub relays: Seq<Seq<char>>,
    pub relay_list_url: Option<String>,
    pub local_node: Seq<char>,
    pub public_key: Seq<char>,
    pub rotated_key: Option<Seq<char>>,
    pub ttl_seconds: u64,
    pub discovery_kind: u64,
    pub message_kind: u64,
    pub sockets: Seq<u64>,
    pub room: Option<Seq<char>>,
    pub outgoing: Map<Seq<char>, u64>,
    pub incoming: Map<Seq<char>, u64>,
    pub joined_at: Option<u64>,
    pub requested: Set<Seq<char>>,
    pub sessions: Map<Seq<char>, u64>,
    pub refresh_epoch: u64,
    pub reconnect_epoch: u64,
    pub keepalive_epoch: u64,
    pub discovery_subscription: Seq<char>,
    pub message_subscription: Seq<char>,
}

impl View for WasmNostrSignaler {
    type V = NostrModel;

    open spec fn view(&self) -> NostrModel {
        NostrModel {
            relays: texts_of(self.relays@),
            relay_list_url: self.relay_list_url,
            local_node: self.local_node_id@,
            public_key: self.public_key@,
            rotated_key: match self.rotated_public_key {
                Some(key) => Some(key@),
                None => None,
            },
            ttl_seconds: self.ttl_seconds,
            discovery_kind: self.discovery_kind,
            message_kind: self.message_kind,
            sockets: self.sockets@,
            room: match self.room_id {
                Some(room) => Some(room@),
                None => None,
            },
            outgoing: self.outgoing_sequences@,
            incoming: self.incoming_sequences@,
            joined_at: self.local_joined_at,
            requested: self.requested_pubkeys@,
            sessions: self.peer_sessions@,
            refresh_epoch: self.refresh_epoch,
            reconnect_epoch: self.reconnect_epoch,
            keepalive_epoch: self.keepalive_epoch,
            discovery_subscription: self.discovery_subscription_id@,
            message_subscription: self.message_subscription_id@,
        }
    }
}

/// How long, in seconds, an event is remembered to recognise it again: twice as
/// long as it lives, and at least a second.
pub open spec fn dedupe_seconds(ttl_seconds: u64) -> int {
    if ttl_seconds == 0 {
        1
    } else if 2 * ttl_seconds > u64::MAX {
        u64::MAX as int
    } else {
        2 * ttl_seconds
    }
}

/// How long, in seconds, an event is remembered to recognise it again.
pub fn dedupe_ttl_seconds(ttl_seconds: u64) -> (seconds: u64)
    ensures
        seconds == dedupe_seconds(ttl_seconds),
{
    let doubled: u64 = saturating_product(ttl_seconds, 2);
    if doubled == 0 {
        1
    } else {
        doubled
    }
}

/// The key that is in use.
pub open spec fn current_key(model: NostrModel) -> Seq<char> {
    match model.rotated_key {
        Some(key) => key,
        None => model.public_key,
    }
}

/// The model with everything forgotten that was learnt about peers.
pub open spec fn session_cleared(model: NostrModel) -> NostrModel {
    NostrModel {
        outgoing: Map::empty(),
        incoming: Map::empty(),
        requested: Set::empty(),
        sessions: Map::empty(),
        ..model
    }
}

/// The model with everything forgotten that is known under a key.
pub open spec fn peer_purged(model: NostrModel, key: Seq<char>) -> NostrModel {
    NostrModel {
        outgoing: model.outgoing.remove(key),
        incoming: model.incoming.remove(key),
        requested: model.requested.remove(key),
        sessions: model.sessions.remove(key),
        ..model
    }
}

/// Whether a message for `room` moves the signaler to another room.
pub open spec fn changes_room(model: NostrModel, room: Seq<char>) -> bool {
    room.len() > 0 && model.room != Some(room)
}

/// The model after a message for `room`; a new room begins with nothing known.
pub open spec fn in_room(model: NostrModel, room: Seq<char>, now: u64) -> NostrModel {
    if changes_room(model, room) {
        NostrModel { room: Some(room), joined_at: Some(now), ..session_cleared(model) }
    } else {
        model
    }
}

/// What to do with an outgoing message.
#[derive(Debug)]
pub enum NostrSend {
    Nothing,
    /// Announce the client in a room.
    Discovery { room: String },
    /// Look up the receiver's key and send the message to it.
    Direct,
}

/// The three things that can become of an outgoing message.
pub enum SendKind {
    Nothing,
    Discovery,
    Direct,
}

/// What becomes of a message to `to` in `room`: one to the server or to everybody
/// announces the client in the room, if it names one.
pub open spec fn send_kind(to: Seq<char>, room: Seq<char>) -> SendKind {
    if to == "server"@ || to.len() == 0 {
        if room.len() == 0 {
            SendKind::Nothing
        } else {
            SendKind::Discovery
        }
    } else {
        SendKind::Direct
    }
}

/// The model after sending a message began.
pub open spec fn sending_begun(model: NostrModel, msg: MessageContent, now: u64) -> NostrModel {
    match msg {
        MessageContent::Data(data) => if data.signaling_type == SignalingType::Rejoin {
            model
        } else {
            in_room(model, data.room_id@, now)
        },
        _ => model,
    }
}

/// The sockets that a frame goes to, or why it goes to none.
pub open spec fn frame_targets(sockets: Seq<u64>, open: Seq<bool>) -> Result<Seq<u64>, ErrorModel> {
    if sockets.len() == 0 {
        Err(ErrorModel::Signaling("WasmNostrSignaler: no relay connection is open"@))
    } else if open_sockets(sockets, open).len() == 0 {
        Err(ErrorModel::Signaling("WasmNostrSignaler: relay websocket is not open"@))
    } else {
        Ok(open_sockets(sockets, open))
    }
}

/// The message by which the client asks for a connection in a room.
pub open spec fn connection_request(model: NostrModel, room: Seq<char>) -> SignalingModel {
    SignalingModel {
        sender: model.local_node,
        receiver: Seq::empty(),
        room,
        data: Seq::empty(),
        kind: SignalingType::Request,
    }
}

/// Whether a message of a kind may go to a relay.
pub open spec fn is_publishable(kind: SignalingType) -> bool {
    kind != SignalingType::Rejoin
}

/// The model after the session began anew under a key; nothing happens outside
/// of a room.
pub open spec fn session_restarted(model: NostrModel, key: Seq<char>, now: u64) -> NostrModel {
    if model.room is Some {
        NostrModel {
            rotated_key: Some(key),
            joined_at: Some(now),
            refresh_epoch: next_epoch(next_epoch(model.refresh_epoch)),
            ..session_cleared(model)
        }
    } else {
        model
    }
}

/// What sending a message begins with.
#[derive(Debug)]
pub struct NostrSendPlan {
    /// Whether the room changed: what the host knows about nodes and seen events
    /// is to be cleared, the room subscribed to, and the background work begun
    /// anew.
    pub room_changed: bool,
    pub send: NostrSend,
}

/// The handles of the open sockets, in order.
pub open spec fn open_sockets(sockets: Seq<u64>, open: Seq<bool>) -> Seq<u64>
    decreases sockets.len(),
{
    if sockets.len() == 0 || sockets.len() != open.len() {
        Seq::empty()
    } else {
        let before = open_sockets(sockets.drop_last(), open.drop_last());
        if open.last() {
            before.push(sockets.last())
        } else {
            before
        }
    }
}

/// A signaler that has not been used yet.
pub open spec fn fresh_nostr(
    local_node: Seq<char>,
    config: NostrSignalingConfig,
    public_key: Seq<char>,
    discovery_subscription: Seq<char>,
    message_subscription: Seq<char>,
) -> NostrModel {
    NostrModel {
        relays: texts_of(config.relays@),
        relay_list_url: config.relay_list_url,
        local_node,
        public_key,
        rotated_key: None,
        ttl_seconds: config.ttl_seconds,
        discovery_kind: config.discovery_kind,
        message_kind: config.message_kind,
        sockets: Seq::empty(),
        room: None,
        outgoing: Map::empty(),
        incoming: Map::empty(),
        joined_at: None,
        requested: Set::empty(),
        sessions: Map::empty(),
        refresh_epoch: 0,
        reconnect_epoch: 0,
        keepalive_epoch: 0,
        discovery_subscription,
        message_subscription,
    }
}

impl WasmNostrSignaler {
    pub fn new(
        local_node_id: NodeId,
        config: NostrSignalingConfig,
        public_key: String,
        discovery_subscription_id: String,
        message_subscription_id: String,
    ) -> (signaler: Self)
        ensures
            signaler@ == fresh_nostr(
                local_node_id@,
                config,
                public_key@,
                discovery_subscription_id@,
                message_subscription_id@,
            ),
    {
        WasmNostrSignaler {
            relays: config.relays,
            relay_list_url: config.relay_list_url,
            local_node_id,
            public_key,
            rotated_public_key: None,
            ttl_seconds: config.ttl_seconds,
            discovery_kind: config.discovery_kind,
            message_kind: config.message_kind,
            sockets: Vec::new(),
            room_id: None,
            outgoing_sequences: Table::new(),
            incoming_sequences: Table::new(),
            local_joined_at: None,
            requested_pubkeys: NameSet::new(),
            peer_sessions: Table::new(),
            refresh_epoch: 0,
            reconnect_epoch: 0,
            keepalive_epoch: 0,
            discovery_subscription_id,
            message_subscription_id,
        }
    }

    /// The public key that is in use.
    pub fn current_identity(&self) -> (key: &String)
        ensures
            key@ == current_key(self@),
    {
        match &self.rotated_public_key {
            Some(key) => key,
            None => &self.public_key,
        }
    }

    fn clear_session_state(&mut self)
        ensures
            final(self)@ == session_cleared(old(self)@),
    {
        self.outgoing_sequences.clear();
        self.incoming_sequences.clear();
        self.requested_pubkeys.clear();
        self.peer_sessions.clear();
    }

    /// Forgets what is known under a key whose holder goes by another key now.
    pub fn purge_peer_state(&mut self, pubkey: &String)
        ensures
            final(self)@ == peer_purged(old(self)@, pubkey@),
    {
        let _ = self.requested_pubkeys.remove(pubkey);
        let _ = self.incoming_sequences.remove(pubkey);
        let _ = self.outgoing_sequences.remove(pubkey);
        let _ = self.peer_sessions.remove(pubkey);
    }

    /// The sequence number of the last message to a key.
    pub fn outgoing_sequence(&self, pubkey: &String) -> (sequence: Option<u64>)
        ensures
            sequence == (if self@.outgoing.dom().contains(pubkey@) {
                Some(self@.outgoing[pubkey@])
            } else {
                None
            }),
    {
        match self.outgoing_sequences.get(pubkey) {
            Some(sequence) => Some(*sequence),
            None => None,
        }
    }

    /// Takes the sequence number of a message that is about to go to a key.
    pub fn set_outgoing_sequence(&mut self, pubkey: String, sequence: u64)
        ensures
            final(self)@ == (NostrModel {
                outgoing: old(self)@.outgoing.insert(pubkey@, sequence),
                ..old(self)@
            }),
    {
        let _ = self.outgoing_sequences.insert(pubkey, sequence);
    }

    /// The sockets that a frame goes to: all open ones, in order. `open` says of
    /// each socket whether it is open. No open socket is an error.
    pub fn publish_frame(&self, open: &[bool]) -> (result: Result<Vec<u64>, MistError>)
        requires
            open@.len() == self@.sockets.len(),
        ensures
            if self@.sockets.len() == 0 {
                result is Err && result->Err_0@ == ErrorModel::Signaling(
                    "WasmNostrSignaler: no relay connection is open"@,
                )
            } else if open_sockets(self@.sockets, open@).len() == 0 {
                result is Err && result->Err_0@ == ErrorModel::Signaling(
                    "WasmNostrSignaler: relay websocket is not open"@,
                )
            } else {
                result is Ok && result->Ok_0@ == open_sockets(self@.sockets, open@)
            },
            match frame_targets(self@.sockets, open@) {
                Ok(targets) => result is Ok && result->Ok_0@ == targets,
                Err(error) => result is Err && result->Err_0@ == error,
            },
    {
        if self.sockets.len() == 0 {
            return Err(
                MistError::Signaling(
                    "WasmNostrSignaler: no relay connection is open".to_string(),
                ),
            );
        }
        let targets = self.open_subset(open);
        if targets.len() == 0 {
            return Err(
                MistError::Signaling(
                    "WasmNostrSignaler: relay websocket is not open".to_string(),
                ),
            );
        }
        Ok(targets)
    }

    /// The sockets on which a room is subscribed to: all open ones, in order.
    pub fn subscribe_room(&self, open: &[bool]) -> (targets: Vec<u64>)
        requires
            open@.len() == self@.sockets.len(),
        ensures
            targets@ == open_sockets(self@.sockets, open@),
    {
        self.open_subset(open)
    }

    fn open_subset(&self, open: &[bool]) -> (targets: Vec<u64>)
        requires
            open@.len() == self@.sockets.len(),
        ensures
            targets@ == open_sockets(self@.sockets, open@),
    {
        let mut targets: Vec<u64> = Vec::new();
        let mut i: usize = 0;
        while i < self.sockets.len()
            invariant
                i <= self.sockets@.len(),
                open@.len() == self.sockets@.len(),
                targets@ == open_sockets(self.sockets@.take(i as int), open@.take(i as int)),
            decreases self.sockets@.len() - i,
        {
            if open[i] {
                targets.push(self.sockets[i]);
            }
            proof {
                let sockets = self.sockets@.take(i + 1);
                let states = open@.take(i + 1);
                assert(sockets.drop_last() =~= self.sockets@.take(i as int));
                assert(states.drop_last() =~= open@.take(i as int));
                assert(sockets.last() == self.sockets@[i as int]);
                assert(states.last() == open@[i as int]);
            }
            i = i + 1;
        }
        assert(self.sockets@.take(i as int) =~= self.sockets@);
        assert(open@.take(i as int) =~= open@);
        targets
    }

    /// Whether a message may go to a relay. Messages that are only ever made up
    /// locally may not.
    pub fn may_publish(data: &SignalingData) -> (may: bool)
        ensures
            may == (data.signaling_type != SignalingType::Rejoin),
            may == is_publishable(data.signaling_type),
    {
        !data.signaling_type.is_local_only()
    }

    /// The message that asks the holder of a key for a connection.
    pub fn request_message(&self, room_id: &str) -> (request: SignalingData)
        ensures
            request@ == (SignalingModel {
                sender: self@.local_node,
                receiver: Seq::empty(),
                room: room_id@,
                data: Seq::empty(),
                kind: SignalingType::Request,
            }),
            request@ == connection_request(self@, room_id@),
    {
        SignalingData {
            sender_id: self.local_node_id.clone(),
            receiver_id: NodeId::broadcast(),
            room_id: room_id.to_string(),
            data: String::new(),
            signaling_type: SignalingType::Request,
        }
    }

    /// Moves to a room, at the time `now` in milliseconds. Returns whether that
    /// is another room than the present one.
    pub fn set_room_id(&mut self, room_id: &str, now: u64) -> (changed: bool)
        ensures
            changed == changes_room(old(self)@, room_id@),
            final(self)@ == in_room(old(self)@, room_id@, now),
    {
        if room_id.is_empty() || self.room_is_current(room_id) {
            return false;
        }
        self.room_id = Some(room_id.to_string());
        self.clear_session_state();
        self.local_joined_at = Some(now);
        true
    }

    pub fn room_is_current(&self, room_id: &str) -> (current: bool)
        ensures
            current == (self@.room == Some(room_id@)),
    {
        match &self.room_id {
            Some(room) => same_text(room.as_str(), room_id),
            None => false,
        }
    }

    /// Begins to send a message at the time `now` in milliseconds.
    pub fn send_signaling(&mut self, to: &NodeId, msg: &MessageContent, now: u64) -> (result: Result<
        NostrSendPlan,
        MistError,
    >)
        ensures
            match *msg {
                MessageContent::Data(data) => if data.signaling_type == SignalingType::Rejoin {
                    &&& final(self)@ == old(self)@
                    &&& result is Ok && !result->Ok_0.room_changed && result->Ok_0.send is Nothing
                } else {
                    &&& final(self)@ == in_room(old(self)@, data.room_id@, now)
                    &&& result is Ok && result->Ok_0.room_changed == changes_room(
                        old(self)@,
                        data.room_id@,
                    )
                    &&& if to@ == "server"@ || to@.len() == 0 {
                        if data.room_id@.len() == 0 {
                            result->Ok_0.send is Nothing
                        } else {
                            result->Ok_0.send is Discovery && result->Ok_0.send->room@
                                == data.room_id@
                        }
                    } else {
                        result->Ok_0.send is Direct
                    }
                },
                _ => {
                    &&& final(self)@ == old(self)@
                    &&& result is Err && result->Err_0@ == ErrorModel::Signaling(
                        "WasmNostrSignaler: unsupported message type"@,
                    )
                },
            },
            final(self)@ == sending_begun(old(self)@, *msg, now),
            match *msg {
                MessageContent::Data(data) => data.signaling_type != SignalingType::Rejoin ==> {
                    match send_kind(to@, data.room_id@) {
                        SendKind::Nothing => result->Ok_0.send is Nothing,
                        SendKind::Discovery => result->Ok_0.send is Discovery,
                        SendKind::Direct => result->Ok_0.send is Direct,
                    }
                },
                _ => true,
            },
    {
        let data = match msg {
            MessageContent::Data(data) => data,
            _ => {
                return Err(
                    MistError::Signaling(
                        "WasmNostrSignaler: unsupported message type".to_string(),
                    ),
                );
            },
        };
        if data.signaling_type.is_local_only() {
            return Ok(NostrSendPlan { room_changed: false, send: NostrSend::Nothing });
        }
        let room_changed = self.set_room_id(data.room_id.as_str(), now);
        let send = if to.is_server() || to.is_broadcast() {
            if data.room_id.as_str().is_empty() {
                NostrSend::Nothing
            } else {
                NostrSend::Discovery { room: data.room_id.clone() }
            }
        } else {
            NostrSend::Direct
        };
        Ok(NostrSendPlan { room_changed, send })
    }

    /// The key that a message to one node goes to, where `pubkey` is the key by
    /// which the node is known.
    pub fn route_to_node(to: &NodeId, pubkey: Option<String>) -> (result: Result<String, MistError>)
        ensures
            match pubkey {
                Some(key) => result is Ok && result->Ok_0 == key,
                None => result is Err && result->Err_0@ == ErrorModel::RouteNotFound(to@),
            },
    {
        match pubkey {
            Some(key) => Ok(key),
            None => Err(MistError::RouteNotFound(to.clone())),
        }
    }

    /// Begins the session anew under a new key, at the time `now` in
    /// milliseconds. Returns the room in which the client is to be announced and
    /// the epoch of the announcing; nothing happens outside of a room.
    pub fn reset_session(&mut self, public_key: String, now: u64) -> (restart: Option<(String, u64)>)
        ensures
            match old(self)@.room {
                Some(room) => {
                    let epoch = next_epoch(next_epoch(old(self)@.refresh_epoch));
                    &&& restart is Some && restart->Some_0.0@ == room && restart->Some_0.1 == epoch
                    &&& final(self)@ == (NostrModel {
                        rotated_key: Some(public_key@),
                        joined_at: Some(now),
                        refresh_epoch: epoch,
                        ..session_cleared(old(self)@)
                    })
                },
                None => restart is None && final(self)@ == old(self)@,
            },
            final(self)@ == session_restarted(old(self)@, public_key@, now),
            restart is Some <==> old(self)@.room is Some,
            restart is Some ==> restart->Some_0.1 == final(self)@.refresh_epoch,
    {
        let room = match &self.room_id {
            Some(room) => room.clone(),
            None => {
                return None;
            },
        };
        self.cancel_discovery_refresh();
        self.rotated_public_key = Some(public_key);
        self.clear_session_state();
        self.local_joined_at = Some(now);
        let epoch: u64 = self.spawn_discovery_refresh();
        Some((room, epoch))
    }

    /// Ends the session and returns the sockets that are to be closed.
    pub fn close(&mut self) -> (sockets: Vec<u64>)
        ensures
            sockets@ == old(self)@.sockets,
            final(self)@ == (NostrModel {
                refresh_epoch: next_epoch(old(self)@.refresh_epoch),
                keepalive_epoch: next_epoch(old(self)@.keepalive_epoch),
                reconnect_epoch: next_epoch(old(self)@.reconnect_epoch),
                sockets: Seq::empty(),
                room: None,
                joined_at: None,
                rotated_key: None,
                ..session_cleared(old(self)@)
            }),
    {
        self.cancel_discovery_refresh();
        self.cancel_relay_keepalive();
        let _ = self.next_reconnect_epoch();
        let mut sockets: Vec<u64> = Vec::new();
        std::mem::swap(&mut sockets, &mut self.sockets);
        self.room_id = None;
        self.clear_session_state();
        self.local_joined_at = None;
        self.rotated_public_key = None;
        assert(self@.sockets =~= Seq::empty());
        sockets
    }
}

/// A relay is given up only after two keepalive intervals without an answer.
pub proof fn lemma_idle_threshold_is_two_keepalives()
    ensures
        RELAY_IDLE_THRESHOLD_MS == 2 * RELAY_KEEPALIVE_INTERVAL_MS,
{
}

/// A new room begins with nothing known about anybody, and staying in a room
/// forgets nothing.
pub proof fn lemma_rooms_do_not_mix(model: NostrModel, room: Seq<char>, now: u64)
    requires
        room.len() > 0,
    ensures
        in_room(model, room, now).room == Some(room),
        model.room != Some(room) ==> {
            let moved = in_room(model, room, now);
            &&& moved.requested == Set::<Seq<char>>::empty()
            &&& moved.sessions == Map::<Seq<char>, u64>::empty()
            &&& moved.incoming == Map::<Seq<char>, u64>::empty()
            &&& moved.outgoing == Map::<Seq<char>, u64>::empty()
        },
        in_room(in_room(model, room, now), room, now) == in_room(model, room, now),
{
}

/// What is known under other keys survives the purge of a key, and nothing is
/// known under the purged one.
pub proof fn lemma_purge_is_local(model: NostrModel, key: Seq<char>, other: Seq<char>)
    requires
        other != key,
    ensures
        !peer_purged(model, key).requested.contains(key),
        !peer_purged(model, key).sessions.dom().contains(key),
        !peer_purged(model, key).incoming.dom().contains(key),
        !peer_purged(model, key).outgoing.dom().contains(key),
        peer_purged(model, key).requested.contains(other) == model.requested.contains(other),
        model.sessions.dom().contains(other) ==> peer_purged(model, key).sessions.dom().contains(
            other,
        ) && peer_purged(model, key).sessions[other] == model.sessions[other],
        model.incoming.dom().contains(other) ==> peer_purged(model, key).incoming.dom().contains(
            other,
        ) && peer_purged(model, key).incoming[other] == model.incoming[other],
        model.outgoing.dom().contains(other) ==> peer_purged(model, key).outgoing.dom().contains(
            other,
        ) && peer_purged(model, key).outgoing[other] == model.outgoing[other],
{
}

} // verus!
