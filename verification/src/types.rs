//! Plain values shared by the signaling, session and transport layers.

use vstd::prelude::*;

verus! {

/// Name of a node. The empty name addresses every node at once.
#[derive(Debug, PartialEq, Eq, Hash)]
pub struct NodeId(pub String);

impl View for NodeId {
    type V = Seq<char>;

    open spec fn view(&self) -> Seq<char> {
        self.0@
    }
}

impl Clone for NodeId {
    fn clone(&self) -> (copy: Self)
        ensures
            copy == *self,
    {
        NodeId(self.0.clone())
    }
}

impl NodeId {
    /// The name that stands for "every node".
    pub fn broadcast() -> (node: NodeId)
        ensures
            node@ == Seq::<char>::empty(),
    {
        NodeId(String::new())
    }

    pub fn is_broadcast(&self) -> (broadcast: bool)
        ensures
            broadcast == (self@.len() == 0),
    {
        self.0.as_str().is_empty()
    }

    /// Whether the name is that of the signaling server.
    pub fn is_server(&self) -> (server: bool)
        ensures
            server == (self@ == "server"@),
    {
        crate::text::same_text(self.0.as_str(), "server")
    }

    /// Whether both names are the same.
    pub fn same(&self, other: &NodeId) -> (same: bool)
        ensures
            same == (self@ == other@),
    {
        self.0 == other.0
    }
}

/// How far a connection to a node has come.
#[derive(Debug, Clone, Copy, PartialEq, Eq, Hash, Structural)]
pub enum ConnectionState {
    Disconnected,
    Connecting,
    Connected,
    Reconnecting,
    Failed,
}

/// Whether a connection in `state` occupies one of the connection slots.
pub open spec fn is_live(state: ConnectionState) -> bool {
    state == ConnectionState::Connected || state == ConnectionState::Connecting || state
        == ConnectionState::Reconnecting
}

impl ConnectionState {
    /// Whether the connection is up or on its way up.
    pub fn is_live(self) -> (live: bool)
        ensures
            live == is_live(self),
    {
        match self {
            ConnectionState::Connected
            | ConnectionState::Connecting
            | ConnectionState::Reconnecting => true,
            ConnectionState::Disconnected | ConnectionState::Failed => false,
        }
    }
}

/// Which guarantees a message asks of the channel that carries it.
#[derive(Debug, Clone, Copy, PartialEq, Eq, Hash, Structural)]
pub enum DeliveryMethod {
    ReliableOrdered,
    UnreliableOrdered,
    Unreliable,
}

/// What went wrong.
#[derive(Debug)]
pub enum MistError {
    Internal(String),
    Network(String),
    Signaling(String),
    Serialization(String),
    RouteNotFound(NodeId),
    MessageTooLarge { size: usize, limit: u32 },
}

/// What a [`MistError`] says.
pub enum ErrorModel {
    Internal(Seq<char>),
    Network(Seq<char>),
    Signaling(Seq<char>),
    Serialization(Seq<char>),
    RouteNotFound(Seq<char>),
    MessageTooLarge { size: usize, limit: u32 },
}

impl View for MistError {
    type V = ErrorModel;

    open spec fn view(&self) -> ErrorModel {
        match self {
            MistError::Internal(text) => ErrorModel::Internal(text@),
            MistError::Network(text) => ErrorModel::Network(text@),
            MistError::Signaling(text) => ErrorModel::Signaling(text@),
            MistError::Serialization(text) => ErrorModel::Serialization(text@),
            MistError::RouteNotFound(node) => ErrorModel::RouteNotFound(node@),
            MistError::MessageTooLarge { size, limit } => ErrorModel::MessageTooLarge {
                size: *size,
                limit: *limit,
            },
        }
    }
}

/// Kind of a signaling message.
#[derive(Debug, Clone, Copy, PartialEq, Eq, Structural)]
pub enum SignalingType {
    Offer,
    Answer,
    Candidate,
    Candidates,
    Request,
    Rejoin,
}

impl SignalingType {
    /// Whether messages of this kind are only ever made up locally and must
    /// neither be sent nor accepted from the wire.
    pub fn is_local_only(self) -> (local: bool)
        ensures
            local == (self == SignalingType::Rejoin),
    {
        match self {
            SignalingType::Rejoin => true,
            _ => false,
        }
    }
}

/// A signaling message between two nodes of a room.
#[derive(Debug)]
pub struct SignalingData {
    pub sender_id: NodeId,
    pub receiver_id: NodeId,
    pub room_id: String,
    pub data: String,
    pub signaling_type: SignalingType,
}

/// What a [`SignalingData`] says.
pub struct SignalingModel {
    pub sender: Seq<char>,
    pub receiver: Seq<char>,
    pub room: Seq<char>,
    pub data: Seq<char>,
    pub kind: SignalingType,
}

impl View for SignalingData {
    type V = SignalingModel;

    open spec fn view(&self) -> SignalingModel {
        SignalingModel {
            sender: self.sender_id@,
            receiver: self.receiver_id@,
            room: self.room_id@,
            data: self.data@,
            kind: self.signaling_type,
        }
    }
}

/// Content of a message that reaches the signaling layer.
#[derive(Debug)]
pub enum MessageContent {
    Data(SignalingData),
    Overlay { message_type: u32, payload: Vec<u8> },
    Raw(Vec<u8>),
}

/// A connection holds its slot for as long as it may carry messages or may still
/// come to do so: only one that is gone for good gives its slot back.
pub proof fn lemma_only_lost_connections_free_their_slots(state: ConnectionState)
    ensures
        !is_live(state) <==> state == ConnectionState::Disconnected || state
            == ConnectionState::Failed,
{
}

} // verus!
