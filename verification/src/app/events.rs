//! Events that the page is told about, and the storage messages among the raw
//! ones.

use vstd::prelude::*;
use vstd::slice::{slice_subrange, slice_to_vec};
use vstd::string::StrSliceExecFns;
use vstd::utf8::{encode_utf8, encode_utf8_decode_utf8, encode_utf8_valid_utf8, valid_utf8};

use crate::app::{
    EVENT_AOI_ENTERED, EVENT_AOI_LEFT, EVENT_AOI_NODES, EVENT_NEIGHBORS, EVENT_OVERLAY,
    EVENT_PEER_CONNECTED, EVENT_PEER_DISCONNECTED, EVENT_RAW, EVENT_ROOM_JOINED,
    EVENT_ROOM_JOIN_FAILED, EVENT_ROOM_LEFT,
};
use crate::storage::{MSG_HAVE, MSG_HAVE_CHUNK, MSG_HAVE_STATUS, MSG_QUERY, MSG_WANT};
use crate::types::NodeId;

verus! {

/// One call of the page's event callback.
#[derive(Debug)]
pub struct EmittedEvent {
    pub event_type: u32,
    pub from_id: String,
    pub payload: Vec<u8>,
    pub room_id: String,
}

/// What an [`EmittedEvent`] says.
#[verifier::ext_equal]
pub struct EventModel {
    pub kind: u32,
    pub from: Seq<char>,
    pub payload: Seq<u8>,
    pub room: Seq<char>,
}

impl View for EmittedEvent {
    type V = EventModel;

    open spec fn view(&self) -> EventModel {
        EventModel {
            kind: self.event_type,
            from: self.from_id@,
            payload: self.payload@,
            room: self.room_id@,
        }
    }
}

/// What the engine of a room reports.
#[derive(Debug)]
pub enum EngineEvent {
    RawMessage(NodeId, Vec<u8>),
    OverlayMessage(NodeId, Vec<u8>),
    NeighborsUpdated(Vec<u8>),
    AoiEntered(NodeId),
    AoiLeft(NodeId),
    AoiNodesUpdated(Vec<u8>),
}

/// The callback that an engine's report leads to. Reports that no node sent
/// carry the name "rust".
pub open spec fn reported(event: EngineEvent, room: Seq<char>) -> EventModel {
    match event {
        EngineEvent::RawMessage(from, data) => EventModel {
            kind: EVENT_RAW,
            from: from@,
            payload: data@,
            room,
        },
        EngineEvent::OverlayMessage(from, data) => EventModel {
            kind: EVENT_OVERLAY,
            from: from@,
            payload: data@,
            room,
        },
        EngineEvent::NeighborsUpdated(data) => EventModel {
            kind: EVENT_NEIGHBORS,
            from: "rust"@,
            payload: data@,
            room,
        },
        EngineEvent::AoiEntered(node) => EventModel {
            kind: EVENT_AOI_ENTERED,
            from: node@,
            payload: Seq::empty(),
            room,
        },
        EngineEvent::AoiLeft(node) => EventModel {
            kind: EVENT_AOI_LEFT,
            from: node@,
            payload: Seq::empty(),
            room,
        },
        EngineEvent::AoiNodesUpdated(data) => EventModel {
            kind: EVENT_AOI_NODES,
            from: "rust"@,
            payload: data@,
            room,
        },
    }
}

/// Reports of one room's engine.
#[derive(Debug)]
pub struct WasmEngineEventHandler {
    pub room_id: String,
}

/// What follows from a report: a storage message to act on, if it was one, and
/// the callback in any case.
#[derive(Debug)]
pub struct Reported {
    pub storage: Option<StorageControl>,
    pub event: EmittedEvent,
}

impl WasmEngineEventHandler {
    pub fn new(room_id: String) -> (handler: Self)
        ensures
            handler.room_id@ == room_id@,
    {
        WasmEngineEventHandler { room_id }
    }

    /// Handles a report of the engine.
    pub fn on_event(&self, event: EngineEvent) -> (result: Reported)
        ensures
            result.event@ == reported(event, self.room_id@),
            control_model(result.storage) == (match event {
                EngineEvent::RawMessage(_, data) => control_of(data@),
                _ => None,
            }),
    {
        let room_id = self.room_id.clone();
        match event {
            EngineEvent::RawMessage(from, data) => {
                let storage = handle_storage_control_message(data.as_slice());
                Reported {
                    storage,
                    event: EmittedEvent {
                        event_type: EVENT_RAW,
                        from_id: from.0,
                        payload: data,
                        room_id,
                    },
                }
            },
            EngineEvent::OverlayMessage(from, data) => Reported {
                storage: None,
                event: EmittedEvent {
                    event_type: EVENT_OVERLAY,
                    from_id: from.0,
                    payload: data,
                    room_id,
                },
            },
            EngineEvent::NeighborsUpdated(data) => Reported {
                storage: None,
                event: EmittedEvent {
                    event_type: EVENT_NEIGHBORS,
                    from_id: "rust".to_string(),
                    payload: data,
                    room_id,
                },
            },
            EngineEvent::AoiEntered(node) => Reported {
                storage: None,
                event: EmittedEvent {
                    event_type: EVENT_AOI_ENTERED,
                    from_id: node.0,
                    payload: Vec::new(),
                    room_id,
                },
            },
            EngineEvent::AoiLeft(node) => Reported {
                storage: None,
                event: EmittedEvent {
                    event_type: EVENT_AOI_LEFT,
                    from_id: node.0,
                    payload: Vec::new(),
                    room_id,
                },
            },
            EngineEvent::AoiNodesUpdated(data) => Reported {
                storage: None,
                event: EmittedEvent {
                    event_type: EVENT_AOI_NODES,
                    from_id: "rust".to_string(),
                    payload: data,
                    room_id,
                },
            },
        }
    }
}

/// A callback about a node, without payload.
pub open spec fn node_event(kind: u32, node: Seq<char>, room: Seq<char>) -> EventModel {
    EventModel { kind, from: node, payload: Seq::empty(), room }
}

/// A callback about a room that no node caused.
pub open spec fn room_event(kind: u32, payload: Seq<u8>, room: Seq<char>) -> EventModel {
    EventModel { kind, from: Seq::empty(), payload, room }
}

pub fn emit_peer_connected(node_id: NodeId, room_id: String) -> (event: EmittedEvent)
    ensures
        event@ == node_event(EVENT_PEER_CONNECTED, node_id@, room_id@),
{
    EmittedEvent {
        event_type: EVENT_PEER_CONNECTED,
        from_id: node_id.0,
        payload: Vec::new(),
        room_id,
    }
}

pub fn emit_peer_disconnected(node_id: NodeId, room_id: String) -> (event: EmittedEvent)
    ensures
        event@ == node_event(EVENT_PEER_DISCONNECTED, node_id@, room_id@),
{
    EmittedEvent {
        event_type: EVENT_PEER_DISCONNECTED,
        from_id: node_id.0,
        payload: Vec::new(),
        room_id,
    }
}

/// The room is usable. Said once per join call that finds or leaves it so.
pub fn emit_room_joined(room_id: String) -> (event: EmittedEvent)
    ensures
        event@ == room_event(EVENT_ROOM_JOINED, Seq::empty(), room_id@),
{
    EmittedEvent {
        event_type: EVENT_ROOM_JOINED,
        from_id: String::new(),
        payload: Vec::new(),
        room_id,
    }
}

/// A join came to nothing; the payload is the reason as UTF-8.
pub fn emit_room_join_failed(room_id: String, reason: &str) -> (event: EmittedEvent)
    ensures
        event@ == room_event(EVENT_ROOM_JOIN_FAILED, encode_utf8(reason@), room_id@),
{
    EmittedEvent {
        event_type: EVENT_ROOM_JOIN_FAILED,
        from_id: String::new(),
        payload: reason.as_bytes_vec(),
        room_id,
    }
}

/// The session of a room was torn down.
pub fn emit_room_left(room_id: String) -> (event: EmittedEvent)
    ensures
        event@ == room_event(EVENT_ROOM_LEFT, Seq::empty(), room_id@),
{
    EmittedEvent {
        event_type: EVENT_ROOM_LEFT,
        from_id: String::new(),
        payload: Vec::new(),
        room_id,
    }
}

/// A storage message of another node.
#[derive(Debug)]
pub enum StorageControl {
    /// The sender wants a block.
    Want { cid: String },
    /// The sender hands a block over.
    Have { cid: String, data: Vec<u8> },
    /// The sender asks who holds a block.
    Query { cid: String },
    /// The sender holds a block.
    HaveStatus { cid: String },
    /// The sender hands a part of a block over; the storage engine reads the
    /// whole message.
    HaveChunk,
}

/// What a [`StorageControl`] says.
pub enum ControlModel {
    Want { cid: Seq<char> },
    Have { cid: Seq<char>, data: Seq<u8> },
    Query { cid: Seq<char> },
    HaveStatus { cid: Seq<char> },
    HaveChunk,
}

pub open spec fn control_model(control: Option<StorageControl>) -> Option<ControlModel> {
    match control {
        Some(StorageControl::Want { cid }) => Some(ControlModel::Want { cid: cid@ }),
        Some(StorageControl::Have { cid, data }) => Some(
            ControlModel::Have { cid: cid@, data: data@ },
        ),
        Some(StorageControl::Query { cid }) => Some(ControlModel::Query { cid: cid@ }),
        Some(StorageControl::HaveStatus { cid }) => Some(ControlModel::HaveStatus { cid: cid@ }),
        Some(StorageControl::HaveChunk) => Some(ControlModel::HaveChunk),
        None => None,
    }
}

/// The text that bytes spell in UTF-8, if they spell one.
pub open spec fn utf8_text(bytes: Seq<u8>) -> Option<Seq<char>> {
    if valid_utf8(bytes) {
        Some(vstd::utf8::decode_utf8(bytes))
    } else {
        None
    }
}

/// The storage message that a raw message is, if it is one: a tag byte, then
/// the name of the block; a handed over block carries the length of the name
/// in one byte before it and the block's bytes behind it.
pub open spec fn control_of(bytes: Seq<u8>) -> Option<ControlModel> {
    if bytes.len() == 0 {
        None
    } else if bytes[0] == MSG_WANT {
        match utf8_text(bytes.skip(1)) {
            Some(cid) => Some(ControlModel::Want { cid }),
            None => None,
        }
    } else if bytes[0] == MSG_HAVE {
        have_of(bytes.skip(1))
    } else if bytes[0] == MSG_QUERY {
        match utf8_text(bytes.skip(1)) {
            Some(cid) => Some(ControlModel::Query { cid }),
            None => None,
        }
    } else if bytes[0] == MSG_HAVE_STATUS {
        match utf8_text(bytes.skip(1)) {
            Some(cid) => Some(ControlModel::HaveStatus { cid }),
            None => None,
        }
    } else if bytes[0] == MSG_HAVE_CHUNK {
        Some(ControlModel::HaveChunk)
    } else {
        None
    }
}

/// The block that the rest of a handed over block's message holds.
pub open spec fn have_of(rest: Seq<u8>) -> Option<ControlModel> {
    if rest.len() == 0 || rest.len() - 1 < rest[0] {
        None
    } else {
        match utf8_text(rest.subrange(1, 1 + rest[0] as int)) {
            Some(cid) => Some(ControlModel::Have { cid, data: rest.skip(1 + rest[0] as int) }),
            None => None,
        }
    }
}

/// `std::str::from_utf8`: the text that the bytes spell, and an error, dropped
/// here, if and only if they are not valid UTF-8.
#[verifier::external_body]
fn text_from_utf8(bytes: &[u8]) -> (text: Option<String>)
    ensures
        match text {
            Some(text) => utf8_text(bytes@) == Some(text@),
            None => utf8_text(bytes@) is None,
        },
{
    std::str::from_utf8(bytes).ok().map(str::to_string)
}

/// Reads a raw message as a storage message.
pub fn handle_storage_control_message(data: &[u8]) -> (control: Option<StorageControl>)
    ensures
        control_model(control) == control_of(data@),
{
    if data.len() == 0 {
        return None;
    }
    let rest = slice_subrange(data, 1, data.len());
    assert(rest@ =~= data@.skip(1));
    let tag: u8 = data[0];
    if tag == MSG_WANT {
        match text_from_utf8(rest) {
            Some(cid) => Some(StorageControl::Want { cid }),
            None => None,
        }
    } else if tag == MSG_HAVE {
        handle_storage_have(rest)
    } else if tag == MSG_QUERY {
        match text_from_utf8(rest) {
            Some(cid) => Some(StorageControl::Query { cid }),
            None => None,
        }
    } else if tag == MSG_HAVE_STATUS {
        match text_from_utf8(rest) {
            Some(cid) => Some(StorageControl::HaveStatus { cid }),
            None => None,
        }
    } else if tag == MSG_HAVE_CHUNK {
        Some(StorageControl::HaveChunk)
    } else {
        None
    }
}

fn handle_storage_have(rest: &[u8]) -> (control: Option<StorageControl>)
    ensures
        control_model(control) == have_of(rest@),
{
    if rest.len() == 0 {
        return None;
    }
    let cid_len: usize = rest[0] as usize;
    if rest.len() - 1 < cid_len {
        return None;
    }
    match text_from_utf8(slice_subrange(rest, 1, 1 + cid_len)) {
        Some(cid) => {
            let data = slice_to_vec(slice_subrange(rest, 1 + cid_len, rest.len()));
            assert(data@ =~= rest@.skip(1 + rest@[0] as int));
            Some(StorageControl::Have { cid, data })
        },
        None => None,
    }
}

/// Text survives being written and read as UTF-8.
pub(crate) proof fn lemma_utf8_round_trip(text: Seq<char>)
    ensures
        utf8_text(encode_utf8(text)) == Some(text),
{
    encode_utf8_valid_utf8(text);
    encode_utf8_decode_utf8(text);
}

/// A storage message reads back: a tag followed by the name of a block in UTF-8
/// is the message of that tag about that block.
pub proof fn lemma_storage_messages_read_back(cid: Seq<char>)
    ensures
        control_of(seq![MSG_WANT] + encode_utf8(cid)) == Some(ControlModel::Want { cid }),
        control_of(seq![MSG_QUERY] + encode_utf8(cid)) == Some(ControlModel::Query { cid }),
        control_of(seq![MSG_HAVE_STATUS] + encode_utf8(cid)) == Some(
            ControlModel::HaveStatus { cid },
        ),
{
    lemma_utf8_round_trip(cid);
    let name = encode_utf8(cid);
    assert((seq![MSG_WANT] + name).skip(1) =~= name);
    assert((seq![MSG_QUERY] + name).skip(1) =~= name);
    assert((seq![MSG_HAVE_STATUS] + name).skip(1) =~= name);
}

/// A handed over block reads back with its name and its bytes.
pub proof fn lemma_handed_over_blocks_read_back(cid: Seq<char>, data: Seq<u8>)
    requires
        encode_utf8(cid).len() <= 255,
    ensures
        control_of(
            seq![MSG_HAVE, encode_utf8(cid).len() as u8] + encode_utf8(cid) + data,
        ) == Some(ControlModel::Have { cid, data }),
{
    lemma_utf8_round_trip(cid);
    let name = encode_utf8(cid);
    let message = seq![MSG_HAVE, name.len() as u8] + name + data;
    let rest = message.skip(1);
    assert(message[0] == MSG_HAVE);
    assert(rest[0] == name.len() as u8);
    assert(rest.subrange(1, 1 + name.len() as int) =~= name);
    assert(rest.skip(1 + name.len() as int) =~= data);
}

/// A handed over block whose message ends before its name does is none.
pub proof fn lemma_truncated_blocks_are_refused(length: u8, rest: Seq<u8>)
    requires
        rest.len() < length,
    ensures
        control_of(seq![MSG_HAVE, length] + rest) is None,
        control_of(seq![MSG_HAVE]) is None,
{
    let message = seq![MSG_HAVE, length] + rest;
    assert(message.skip(1)[0] == length);
    assert(seq![MSG_HAVE].skip(1).len() == 0);
}

/// A message is a storage message only by its tag, a part of a block by its tag
/// alone, and a name that is no text is refused.
pub proof fn lemma_only_tagged_messages_are_storage_messages(tag: u8, rest: Seq<u8>)
    ensures
        control_of(Seq::empty()) is None,
        control_of(seq![MSG_HAVE_CHUNK] + rest) == Some(ControlModel::HaveChunk),
        tag != MSG_WANT && tag != MSG_HAVE && tag != MSG_QUERY && tag != MSG_HAVE_STATUS && tag
            != MSG_HAVE_CHUNK ==> control_of(seq![tag] + rest) is None,
        !valid_utf8(rest) ==> control_of(seq![MSG_WANT] + rest) is None && control_of(
            seq![MSG_QUERY] + rest,
        ) is None && control_of(seq![MSG_HAVE_STATUS] + rest) is None,
{
    assert((seq![tag] + rest)[0] == tag);
    assert((seq![MSG_HAVE_CHUNK] + rest)[0] == MSG_HAVE_CHUNK);
    assert((seq![MSG_WANT] + rest).skip(1) =~= rest);
    assert((seq![MSG_QUERY] + rest).skip(1) =~= rest);
    assert((seq![MSG_HAVE_STATUS] + rest).skip(1) =~= rest);
}

/// The tags of storage messages are five different bytes.
pub proof fn lemma_storage_tags_are_told_apart()
    ensures
        seq![MSG_WANT, MSG_HAVE, MSG_QUERY, MSG_HAVE_STATUS, MSG_HAVE_CHUNK] =~= seq![
            1u8,
            2u8,
            3u8,
            4u8,
            5u8,
        ],
{
}

/// What a message reads as says everything that the page is handed of it.
pub proof fn lemma_read_messages_are_handed_on_whole(cid: String, data: Vec<u8>)
    ensures
        control_model(Some(StorageControl::Want { cid })) == Some(ControlModel::Want { cid: cid@ }),
        control_model(Some(StorageControl::Query { cid })) == Some(
            ControlModel::Query { cid: cid@ },
        ),
        control_model(Some(StorageControl::HaveStatus { cid })) == Some(
            ControlModel::HaveStatus { cid: cid@ },
        ),
        control_model(Some(StorageControl::Have { cid, data })) == Some(
            ControlModel::Have { cid: cid@, data: data@ },
        ),
        control_model(Some(StorageControl::HaveChunk)) == Some(ControlModel::HaveChunk),
        control_model(None) is None,
{
}

/// Whatever the engine reports reaches the page under a number of its own, with
/// the room it comes from, the bytes it carries, and the node that it is about,
/// or the engine's own name where it is about none.
pub proof fn lemma_reports_reach_the_page_whole(
    node: NodeId,
    data: Vec<u8>,
    room: Seq<char>,
)
    ensures
        reported(EngineEvent::RawMessage(node, data), room) == (EventModel {
            kind: 0,
            from: node@,
            payload: data@,
            room,
        }),
        reported(EngineEvent::OverlayMessage(node, data), room) == (EventModel {
            kind: 1,
            from: node@,
            payload: data@,
            room,
        }),
        reported(EngineEvent::NeighborsUpdated(data), room) == (EventModel {
            kind: 2,
            from: "rust"@,
            payload: data@,
            room,
        }),
        reported(EngineEvent::AoiEntered(node), room) == node_event(3, node@, room),
        reported(EngineEvent::AoiLeft(node), room) == node_event(4, node@, room),
        reported(EngineEvent::AoiNodesUpdated(data), room) == (EventModel {
            kind: 7,
            from: "rust"@,
            payload: data@,
            room,
        }),
{
}

/// A callback about a node names it and the room and carries nothing else; one
/// about a room names no node.
pub proof fn lemma_callbacks_say_whom_they_are_about(
    kind: u32,
    node: Seq<char>,
    payload: Seq<u8>,
    room: Seq<char>,
)
    ensures
        node_event(kind, node, room).kind == kind,
        node_event(kind, node, room).from == node,
        node_event(kind, node, room).room == room,
        node_event(kind, node, room).payload.len() == 0,
        room_event(kind, payload, room).kind == kind,
        room_event(kind, payload, room).from.len() == 0,
        room_event(kind, payload, room).room == room,
        room_event(kind, payload, room).payload == payload,
{
}

} // verus!
