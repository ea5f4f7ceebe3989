use mistlib_wasm::app::events::{
    emit_peer_connected, emit_peer_disconnected, handle_storage_control_message, EngineEvent,
    StorageControl, WasmEngineEventHandler,
};
use mistlib_wasm::app::{
    EVENT_AOI_ENTERED, EVENT_AOI_LEFT, EVENT_AOI_NODES, EVENT_NEIGHBORS, EVENT_OVERLAY,
    EVENT_PEER_CONNECTED, EVENT_PEER_DISCONNECTED, EVENT_RAW, MEDIA_EVENT_TRACK_ADDED,
};
use mistlib_wasm::ffi::{Delivery, MistEvent, MistMediaEvent};
use mistlib_wasm::storage::resolver::build_want_message;
use mistlib_wasm::types::NodeId;

fn node(name: &str) -> NodeId {
    NodeId(name.to_string())
}

#[test]
fn reports_reach_the_page_with_their_room() {
    let handler = WasmEngineEventHandler::new("den".to_string());
    let cases = [
        (EngineEvent::RawMessage(node("a"), vec![9]), EVENT_RAW, "a", vec![9u8]),
        (EngineEvent::OverlayMessage(node("a"), vec![8]), EVENT_OVERLAY, "a", vec![8]),
        (EngineEvent::NeighborsUpdated(vec![7]), EVENT_NEIGHBORS, "rust", vec![7]),
        (EngineEvent::AoiEntered(node("b")), EVENT_AOI_ENTERED, "b", vec![]),
        (EngineEvent::AoiLeft(node("b")), EVENT_AOI_LEFT, "b", vec![]),
        (EngineEvent::AoiNodesUpdated(vec![6]), EVENT_AOI_NODES, "rust", vec![6]),
    ];
    for (event, kind, from, payload) in cases {
        let reported = handler.on_event(event);
        assert!(reported.storage.is_none());
        assert_eq!(reported.event.event_type, kind);
        assert_eq!(reported.event.from_id, from);
        assert_eq!(reported.event.payload, payload);
        assert_eq!(reported.event.room_id, "den");
    }
}

#[test]
fn peer_events_name_the_peer() {
    let up = emit_peer_connected(node("a"), "den".to_string());
    assert_eq!((up.event_type, up.from_id.as_str()), (EVENT_PEER_CONNECTED, "a"));
    let down = emit_peer_disconnected(node("a"), "den".to_string());
    assert_eq!((down.event_type, down.room_id.as_str()), (EVENT_PEER_DISCONNECTED, "den"));
}

#[test]
fn storage_messages_are_recognised_by_their_tag() {
    match handle_storage_control_message(b"\x01cid-1") {
        Some(StorageControl::Want { cid }) => assert_eq!(cid, "cid-1"),
        other => panic!("unexpected: {other:?}"),
    }
    match handle_storage_control_message(b"\x03cid-2") {
        Some(StorageControl::Query { cid }) => assert_eq!(cid, "cid-2"),
        other => panic!("unexpected: {other:?}"),
    }
    match handle_storage_control_message(b"\x04") {
        Some(StorageControl::HaveStatus { cid }) => assert_eq!(cid, ""),
        other => panic!("unexpected: {other:?}"),
    }
    assert!(matches!(
        handle_storage_control_message(b"\x05whatever"),
        Some(StorageControl::HaveChunk)
    ));
    assert!(handle_storage_control_message(b"\x06x").is_none());
    assert!(handle_storage_control_message(b"").is_none());
    assert!(handle_storage_control_message(b"\x01\xff\xfe").is_none());
}

#[test]
fn handed_over_block_is_split_after_its_name() {
    match handle_storage_control_message(b"\x02\x03cidDATA") {
        Some(StorageControl::Have { cid, data }) => {
            assert_eq!(cid, "cid");
            assert_eq!(data, b"DATA".to_vec());
        }
        other => panic!("unexpected: {other:?}"),
    }
    match handle_storage_control_message(b"\x02\x03cid") {
        Some(StorageControl::Have { data, .. }) => assert!(data.is_empty()),
        other => panic!("unexpected: {other:?}"),
    }
    assert!(handle_storage_control_message(b"\x02\x04cid").is_none());
    assert!(handle_storage_control_message(b"\x02").is_none());
    assert!(handle_storage_control_message(b"\x02\x01\xffx").is_none());
}

#[test]
fn raw_storage_message_is_both_acted_on_and_reported() {
    let handler = WasmEngineEventHandler::new("den".to_string());
    let reported = handler.on_event(EngineEvent::RawMessage(node("a"), build_want_message("blöck")));
    match reported.storage {
        Some(StorageControl::Want { cid }) => assert_eq!(cid, "blöck"),
        other => panic!("unexpected: {other:?}"),
    }
    assert_eq!(reported.event.event_type, EVENT_RAW);
}

#[test]
fn page_and_client_agree_on_numbers() {
    assert_eq!(MistEvent::Raw.number(), 0);
    assert_eq!(MistEvent::PeerConnected.number(), 5);
    assert_eq!(MistEvent::RoomLeft.number(), 10);
    assert_eq!(MistMediaEvent::TrackAdded.number(), MEDIA_EVENT_TRACK_ADDED);
    assert_eq!(MistMediaEvent::TrackRemoved.number(), 101);
    assert_eq!(Delivery::Reliable.number(), 0);
    assert_eq!(Delivery::UnreliableOrdered.number(), 1);
    assert_eq!(Delivery::Unreliable.number(), 2);
}
