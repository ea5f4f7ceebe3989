use mistlib_wasm::signaling::reconnect::{
    reconnect_delay_ms, reconnect_step, ReconnectEvent, ReconnectStep,
};
use mistlib_wasm::signaling::relay::SignalingRelay;
use mistlib_wasm::signaling::ws::{
    forward_incoming_signaling_data, OpenResult, ResetStart, SocketClosed, WasmWebSocketSignaler,
    WsSend,
};
use mistlib_wasm::signaling::WasmBootstrapSignaler;
use mistlib_wasm::table::Table;
use mistlib_wasm::types::{
    ConnectionState, MessageContent, MistError, NodeId, SignalingData, SignalingType,
};

fn message(signaling_type: SignalingType) -> SignalingData {
    SignalingData {
        sender_id: NodeId("wasm-bob".to_string()),
        receiver_id: NodeId("wasm-alice".to_string()),
        room_id: "room-a".to_string(),
        data: "999".to_string(),
        signaling_type,
    }
}

fn node(name: &str) -> NodeId {
    NodeId(name.to_string())
}

#[test]
fn wire_delivered_rejoin_is_dropped_not_forwarded() {
    assert!(forward_incoming_signaling_data(message(SignalingType::Rejoin)).is_none());
}

#[test]
fn normal_signaling_payload_is_still_forwarded() {
    match forward_incoming_signaling_data(message(SignalingType::Offer)) {
        Some(MessageContent::Data(data)) => {
            assert_eq!(data.sender_id.0, "wasm-bob");
            assert_eq!(data.signaling_type, SignalingType::Offer);
            assert_eq!(data.data, "999");
        }
        other => panic!("unexpected signaling message: {other:?}"),
    }
}

#[test]
fn connecting_supersedes_the_socket_before() {
    let mut signaler = WasmWebSocketSignaler::new("ws://server");
    let first = signaler.connect();
    assert_eq!(first.close, None);
    signaler.socket_created(1);
    let second = signaler.connect();
    assert_eq!(second.close, Some(1));
    assert!(signaler.check_epoch(second.epoch).is_ok());
    assert_eq!(
        signaler.check_epoch(first.epoch).err(),
        Some("WasmWebSocketSignaler: stale reconnect epoch".to_string())
    );
}

#[test]
fn failing_to_open_gives_the_socket_up() {
    let mut signaler = WasmWebSocketSignaler::new("ws://server");
    let plan = signaler.connect();
    let cases = [
        (
            OpenResult::Failed("websocket failed to open".to_string()),
            "WasmWebSocketSignaler: websocket failed to open",
        ),
        (
            OpenResult::WaiterDropped,
            "WasmWebSocketSignaler: websocket open waiter was canceled",
        ),
        (OpenResult::TimedOut, "WasmWebSocketSignaler: websocket connection timed out"),
    ];
    for (result, text) in cases {
        signaler.socket_created(1);
        let end = signaler.finish_open(plan.epoch, 1, true, result);
        assert_eq!(end.outcome, Err(text.to_string()));
        assert!(end.discard && !end.call_hook);
        assert_eq!(signaler.socket, None);
    }
}

#[test]
fn returning_session_is_announced_only_where_asked_for() {
    let mut signaler = WasmWebSocketSignaler::new("ws://server");
    let plan = signaler.connect();
    signaler.socket_created(1);
    let end = signaler.finish_open(plan.epoch, 1, true, OpenResult::Opened);
    assert!(end.outcome.is_ok() && !end.discard && !end.call_hook);
    signaler.set_on_session_reestablished();
    assert!(signaler.finish_open(plan.epoch, 1, true, OpenResult::Opened).call_hook);
    assert!(!signaler.finish_open(plan.epoch, 1, false, OpenResult::Opened).call_hook);
    let stale = signaler.finish_open(plan.epoch + 1, 1, true, OpenResult::Opened);
    assert!(stale.outcome.is_ok() && stale.discard && !stale.call_hook);
    assert_eq!(signaler.socket, None);
}

#[test]
fn closed_socket_leads_to_a_reconnect_in_its_epoch() {
    let mut signaler = WasmWebSocketSignaler::new("ws://server");
    let plan = signaler.connect();
    signaler.socket_created(1);
    assert_eq!(signaler.socket_closed(plan.epoch, 1, true), SocketClosed::ReportFailure);
    assert_eq!(signaler.socket_closed(plan.epoch + 1, 1, false), SocketClosed::Ignore);
    assert_eq!(signaler.socket, Some(1));
    assert_eq!(signaler.socket_closed(plan.epoch, 1, false), SocketClosed::Reconnect);
    assert_eq!(signaler.socket, None);
}

#[test]
fn one_reset_at_a_time() {
    let mut signaler = WasmWebSocketSignaler::new("ws://server");
    assert_eq!(signaler.reset_session(), ResetStart::Nothing);
    let plan = signaler.connect();
    signaler.socket_created(4);
    match signaler.reset_session() {
        ResetStart::Reopen(reopen) => {
            assert_eq!(reopen.close, Some(4));
            assert_eq!(reopen.epoch, plan.epoch + 1);
        }
        other => panic!("unexpected: {other:?}"),
    }
    assert_eq!(signaler.reset_session(), ResetStart::Nothing);
    match signaler.finish_reset(Err("refused".to_string())) {
        Err(MistError::Network(text)) => {
            assert_eq!(text, "WasmWebSocketSignaler: reset reconnect failed: refused");
        }
        other => panic!("unexpected: {other:?}"),
    }
    assert!(matches!(signaler.reset_session(), ResetStart::Reopen(_)));
    assert!(signaler.finish_reset(Ok(())).is_ok());
}

#[test]
fn outgoing_messages_need_an_open_socket() {
    let mut signaler = WasmWebSocketSignaler::new("ws://server");
    let offer = MessageContent::Data(message(SignalingType::Offer));
    let rejoin = MessageContent::Data(message(SignalingType::Rejoin));
    let text = |result: Result<WsSend, MistError>| match result {
        Err(MistError::Signaling(text)) => text,
        other => panic!("unexpected: {other:?}"),
    };
    assert_eq!(
        text(signaler.send_signaling(&offer, true)),
        "WasmWebSocketSignaler: websocket is not open"
    );
    assert_eq!(signaler.send_signaling(&rejoin, false).ok(), Some(WsSend::Nothing));
    signaler.socket_created(3);
    assert_eq!(
        text(signaler.send_signaling(&offer, false)),
        "WasmWebSocketSignaler: websocket is not open"
    );
    assert_eq!(
        signaler.send_signaling(&offer, true).ok(),
        Some(WsSend::Send { socket: 3 })
    );
    assert_eq!(
        text(signaler.send_signaling(&MessageContent::Raw(vec![1]), true)),
        "WasmWebSocketSignaler: unsupported message type"
    );
    assert_eq!(signaler.send_signaling(&rejoin, true).ok(), Some(WsSend::Nothing));
}

#[test]
fn closing_ends_the_session() {
    let mut signaler = WasmWebSocketSignaler::new("ws://server");
    let plan = signaler.connect();
    signaler.socket_created(3);
    assert_eq!(signaler.close(), Some(3));
    assert!(!signaler.is_epoch_current(plan.epoch));
    assert_eq!(signaler.close(), None);

    let mut either = WasmBootstrapSignaler::WebSocket(WasmWebSocketSignaler::new("ws://server"));
    assert_eq!(either.connect(), (1, None));
    if let WasmBootstrapSignaler::WebSocket(signaler) = &mut either {
        signaler.socket_created(8);
    }
    assert_eq!(either.close(), vec![8]);
}

#[test]
fn reconnecting_goes_on_until_it_succeeds_or_is_superseded() {
    assert_eq!(
        reconnect_step(ReconnectEvent::Lost, 0, true),
        ReconnectStep::Wait { attempt: 0 }
    );
    assert_eq!(
        reconnect_step(ReconnectEvent::Waited, 2, true),
        ReconnectStep::Open { attempt: 2 }
    );
    assert_eq!(
        reconnect_step(ReconnectEvent::Failed, 2, true),
        ReconnectStep::Wait { attempt: 3 }
    );
    assert_eq!(
        reconnect_step(ReconnectEvent::Failed, u32::MAX, true),
        ReconnectStep::Wait { attempt: u32::MAX }
    );
    assert_eq!(reconnect_step(ReconnectEvent::Opened, 2, true), ReconnectStep::Stop);
    assert_eq!(reconnect_step(ReconnectEvent::Waited, 2, false), ReconnectStep::Stop);
    assert_eq!(reconnect_delay_ms(1500), 1500);
    assert_eq!(reconnect_delay_ms(u128::MAX), u32::MAX);
}

#[test]
fn relay_prefers_the_overlay_for_connected_nodes() {
    let mut relay = SignalingRelay::new();
    match relay.send_signaling(&node("a")) {
        Err(MistError::Internal(text)) => assert_eq!(text, "SignalingRelay: no delegate set"),
        other => panic!("unexpected: {other:?}"),
    }
    relay.set_overlay(2);
    assert_eq!(relay.send_signaling(&node("a")).ok(), Some(2));
    assert!(relay.send_signaling(&node("server")).is_err());
    assert!(relay.send_signaling(&node("")).is_err());
    relay.set_delegate(1);
    assert_eq!(relay.send_signaling(&node("a")).ok(), Some(1));
    assert_eq!(relay.send_signaling(&node("server")).ok(), Some(1));
    assert_eq!(relay.send_signaling(&node("")).ok(), Some(1));

    let mut states = Table::new();
    states.insert(node("a"), ConnectionState::Connected);
    states.insert(node("b"), ConnectionState::Connecting);
    relay.set_connection_states(states);
    assert_eq!(relay.send_signaling(&node("a")).ok(), Some(2));
    assert_eq!(relay.send_signaling(&node("b")).ok(), Some(1));
}
