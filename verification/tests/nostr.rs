use mistlib_wasm::config::NostrSignalingConfig;
use mistlib_wasm::signaling::nostr::connection::{
    finish_connect, is_relay_idle, RelayClosed, RelayOpened, RelaysOpened, WatchdogStep,
};
use mistlib_wasm::signaling::nostr::handler::{
    answers_request, Binding, EventRoute, MessageFact, MessageStep, UnreadableMessage,
};
use mistlib_wasm::signaling::nostr::refresh::{
    base_discovery_refresh_delay_ms, bounded_refresh_delay_ms,
};
use mistlib_wasm::signaling::nostr::relay_source::{
    checked_relay_list, resolve_relays, FetchedList, MAX_RELAY_LIST_BYTES,
};
use mistlib_wasm::signaling::nostr::{
    dedupe_ttl_seconds, NostrSend, WasmNostrSignaler, RELAY_IDLE_THRESHOLD_MS,
    RELAY_KEEPALIVE_INTERVAL_MS,
};
use mistlib_wasm::types::{MessageContent, MistError, NodeId, SignalingData, SignalingType};

const DISCOVERY: u64 = 20_001;
const MESSAGE: u64 = 20_002;

fn signaler() -> WasmNostrSignaler {
    WasmNostrSignaler::new(
        NodeId("alice".to_string()),
        NostrSignalingConfig {
            relays: vec!["wss://one".to_string()],
            relay_list_url: None,
            ttl_seconds: 60,
            discovery_kind: DISCOVERY,
            message_kind: MESSAGE,
        },
        "alice-key".to_string(),
        "sub-discovery".to_string(),
        "sub-message".to_string(),
    )
}

fn in_room() -> WasmNostrSignaler {
    let mut signaler = signaler();
    assert!(signaler.set_room_id("room-a", 100));
    signaler
}

fn message(from: &str, to: &str, signaling_type: SignalingType) -> SignalingData {
    SignalingData {
        sender_id: NodeId(from.to_string()),
        receiver_id: NodeId(to.to_string()),
        room_id: "room-a".to_string(),
        data: "payload".to_string(),
        signaling_type,
    }
}

fn key(name: &str) -> String {
    name.to_string()
}

#[test]
fn nostr_relay_idle_threshold_is_two_keepalive_cycles() {
    assert_eq!(RELAY_IDLE_THRESHOLD_MS, RELAY_KEEPALIVE_INTERVAL_MS * 2);
}

#[test]
fn nostr_relay_idle_predicate_matches_threshold_boundary() {
    assert!(!is_relay_idle(399, 400));
    assert!(is_relay_idle(400, 400));
    assert!(is_relay_idle(61_000, 60_000));
}

#[test]
fn refresh_delay_is_half_the_lifetime_within_bounds() {
    assert_eq!(base_discovery_refresh_delay_ms(60), 30_000);
    assert_eq!(base_discovery_refresh_delay_ms(0), 500);
    assert_eq!(base_discovery_refresh_delay_ms(1), 500);
    assert_eq!(base_discovery_refresh_delay_ms(u64::MAX), u64::MAX);
    assert_eq!(bounded_refresh_delay_ms(22_500), 22_500);
    assert_eq!(bounded_refresh_delay_ms(3), 500);
    assert_eq!(bounded_refresh_delay_ms(u64::MAX), u32::MAX);
}

#[test]
fn events_are_remembered_for_twice_their_lifetime() {
    assert_eq!(dedupe_ttl_seconds(60), 120);
    assert_eq!(dedupe_ttl_seconds(0), 1);
    assert_eq!(dedupe_ttl_seconds(u64::MAX), u64::MAX);
}

#[test]
fn moving_to_another_room_forgets_everybody() {
    let mut signaler = in_room();
    assert!(signaler.first_request(key("bob-key"), true));
    signaler.set_outgoing_sequence(key("bob-key"), 4);
    assert!(!signaler.set_room_id("room-a", 200));
    assert!(!signaler.set_room_id("", 200));
    assert_eq!(signaler.local_joined_at, Some(100));
    assert_eq!(signaler.outgoing_sequence(&key("bob-key")), Some(4));
    assert!(signaler.set_room_id("room-b", 200));
    assert_eq!(signaler.local_joined_at, Some(200));
    assert_eq!(signaler.outgoing_sequence(&key("bob-key")), None);
    assert!(!signaler.was_requested(&key("bob-key")));
}

#[test]
fn outgoing_messages_are_announced_or_routed() {
    let mut signaler = signaler();
    let to_server = signaler
        .send_signaling(
            &NodeId("server".to_string()),
            &MessageContent::Data(message("alice", "", SignalingType::Request)),
            7,
        )
        .unwrap();
    assert!(to_server.room_changed);
    assert!(matches!(to_server.send, NostrSend::Discovery { room } if room == "room-a"));

    let to_bob = signaler
        .send_signaling(
            &NodeId("bob".to_string()),
            &MessageContent::Data(message("alice", "bob", SignalingType::Offer)),
            8,
        )
        .unwrap();
    assert!(!to_bob.room_changed);
    assert!(matches!(to_bob.send, NostrSend::Direct));

    let mut roomless = message("alice", "", SignalingType::Request);
    roomless.room_id = String::new();
    let nothing = signaler
        .send_signaling(&NodeId(String::new()), &MessageContent::Data(roomless), 9)
        .unwrap();
    assert!(matches!(nothing.send, NostrSend::Nothing));

    let rejoin = signaler
        .send_signaling(
            &NodeId("bob".to_string()),
            &MessageContent::Data(message("alice", "bob", SignalingType::Rejoin)),
            9,
        )
        .unwrap();
    assert!(matches!(rejoin.send, NostrSend::Nothing));

    match signaler.send_signaling(&NodeId("bob".to_string()), &MessageContent::Raw(vec![]), 9) {
        Err(MistError::Signaling(text)) => {
            assert_eq!(text, "WasmNostrSignaler: unsupported message type");
        }
        other => panic!("unexpected: {other:?}"),
    }
}

#[test]
fn node_without_a_key_has_no_route() {
    let bob = NodeId("bob".to_string());
    assert_eq!(
        WasmNostrSignaler::route_to_node(&bob, Some(key("bob-key"))).ok(),
        Some(key("bob-key"))
    );
    match WasmNostrSignaler::route_to_node(&bob, None) {
        Err(MistError::RouteNotFound(node)) => assert_eq!(node, bob),
        other => panic!("unexpected: {other:?}"),
    }
}

#[test]
fn frames_need_an_open_relay() {
    let mut signaler = signaler();
    let text = |result: Result<Vec<u64>, MistError>| match result {
        Err(MistError::Signaling(text)) => text,
        other => panic!("unexpected: {other:?}"),
    };
    assert_eq!(
        text(signaler.publish_frame(&[])),
        "WasmNostrSignaler: no relay connection is open"
    );
    signaler.socket_created(5);
    signaler.socket_created(6);
    signaler.socket_created(7);
    assert_eq!(
        text(signaler.publish_frame(&[false, false, false])),
        "WasmNostrSignaler: relay websocket is not open"
    );
    assert_eq!(signaler.publish_frame(&[true, false, true]).ok(), Some(vec![5, 7]));
    assert_eq!(signaler.subscribe_room(&[false, true, false]), vec![6]);
    signaler.remove_socket(6);
    assert_eq!(signaler.sockets, vec![5, 7]);
}

#[test]
fn request_asks_everybody_under_a_key() {
    let request = in_room().request_message("room-a");
    assert_eq!(request.sender_id.0, "alice");
    assert!(request.receiver_id.is_broadcast());
    assert_eq!(request.signaling_type, SignalingType::Request);
    assert_eq!(request.data, "");
    assert!(WasmNostrSignaler::may_publish(&request));
    assert!(!WasmNostrSignaler::may_publish(&message("a", "b", SignalingType::Rejoin)));
}

#[test]
fn events_are_sorted_by_kind_and_own_ones_ignored() {
    let signaler = in_room();
    assert!(matches!(
        signaler.process_event(&key("alice-key"), DISCOVERY),
        EventRoute::Ignore
    ));
    assert!(matches!(
        signaler.process_event(&key("bob-key"), DISCOVERY),
        EventRoute::Discovery { room } if room == "room-a"
    ));
    assert!(matches!(
        signaler.process_event(&key("bob-key"), MESSAGE),
        EventRoute::Message { room } if room == "room-a"
    ));
    assert!(matches!(signaler.process_event(&key("bob-key"), 1), EventRoute::Ignore));
    let roomless = self::signaler();
    assert!(matches!(roomless.process_event(&key("bob-key"), MESSAGE), EventRoute::Ignore));
}

#[test]
fn later_join_of_a_key_is_asked_again() {
    let mut signaler = in_room();
    let bob = key("bob-key");
    assert!(signaler.process_discovery("room-a", true, &bob, Some(5)));
    assert!(signaler.first_request(bob.clone(), true));
    assert!(!signaler.first_request(bob.clone(), true));
    signaler.set_incoming_sequence(bob.clone(), 3);

    assert!(signaler.process_discovery("room-a", true, &bob, Some(5)));
    assert!(signaler.was_requested(&bob));
    assert!(signaler.process_discovery("room-a", true, &bob, Some(4)));
    assert_eq!(signaler.incoming_sequence(&bob), Some(3));
    assert!(signaler.process_discovery("room-a", true, &bob, Some(6)));
    assert!(!signaler.was_requested(&bob));
    assert_eq!(signaler.incoming_sequence(&bob), None);

    assert!(!signaler.process_discovery("room-a", false, &bob, Some(9)));
    assert!(!signaler.process_discovery("room-b", true, &bob, Some(9)));
    assert!(!signaler.first_request(bob, false));
}

#[test]
fn nostr_non_recipient_room_mailbox_message_is_ignored() {
    let sealed = MistError::Signaling("invalid encrypted Nostr payload".to_string());
    assert_eq!(
        WasmNostrSignaler::unreadable_message(&sealed, true),
        UnreadableMessage::Skip
    );
    assert_eq!(
        WasmNostrSignaler::unreadable_message(&sealed, false),
        UnreadableMessage::Fail
    );
    let other = MistError::Signaling("Nostr message receiver pubkey mismatch".to_string());
    assert_eq!(
        WasmNostrSignaler::unreadable_message(&other, false),
        UnreadableMessage::Skip
    );
    let broken = MistError::Internal("invalid encrypted Nostr payload".to_string());
    assert_eq!(
        WasmNostrSignaler::unreadable_message(&broken, true),
        UnreadableMessage::Fail
    );
}

#[test]
fn nostr_rejoin_signal_arriving_from_the_wire_is_rejected() {
    let signaler = in_room();
    assert!(!signaler.consider_message("room-a", true, &message("bob", "", SignalingType::Rejoin)));
    let offer = message("bob", "alice", SignalingType::Offer);
    assert!(signaler.consider_message("room-a", true, &offer));
    assert!(!signaler.consider_message("room-a", false, &offer));
    assert!(!signaler.consider_message("room-b", true, &offer));
}

#[test]
fn nostr_unrequested_non_request_payload_is_dropped() {
    assert!(!WasmNostrSignaler::accept_sender_for_payload(false, false, None, Some(9)));
    assert!(WasmNostrSignaler::accept_sender_for_payload(true, false, None, None));
}

#[test]
fn event_that_was_seen_is_not_considered_again() {
    let mut signaler = in_room();
    let offer = message("bob", "alice", SignalingType::Offer);
    assert!(signaler.consider_message("room-a", true, &offer));
    assert!(!signaler.consider_message("room-a", false, &offer));
    assert_eq!(signaler.incoming_sequence(&key("bob-key")), None);
    signaler.set_incoming_sequence(key("bob-key"), 7);
    assert_eq!(signaler.incoming_sequence(&key("bob-key")), Some(7));
}

#[test]
fn nostr_equal_epoch_offer_from_new_pubkey_is_rejected_not_treated_as_rebind() {
    let accept = WasmNostrSignaler::accept_sender_for_payload;
    assert!(!accept(false, true, Some(5), Some(5)));
    assert!(accept(false, true, Some(5), Some(6)));
    assert!(accept(false, true, None, Some(0)));
    assert!(!accept(false, true, Some(5), None));
    assert!(!accept(false, true, None, None));
}

#[test]
fn nostr_rebind_via_newer_epoch_accepts_offer_and_emits_rejoin_before_forwarding_it() {
    let mut signaler = in_room();
    let delivery = signaler.deliver_message(
        "room-a",
        message("bob", "alice", SignalingType::Offer),
        key("bob-new"),
        Some(77),
        Binding { known: false, rebound_from: Some(key("bob-old")) },
    );
    assert_eq!(delivery.forward.len(), 2);
    assert_eq!(delivery.forward[0].signaling_type, SignalingType::Rejoin);
    assert_eq!(delivery.forward[0].sender_id.0, "bob");
    assert_eq!(delivery.forward[0].receiver_id.0, "alice");
    assert_eq!(delivery.forward[0].room_id, "room-a");
    assert_eq!(delivery.forward[0].data, "77");
    assert_eq!(delivery.forward[1].signaling_type, SignalingType::Offer);
    assert_eq!(delivery.forward[1].data, "payload");
    assert!(delivery.reply_to.is_none());
}

#[test]
fn nostr_rebind_purges_per_peer_state_keyed_by_the_dead_pubkey() {
    let mut signaler = in_room();
    let old = key("bob-old");
    assert!(signaler.process_discovery("room-a", true, &old, Some(1)));
    assert!(signaler.first_request(old.clone(), true));
    signaler.set_incoming_sequence(old.clone(), 1);
    signaler.set_outgoing_sequence(old.clone(), 2);
    let _ = signaler.deliver_message(
        "room-a",
        message("bob", "alice", SignalingType::Offer),
        key("bob-new"),
        None,
        Binding { known: false, rebound_from: Some(old.clone()) },
    );
    assert!(!signaler.was_requested(&old));
    assert_eq!(signaler.incoming_sequence(&old), None);
    assert_eq!(signaler.outgoing_sequence(&old), None);
    assert!(!signaler.peer_sessions.contains_key(&old));
}

#[test]
fn nostr_known_peer_unchanged_pubkey_message_forwards_without_rejoin() {
    let mut signaler = in_room();
    let delivery = signaler.deliver_message(
        "room-a",
        message("bob", "alice", SignalingType::Answer),
        key("bob-key"),
        Some(5),
        Binding { known: true, rebound_from: None },
    );
    assert_eq!(delivery.forward.len(), 1);
    assert_eq!(delivery.forward[0].signaling_type, SignalingType::Answer);
}

#[test]
fn request_for_everybody_from_a_new_node_is_answered_with_one() {
    let mut signaler = in_room();
    let delivery = signaler.deliver_message(
        "room-a",
        message("bob", "", SignalingType::Request),
        key("bob-key"),
        None,
        Binding { known: false, rebound_from: None },
    );
    assert_eq!(delivery.forward[0].receiver_id.0, "alice");
    assert_eq!(delivery.reply_to, Some(key("bob-key")));

    let elsewhere = signaler.deliver_message(
        "room-b",
        message("bob", "", SignalingType::Request),
        key("bob-key"),
        None,
        Binding { known: false, rebound_from: Some(key("bob-old")) },
    );
    assert!(elsewhere.forward.is_empty());
    assert!(elsewhere.reply_to.is_none());
}

#[test]
fn restart_without_an_epoch_is_reported_as_zero() {
    let mut signaler = in_room();
    let delivery = signaler.deliver_message(
        "room-a",
        message("bob", "alice", SignalingType::Request),
        key("bob-new"),
        None,
        Binding { known: true, rebound_from: Some(key("bob-old")) },
    );
    assert_eq!(delivery.forward[0].data, "0");
}

#[test]
fn resetting_rotates_the_key_and_starts_over() {
    let mut roomless = signaler();
    assert!(roomless.reset_session(key("new-key"), 1).is_none());
    assert_eq!(roomless.current_identity(), "alice-key");

    let mut signaler = in_room();
    assert!(signaler.first_request(key("bob-key"), true));
    let epoch = signaler.spawn_discovery_refresh();
    let (room, next) = signaler.reset_session(key("new-key"), 300).unwrap();
    assert_eq!(room, "room-a");
    assert_eq!(signaler.current_identity(), "new-key");
    assert!(!signaler.was_requested(&key("bob-key")));
    assert_eq!(signaler.local_joined_at, Some(300));
    assert!(!signaler.discovery_refresh_due(epoch, "room-a"));
    assert!(signaler.discovery_refresh_due(next, "room-a"));
    assert!(!signaler.discovery_refresh_due(next, "room-b"));
}

#[test]
fn closing_supersedes_all_background_work() {
    let mut signaler = in_room();
    let connect = signaler.connect();
    signaler.socket_created(1);
    let refresh = signaler.spawn_discovery_refresh();
    let keepalive = signaler.spawn_relay_keepalive();
    assert!(signaler.relay_keepalive_due(keepalive, "room-a"));
    assert_eq!(signaler.close(), vec![1]);
    assert!(!signaler.reconnect_epoch_matches(connect));
    assert!(!signaler.discovery_refresh_due(refresh, "room-a"));
    assert!(!signaler.relay_keepalive_due(keepalive, "room-a"));
    assert!(signaler.room_id.is_none());
}

#[test]
fn relay_connections_follow_their_epoch() {
    let mut signaler = in_room();
    let epoch = signaler.connect();
    assert_eq!(epoch, 2);
    assert!(signaler.check_epoch(epoch).is_ok());
    assert_eq!(
        signaler.check_epoch(epoch + 1).err(),
        Some("WasmNostrSignaler: stale reconnect epoch".to_string())
    );
    assert!(matches!(
        signaler.relay_opened(epoch),
        RelayOpened::Subscribe { room } if room == "room-a"
    ));
    assert!(matches!(signaler.relay_opened(epoch + 1), RelayOpened::Stale));
    assert!(matches!(self::signaler().relay_opened(0), RelayOpened::Ready));

    signaler.socket_created(1);
    assert!(signaler.relay_failed(1, true));
    assert!(signaler.sockets.is_empty());
    signaler.socket_created(2);
    assert!(!signaler.relay_failed(2, false));
    assert_eq!(signaler.relay_closed(epoch + 1, 2, false), RelayClosed::Ignore);
    assert_eq!(signaler.sockets, vec![2]);
    assert_eq!(signaler.relay_closed(epoch, 2, false), RelayClosed::Reconnect);
    assert!(signaler.sockets.is_empty());
    signaler.socket_created(3);
    assert_eq!(signaler.relay_closed(epoch, 3, true), RelayClosed::ReportFailure);
    assert!(signaler.sockets.is_empty());
}

#[test]
fn silent_relay_is_closed() {
    let mut signaler = signaler();
    let epoch = signaler.connect();
    assert_eq!(signaler.watch_relay(epoch, true, 59_999), WatchdogStep::Watch);
    assert_eq!(signaler.watch_relay(epoch, true, 60_000), WatchdogStep::Close);
    assert_eq!(signaler.watch_relay(epoch, false, 60_000), WatchdogStep::Stop);
    assert_eq!(signaler.watch_relay(epoch + 1, true, 60_000), WatchdogStep::Stop);
}

#[test]
fn one_open_relay_is_enough() {
    assert!(finish_connect(RelaysOpened::AtLeastOne).is_ok());
    assert_eq!(
        finish_connect(RelaysOpened::NotAny).err(),
        Some("WasmNostrSignaler: failed to connect to any relay".to_string())
    );
    assert_eq!(
        finish_connect(RelaysOpened::TimedOut).err(),
        Some("WasmNostrSignaler: relay connection timed out".to_string())
    );
}

#[test]
fn relay_list_matters_only_without_configured_relays() {
    let one = vec!["wss://one".to_string()];
    let two = vec!["wss://two".to_string()];
    assert_eq!(resolve_relays(one.clone(), None).ok(), Some(one.clone()));
    assert_eq!(
        resolve_relays(one.clone(), Some(Ok(two.clone()))).ok(),
        Some(vec!["wss://one".to_string(), "wss://two".to_string()])
    );
    assert_eq!(
        resolve_relays(one.clone(), Some(Err("down".to_string()))).ok(),
        Some(one)
    );
    assert_eq!(
        resolve_relays(Vec::new(), Some(Err("down".to_string()))).err(),
        Some("down".to_string())
    );
}

#[test]
fn fetched_relay_list_is_checked() {
    let text = |fetched| checked_relay_list(fetched).err().unwrap();
    assert_eq!(text(FetchedList::NoWindow), "WasmNostrSignaler: window is unavailable");
    assert_eq!(text(FetchedList::TimedOut), "WasmNostrSignaler: relay list fetch timed out");
    assert_eq!(
        text(FetchedList::Status(404)),
        "WasmNostrSignaler: relay list fetch failed with status 404"
    );
    assert_eq!(
        text(FetchedList::NotText),
        "WasmNostrSignaler: relay list response is not text"
    );
    let largest = "x".repeat(MAX_RELAY_LIST_BYTES);
    assert_eq!(
        checked_relay_list(FetchedList::Text(largest.clone())).ok(),
        Some(largest.clone())
    );
    assert_eq!(
        text(FetchedList::Text(largest + "x")),
        "WasmNostrSignaler: relay list response is too large"
    );
}

#[test]
fn only_a_request_of_an_asked_sender_answers_ours() {
    assert!(answers_request(true, SignalingType::Request));
    assert!(!answers_request(true, SignalingType::Offer));
    assert!(!answers_request(false, SignalingType::Request));
}

#[test]
fn message_is_checked_step_by_step() {
    let mut signaler = in_room();
    let bob = key("bob-key");
    let request = message("bob", "", SignalingType::Request);
    let mut next = |joined_at: Option<u64>, fact: MessageFact| {
        signaler.message_step("room-a", &request, &bob, joined_at, fact)
    };
    assert_eq!(
        next(Some(9), MessageFact::Marked { fresh: true }),
        MessageStep::FindSender { requested: false }
    );
    assert_eq!(next(Some(9), MessageFact::Marked { fresh: false }), MessageStep::Drop);
    let found = |admitted: bool| MessageFact::SenderFound {
        admitted,
        known: true,
        stored_epoch: Some(9),
    };
    assert_eq!(next(Some(9), found(false)), MessageStep::Drop);
    assert_eq!(next(Some(10), found(false)), MessageStep::CheckOrder { last: None });
    assert_eq!(next(None, found(true)), MessageStep::CheckOrder { last: None });
    let ordered = |accepted: bool| MessageFact::Ordered { accepted, sequence: Some(4) };
    assert_eq!(next(Some(9), ordered(false)), MessageStep::Drop);
    assert_eq!(next(None, found(true)), MessageStep::CheckOrder { last: Some(4) });
    assert_eq!(
        next(Some(9), ordered(true)),
        MessageStep::Bind { answers_request: false }
    );

    assert!(signaler.first_request(bob.clone(), true));
    assert_eq!(
        signaler.message_step("room-a", &request, &bob, None, MessageFact::Marked { fresh: true }),
        MessageStep::FindSender { requested: true }
    );
    let unnumbered = MessageFact::Ordered { accepted: true, sequence: None };
    assert_eq!(
        signaler.message_step("room-a", &request, &bob, None, unnumbered),
        MessageStep::Bind { answers_request: true }
    );
    assert_eq!(signaler.incoming_sequence(&bob), Some(4));
    let offer = message("bob", "", SignalingType::Offer);
    assert_eq!(
        signaler.message_step("room-a", &offer, &bob, None, unnumbered),
        MessageStep::Bind { answers_request: false }
    );
}

#[test]
fn message_out_of_place_is_dropped_at_once() {
    let mut signaler = in_room();
    let bob = key("bob-key");
    let fact = MessageFact::Marked { fresh: true };
    let rejoin = message("bob", "", SignalingType::Rejoin);
    assert_eq!(signaler.message_step("room-a", &rejoin, &bob, None, fact), MessageStep::Drop);
    let offer = message("bob", "", SignalingType::Offer);
    assert_eq!(signaler.message_step("room-b", &offer, &bob, None, fact), MessageStep::Drop);
}
