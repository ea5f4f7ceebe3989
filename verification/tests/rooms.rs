use mistlib_wasm::app::state::{AppState, Session};
use mistlib_wasm::app::{
    get_config, init, init_with_config, is_room_joined, join_config, join_room, joined_rooms,
    leave_room, leave_room_id, media_rooms, override_signaling_url, session_in_room, set_config,
    validated_config, EVENT_ROOM_JOINED, EVENT_ROOM_JOIN_FAILED, EVENT_ROOM_LEFT,
};
use mistlib_wasm::config::{
    Config, Limits, NostrSignalingConfig, SignalingMode, StorageConfig,
};
use mistlib_wasm::layers::wasm_l0::{
    build_bootstrap_signaler, build_transport, finish_join, reserve_join, waiter_dropped,
    JoinReservation, Leave, WasmL0,
};
use mistlib_wasm::signaling::WasmBootstrapSignaler;
use mistlib_wasm::transport::webrtc::ice_config::IceServer;
use mistlib_wasm::types::NodeId;

fn settings(url: &str) -> Config {
    Config {
        signaling_url: url.to_string(),
        signaling_mode: SignalingMode::WebSocket,
        nostr: None,
        ice_servers: vec![IceServer {
            urls: vec!["stun:stun.example.com".to_string()],
            username: None,
            credential: None,
        }],
        limits: Limits { max_connection_count: 7, max_message_bytes: 1000 },
        storage: StorageConfig {
            max_capacity_mb: 1,
            spatial_decay_enabled: false,
            spatial_decay_interval_secs: 0,
        },
    }
}

fn client() -> AppState<&'static str> {
    AppState::new(settings("ws://one"))
}

#[test]
fn mark_join_pending_is_exclusive_until_cleared() {
    let mut state = client();
    assert!(state.mark_join_pending("room"));
    assert!(!state.mark_join_pending("room"));
    state.clear_join_pending("room");
    assert!(state.mark_join_pending("room"));
}

#[test]
fn cancel_pending_join_only_reports_true_when_something_was_pending() {
    let mut state = client();
    assert!(!state.cancel_pending_join("room"));
    assert!(state.mark_join_pending("room"));
    assert!(state.cancel_pending_join("room"));
    assert!(state.clear_cancelled_pending("room"));
    assert!(!state.clear_cancelled_pending("room"));
}

#[test]
fn join_leave_join_nets_to_joined_via_uncancel() {
    let mut state = client();
    assert!(matches!(join_room(&mut state, "room", 1), JoinReservation::Owner));
    assert!(matches!(leave_room_id(&mut state, "room"), Ok(Leave::JoinCancelled)));
    assert!(matches!(join_room(&mut state, "room", 2), JoinReservation::PiggyBack));

    let end = finish_join(&mut state, "room".to_string(), Ok("session"));
    assert_eq!(end.outcome, Ok(()));
    assert_eq!(end.waiters, vec![2]);
    assert!(end.discarded.is_none());
    assert_eq!(end.event.event_type, EVENT_ROOM_JOINED);
    assert!(is_room_joined(&state, "room"));
}

#[test]
fn drain_join_waiters_resolves_a_single_waiter_with_the_given_result() {
    let mut state = client();
    let _ = join_room(&mut state, "join-state-waiter-ok", 1);
    let _ = join_room(&mut state, "join-state-waiter-ok", 2);
    let end = finish_join(&mut state, "join-state-waiter-ok".to_string(), Ok("session"));
    assert_eq!(end.waiters, vec![2]);
    assert_eq!(end.outcome, Ok(()));
}

#[test]
fn drain_join_waiters_relays_an_error_result_to_the_waiter() {
    let mut state = client();
    let _ = join_room(&mut state, "join-state-waiter-err", 1);
    let _ = join_room(&mut state, "join-state-waiter-err", 2);
    let failed = Err("build failed".to_string());
    let end = finish_join(&mut state, "join-state-waiter-err".to_string(), failed);
    assert_eq!(end.waiters, vec![2]);
    assert_eq!(end.outcome, Err("build failed".to_string()));
}

#[test]
fn drain_join_waiters_notifies_every_registered_waiter_for_the_room() {
    let mut state = client();
    state.register_join_waiter("room", 4);
    state.register_join_waiter("other", 5);
    state.register_join_waiter("room", 6);
    assert_eq!(state.drain_join_waiters("room"), vec![4, 6]);
    assert!(state.drain_join_waiters("room").is_empty());
    assert_eq!(state.drain_join_waiters("other"), vec![5]);
}

#[test]
fn cancelled_branch_drains_its_waiter_instead_of_hanging_it() {
    let mut state = client();
    assert!(matches!(join_room(&mut state, "room", 1), JoinReservation::Owner));
    assert!(matches!(join_room(&mut state, "room", 9), JoinReservation::PiggyBack));
    assert!(matches!(leave_room_id(&mut state, "room"), Ok(Leave::JoinCancelled)));

    let end = finish_join(&mut state, "room".to_string(), Ok("session"));
    assert_eq!(end.outcome, Err("join cancelled by leave".to_string()));
    assert_eq!(end.waiters, vec![9]);
    assert_eq!(end.discarded, Some("session"));
    assert_eq!(end.event.event_type, EVENT_ROOM_JOIN_FAILED);
    assert_eq!(end.event.payload, b"join cancelled by leave".to_vec());
    assert_eq!(end.event.room_id, "room");
    assert!(!is_room_joined(&state, "room"));
}

#[test]
fn failed_build_reports_its_reason_and_leaves_no_mark() {
    let mut state = client();
    let _ = join_room(&mut state, "room", 1);
    let _ = join_room(&mut state, "room", 2);
    let _ = leave_room_id(&mut state, "room");
    let end = finish_join(&mut state, "room".to_string(), Err("no relay".to_string()));
    assert_eq!(end.outcome, Err("no relay".to_string()));
    assert_eq!(end.waiters, vec![2]);
    assert!(end.discarded.is_none());
    assert_eq!(end.event.payload, b"no relay".to_vec());

    assert!(matches!(join_room(&mut state, "room", 3), JoinReservation::Owner));
    let end = finish_join(&mut state, "room".to_string(), Ok("session"));
    assert_eq!(end.outcome, Ok(()));
    assert!(is_room_joined(&state, "room"));
}

#[test]
fn is_room_joined_reflects_session_presence() {
    let mut state = client();
    assert!(!is_room_joined(&state, "room"));
    state.insert_session("room".to_string(), "session");
    assert!(is_room_joined(&state, "room"));
    assert_eq!(state.remove_session("room"), Some("session"));
    assert!(!is_room_joined(&state, "room"));
}

#[test]
fn same_tick_join_then_leave_cancels_before_any_await() {
    let mut state = client();
    let _ = join_room(&mut state, "room", 1);
    assert!(leave_room_id(&mut state, "room").is_ok());
    assert!(!is_room_joined(&state, "room"));
}

#[test]
fn same_tick_join_async_then_leave_cancels_before_any_await() {
    let mut state = client();
    assert!(matches!(reserve_join(&mut state, "room", 1), JoinReservation::Owner));
    assert!(matches!(leave_room_id(&mut state, "room"), Ok(Leave::JoinCancelled)));
    assert!(state.clear_cancelled_pending("room"));
}

#[test]
fn reserve_join_second_call_piggybacks_on_first_same_tick() {
    let mut state = client();
    assert!(matches!(reserve_join(&mut state, "room", 1), JoinReservation::Owner));
    assert!(matches!(reserve_join(&mut state, "room", 2), JoinReservation::PiggyBack));
}

#[test]
fn joining_an_active_room_announces_it_again() {
    let mut state = client();
    state.insert_session("room".to_string(), "session");
    match join_room(&mut state, "room", 1) {
        JoinReservation::AlreadyActive { event } => {
            assert_eq!(event.event_type, EVENT_ROOM_JOINED);
            assert_eq!(event.from_id, "");
            assert_eq!(event.room_id, "room");
            assert!(event.payload.is_empty());
        }
        other => panic!("unexpected reservation: {other:?}"),
    }
}

#[test]
fn leaving_an_unknown_room_is_an_error() {
    let mut state = client();
    assert_eq!(
        leave_room_id(&mut state, "nowhere").err(),
        Some("Room not joined: nowhere".to_string())
    );
    assert_eq!(
        session_in_room(&state, "nowhere").err(),
        Some("Room not joined: nowhere".to_string())
    );
}

#[test]
fn leaving_one_room_keeps_the_others_and_hands_the_session_out() {
    let mut state = client();
    state.insert_session("a".to_string(), "session-a");
    state.insert_session("b".to_string(), "session-b");
    match leave_room_id(&mut state, "a") {
        Ok(Leave::Left { session, event }) => {
            assert_eq!(session, "session-a");
            assert_eq!(event.event_type, EVENT_ROOM_LEFT);
            assert_eq!(event.room_id, "a");
        }
        other => panic!("unexpected leave: {other:?}"),
    }
    assert_eq!(session_in_room(&state, "b").ok(), Some(&"session-b"));
}

#[test]
fn leaving_everything_goes_in_join_order_and_cancels_joins() {
    let mut state = client();
    state.insert_session("b".to_string(), "session-b");
    state.insert_session("a".to_string(), "session-a");
    let _ = join_room(&mut state, "c", 1);

    let left = leave_room(&mut state);
    let rooms: Vec<String> = left.iter().map(|room| room.event.room_id.clone()).collect();
    assert_eq!(rooms, vec!["b".to_string(), "a".to_string()]);
    assert!(left.iter().all(|room| room.event.event_type == EVENT_ROOM_LEFT));
    assert!(!is_room_joined(&state, "a"));

    let end = finish_join(&mut state, "c".to_string(), Ok("session-c"));
    assert_eq!(end.discarded, Some("session-c"));
}

#[test]
fn dropped_waiter_is_told_which_room() {
    assert_eq!(
        waiter_dropped("den"),
        "join_room(den) waiter was dropped without a result"
    );
}

#[test]
fn initialising_takes_name_and_server_only() {
    let mut state = client();
    assert_eq!(state.self_id().0, "local");
    init(&mut state, "me".to_string(), "ws://two".to_string());
    assert_eq!(state.self_id().0, "me");
    assert_eq!(get_config(&state).signaling_url, "ws://two");
    assert_eq!(get_config(&state).limits.max_connection_count, 7);
    assert_eq!(WasmL0::default().get_config(&state).signaling_url, "ws://two");
}

#[test]
fn settings_are_taken_only_if_there_are_any() {
    let mut state: AppState<Session<&'static str>> = AppState::new(settings("ws://one"));
    assert!(!set_config(&mut state, None));
    assert_eq!(get_config(&state).signaling_url, "ws://one");
    assert!(set_config(&mut state, Some(settings("ws://three"))));
    assert_eq!(get_config(&state).signaling_url, "ws://three");
    assert!(!init_with_config(&mut state, "me".to_string(), None));
    assert_eq!(state.self_id().0, "local");
    assert!(init_with_config(&mut state, "me".to_string(), Some(settings("ws://four"))));
    assert_eq!(state.self_id().0, "me");
    assert_eq!(get_config(&state).signaling_url, "ws://four");
}

/// The rooms in join order, each with what runs it and where it signals.
fn rooms_of(state: &AppState<Session<&'static str>>) -> Vec<(String, &'static str, String)> {
    state
        .sessions
        .iter_in_join_order()
        .into_iter()
        .map(|(room, session)| {
            (room.clone(), session.host, session.config.signaling_url.clone())
        })
        .collect()
}

fn room(name: &str, host: &'static str, url: &str) -> (String, &'static str, String) {
    (name.to_string(), host, url.to_string())
}

#[test]
fn settings_reach_every_joined_room() {
    let mut state: AppState<Session<&'static str>> = AppState::new(settings("ws://one"));
    for (name, host) in [("den", "host-den"), ("attic", "host-attic")] {
        let config = join_config(&state);
        state.insert_session(name.to_string(), Session { host, config });
    }
    assert!(state.mark_join_pending("cellar"));
    let before =
        vec![room("den", "host-den", "ws://one"), room("attic", "host-attic", "ws://one")];
    assert_eq!(rooms_of(&state), before);

    assert!(!set_config(&mut state, None));
    assert_eq!(rooms_of(&state), before);
    assert_eq!(get_config(&state).signaling_url, "ws://one");

    assert!(set_config(&mut state, Some(settings("ws://two"))));
    assert_eq!(
        rooms_of(&state),
        vec![room("den", "host-den", "ws://two"), room("attic", "host-attic", "ws://two")]
    );
    assert_eq!(get_config(&state).signaling_url, "ws://two");
    assert_eq!(join_config(&state).signaling_url, "ws://two");
    assert!(!is_room_joined(&state, "cellar"));
    assert!(!state.mark_join_pending("cellar"));

    assert!(init_with_config(&mut state, "me".to_string(), Some(settings("ws://three"))));
    assert_eq!(
        rooms_of(&state),
        vec![room("den", "host-den", "ws://three"), room("attic", "host-attic", "ws://three")]
    );
    init(&mut state, "me".to_string(), "ws://four".to_string());
    assert_eq!(
        rooms_of(&state),
        vec![room("den", "host-den", "ws://three"), room("attic", "host-attic", "ws://three")]
    );
    assert_eq!(join_config(&state).signaling_url, "ws://four");
}

#[test]
fn settings_are_copied_whole() {
    let mut original = settings("ws://one");
    original.signaling_mode = SignalingMode::Nostr;
    original.nostr = Some(NostrSignalingConfig {
        relays: vec!["wss://relay".to_string()],
        relay_list_url: Some("https://list".to_string()),
        ttl_seconds: 60,
        discovery_kind: 1,
        message_kind: 2,
    });
    assert_eq!(format!("{:?}", original.copy()), format!("{original:?}"));
}

#[test]
fn settings_are_refused_unless_signaling_holds_together() {
    let accepted = validated_config(settings("ws://one"), true);
    assert_eq!(accepted.map(|config| config.signaling_url), Some("ws://one".to_string()));
    assert!(validated_config(settings("ws://one"), false).is_none());
}

#[test]
fn signaling_url_can_be_overridden() {
    let moved = override_signaling_url(settings("ws://one"), Some("ws://else".to_string()));
    assert_eq!(moved.signaling_url, "ws://else");
    assert_eq!(moved.limits.max_message_bytes, 1000);
    let kept = override_signaling_url(settings("ws://one"), None);
    assert_eq!(kept.signaling_url, "ws://one");
}

#[test]
fn signaling_url_is_read_from_the_json() {
    let from = |data: &str| {
        mistlib_wasm::app::config_from_json(data, None, Some(settings("ws://one")))
            .map(|config| config.signaling_url)
    };
    assert_eq!(from(r#"{"signalingUrl":"ws://json"}"#), Some("ws://json".to_string()));
    assert_eq!(from(r#"{"signalingUrl":5}"#), Some("ws://one".to_string()));
    assert_eq!(from("not json"), Some("ws://one".to_string()));
    assert!(mistlib_wasm::app::config_from_json("{}", None, None).is_none());
    let full = mistlib_wasm::app::config_from_json(
        "{}",
        Some(settings("ws://full")),
        Some(settings("ws://updated")),
    );
    assert_eq!(full.map(|config| config.signaling_url), Some("ws://full".to_string()));
}

#[test]
fn media_needs_a_room() {
    let mut state = client();
    assert_eq!(
        media_rooms(&state).err(),
        Some("WebRTC transport is not initialized".to_string())
    );
    assert!(joined_rooms(&state).is_empty());
    state.insert_session("b".to_string(), "session-b");
    state.insert_session("a".to_string(), "session-a");
    assert_eq!(joined_rooms(&state), vec!["b".to_string(), "a".to_string()]);
    assert_eq!(media_rooms(&state).ok(), Some(vec!["b".to_string(), "a".to_string()]));
}

#[test]
fn session_is_built_by_the_settings() {
    let config = settings("ws://one");
    let transport = build_transport("den".to_string(), NodeId("me".to_string()), &config);
    assert_eq!(transport.room_id, "den");
    assert_eq!(transport.local_node_id.0, "me");
    assert_eq!(transport.max_connections, 7);
    assert_eq!(transport.max_message_bytes, 1000);
    assert_eq!(transport.ice_servers[0].urls, vec!["stun:stun.example.com".to_string()]);

    let signaler = build_bootstrap_signaler(
        &config,
        &NodeId("me".to_string()),
        "key".to_string(),
        "d".to_string(),
        "m".to_string(),
    );
    match signaler {
        WasmBootstrapSignaler::WebSocket(ws) => assert_eq!(ws.url, "ws://one"),
        WasmBootstrapSignaler::Nostr(_) => panic!("expected a server"),
    }

    let mut nostr = settings("ws://one");
    nostr.signaling_mode = SignalingMode::Nostr;
    nostr.nostr = Some(NostrSignalingConfig {
        relays: vec!["wss://relay".to_string()],
        relay_list_url: None,
        ttl_seconds: 60,
        discovery_kind: 1,
        message_kind: 2,
    });
    let signaler = build_bootstrap_signaler(
        &nostr,
        &NodeId("me".to_string()),
        "key".to_string(),
        "d".to_string(),
        "m".to_string(),
    );
    match signaler {
        WasmBootstrapSignaler::Nostr(nostr) => {
            assert_eq!(nostr.relays, vec!["wss://relay".to_string()]);
            assert_eq!(nostr.public_key, "key");
        }
        WasmBootstrapSignaler::WebSocket(_) => panic!("expected relays"),
    }
}
