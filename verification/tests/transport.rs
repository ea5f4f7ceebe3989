use bytes::Bytes;
use mistlib_wasm::app::EVENT_PEER_DISCONNECTED;
use mistlib_wasm::transport::webrtc::lifecycle::{ConnectStart, IceState, SweepOutcome};
use mistlib_wasm::transport::webrtc::messages::{
    signaling_step, CandidateOutcome, SignalingStep,
};
use mistlib_wasm::transport::webrtc::negotiation::{
    answer_action, answer_step, candidates_are_due, check_answer_preconditions,
    check_offer_preconditions, continue_exchange, exchange_message, may_restart_ice,
    rollback_for_state, sdp_from_signaling_payload, start_exchange, AnswerAction, AnswerStep,
    Exchange, ExchangeNext, ExchangeStep, Rollback, SignalingState, StepResult,
};
use mistlib_wasm::transport::webrtc::offer_guard::OfferAction;
use mistlib_wasm::transport::webrtc::peer::{
    candidate_wait, channel_label, channel_plan, method_for_label, CandidateRetry, CandidateSend,
    ChannelOpened, ChannelState, ChannelStates, IceReaction, Peer, TrackEvent,
};
use mistlib_wasm::transport::webrtc::request_guard::RequestAction;
use mistlib_wasm::transport::webrtc::sending::{ChannelSnapshot, ChannelSnapshots, SendPlan};
use mistlib_wasm::transport::webrtc::{
    IsolationRecovery, WasmWebRtcTransport, DISCONNECTED_GRACE_MS,
};
use mistlib_wasm::types::{
    ConnectionState, DeliveryMethod, MessageContent, MistError, NodeId, SignalingData,
    SignalingType,
};

fn node(name: &str) -> NodeId {
    NodeId(name.to_string())
}

fn transport() -> WasmWebRtcTransport {
    WasmWebRtcTransport::new(node("b-local"))
}

/// A transport with a connection of the given handle that is up.
fn connected(name: &str, handle: u64) -> WasmWebRtcTransport {
    let mut transport = transport();
    assert!(matches!(transport.connect(&node(name)), ConnectStart::Started { .. }));
    assert_eq!(transport.install_peer(&node(name), handle), None);
    assert_eq!(
        transport.channel_opened(&node(name), handle, DeliveryMethod::ReliableOrdered),
        ChannelOpened::Connected { announce: true }
    );
    transport
}

fn text(error: MistError) -> String {
    match error {
        MistError::Internal(text) => text,
        other => panic!("unexpected error: {other:?}"),
    }
}

fn open(buffered_amount: u32) -> Option<ChannelSnapshot> {
    Some(ChannelSnapshot { state: ChannelState::Open, buffered_amount })
}

const NO_CHANNELS: ChannelSnapshots =
    ChannelSnapshots { reliable: None, unreliable_ordered: None, unreliable: None };

#[test]
fn new_transport_starts_in_the_lobby() {
    let transport = transport();
    assert_eq!(transport.room_id, "lobby");
    assert_eq!(transport.max_connections, 30);
    assert_eq!(transport.max_message_bytes, 65536);
    assert_eq!(transport.ice_servers[0].urls, vec!["stun:stun.l.google.com:19302".to_string()]);
}

#[test]
fn connections_are_bounded_and_numbered() {
    let mut transport = transport();
    transport.set_max_connections(1);
    assert_eq!(transport.connect(&node("a")), ConnectStart::Started { attempt_id: 2 });
    assert_eq!(transport.connect(&node("a")), ConnectStart::AlreadyActive);
    assert_eq!(transport.connect(&node("c")), ConnectStart::AtCapacity);
    let teardown = transport.disconnect(&node("a"));
    assert_eq!(teardown.close, None);
    assert_eq!(teardown.isolation_check, Some(1));
    assert_eq!(transport.connect(&node("c")), ConnectStart::Started { attempt_id: 3 });
}

#[test]
fn teardown_drops_everything_about_the_peer() {
    let mut transport = connected("a", 5);
    let teardown =
        transport.cleanup_peer_connection(&node("a"), true, IsolationRecovery::Skip);
    assert_eq!(teardown.close, Some(5));
    assert_eq!(teardown.isolation_check, None);
    assert_eq!(transport.get_connection_state(&node("a")), ConnectionState::Disconnected);
    assert!(!transport.peers.contains_key(&node("a")));
}

#[test]
fn stalled_attempt_is_given_up() {
    let mut transport = transport();
    let ConnectStart::Started { attempt_id } = transport.connect(&node("a")) else {
        panic!("the attempt must start");
    };
    assert_eq!(
        transport.connection_timed_out(&node("a"), attempt_id + 1, IceState::New, false),
        None
    );
    assert_eq!(
        transport.connection_timed_out(&node("a"), attempt_id, IceState::Connected, true),
        None
    );
    assert!(transport
        .connection_timed_out(&node("a"), attempt_id, IceState::Connected, false)
        .is_some());
    assert_eq!(transport.get_connection_state(&node("a")), ConnectionState::Disconnected);
}

#[test]
fn isolation_check_is_superseded_and_needs_isolation() {
    let mut transport = transport();
    let first = transport.schedule_isolation_recovery();
    let second = transport.schedule_isolation_recovery();
    assert!(!transport.isolation_recovery_due(first));
    assert!(transport.isolation_recovery_due(second));
    let _ = transport.connect(&node("a"));
    assert!(!transport.isolation_recovery_due(second));
}

#[test]
fn suspicion_is_taken_back_without_a_trace() {
    let mut transport = connected("a", 1);
    assert!(!transport.mark_suspect_disconnected(&node("x"), 10));
    assert!(transport.mark_suspect_disconnected(&node("a"), 10));
    assert_eq!(transport.get_connection_state(&node("a")), ConnectionState::Reconnecting);
    assert!(!transport.mark_suspect_disconnected(&node("a"), 11));
    assert!(transport.cancel_suspect_grace(&node("a")));
    assert_eq!(transport.get_connection_state(&node("a")), ConnectionState::Connected);
    assert!(!transport.cancel_suspect_grace(&node("a")));
}

#[test]
fn sweep_gives_up_after_the_grace_period() {
    let mut transport = connected("a", 1);
    assert_eq!(
        transport.sweep_node(&node("a"), IceState::Connected, true, 0),
        SweepOutcome::Kept
    );
    assert!(transport.mark_suspect_disconnected(&node("a"), 100));
    assert_eq!(
        transport.sweep_node(&node("a"), IceState::Connected, true, 99 + DISCONNECTED_GRACE_MS),
        SweepOutcome::Kept
    );
    assert_eq!(
        transport.sweep_node(&node("a"), IceState::Connected, true, 100 + DISCONNECTED_GRACE_MS),
        SweepOutcome::Cleaned { close: 1, isolation_check: 1 }
    );
    assert_eq!(
        transport.sweep_node(&node("a"), IceState::New, false, 0),
        SweepOutcome::Forgotten
    );
    assert!(transport.swept_nodes().is_empty());
}

#[test]
fn sweep_gives_up_connections_without_channels() {
    let mut transport = connected("a", 1);
    assert_eq!(
        transport.sweep_node(&node("a"), IceState::Connected, false, 0),
        SweepOutcome::Cleaned { close: 1, isolation_check: 1 }
    );
}

#[test]
fn sweeper_runs_once_and_stops() {
    let mut transport = transport();
    let generation = transport.ensure_session_sweeper().unwrap();
    assert_eq!(transport.ensure_session_sweeper(), None);
    assert!(transport.sweeper_is_current(generation));
    let peers = transport.close_all_peer_connections();
    assert!(peers.is_empty());
    assert!(!transport.sweeper_is_current(generation));
}

#[test]
fn restart_notice_marks_the_peer_until_its_next_request() {
    let mut transport = connected("c", 3);
    assert_eq!(transport.handle_rejoin(&node("c"), "50"), Some(Some(3)));
    assert_eq!(transport.get_connection_state(&node("c")), ConnectionState::Disconnected);
    let plan = transport.handle_request(&node("c"), true);
    assert_eq!(plan.action, RequestAction::CleanupAndConnect);
    assert_eq!(plan.restarted_epoch, Some(50));
    assert_eq!(transport.take_remote_restarted(&node("c")), None);
}

#[test]
fn repeated_restart_notice_leaves_the_new_connection_alone() {
    let mut transport = connected("c", 3);
    transport.request_connected(&node("c"), Some(50));
    assert_eq!(transport.handle_rejoin(&node("c"), "50"), None);
    assert_eq!(transport.handle_rejoin(&node("c"), "49"), None);
    assert_eq!(transport.handle_rejoin(&node("c"), "51"), Some(Some(3)));
    let mut unknown = connected("c", 3);
    unknown.request_connected(&node("c"), Some(50));
    assert_eq!(unknown.handle_rejoin(&node("c"), "soon"), Some(Some(3)));
}

#[test]
fn only_the_first_name_answers_a_request() {
    let mut transport = transport();
    let ignored = transport.handle_request(&node("a"), false);
    assert_eq!(ignored.action, RequestAction::Ignore);
    let answered = transport.handle_request(&node("c"), false);
    assert_eq!(answered.action, RequestAction::Connect);
}

#[test]
fn offers_reserve_a_slot_and_roll_it_back() {
    let mut transport = transport();
    let plan = transport.handle_offer(&node("a"), SignalingState::Stable);
    assert_eq!(plan.action, OfferAction::Accept { newly_reserved: true });
    assert_eq!(transport.get_connection_state(&node("a")), ConnectionState::Connecting);
    transport.offer_creation_failed(&node("a"), true);
    assert_eq!(transport.get_connection_state(&node("a")), ConnectionState::Disconnected);

    let (attempt, displaced) = transport.offer_peer_created(&node("a"), 8);
    assert_eq!((attempt, displaced), (2, None));
    assert!(!transport.offer_answered(&node("a"), Some(4)));
    let teardown = transport.offer_failed(&node("a"));
    assert_eq!(teardown.close, Some(8));
}

#[test]
fn offer_of_a_restarted_peer_replaces_the_connection() {
    let mut transport = connected("a", 3);
    assert!(transport.handle_rejoin(&node("a"), "9").is_some());
    assert_eq!(transport.install_peer(&node("a"), 4), None);
    let plan = transport.handle_offer(&node("a"), SignalingState::Stable);
    assert_eq!(plan.action, OfferAction::ReplacePeer);
    assert_eq!(plan.replaced, Some(4));
    assert_eq!(plan.restarted_epoch, Some(9));
}

#[test]
fn own_offers_need_a_stable_connection() {
    let mut transport = transport();
    assert_eq!(
        text(transport.check_offer_state(&node("a")).unwrap_err()),
        "Offer precondition failed: invalid connection state for a"
    );
    let _ = transport.connect(&node("a"));
    assert!(transport.check_offer_state(&node("a")).is_ok());

    let check = |signaling, ice| check_offer_preconditions(&node("a"), signaling, ice);
    assert!(check(SignalingState::Stable, IceState::Checking).is_ok());
    assert_eq!(
        text(check(SignalingState::HaveLocalOffer, IceState::Connected).unwrap_err()),
        "Offer precondition failed: signaling state is not stable for a"
    );
    assert_eq!(
        text(check(SignalingState::Stable, IceState::Disconnected).unwrap_err()),
        "Offer precondition failed: unstable ice state Disconnected for a"
    );
}

#[test]
fn answers_in_place_may_yield_our_own_offer() {
    let check = |exchange, signaling| check_answer_preconditions(&node("a"), exchange, signaling);
    assert_eq!(check(Exchange::FirstAnswer, SignalingState::Stable).ok(), Some(false));
    assert_eq!(
        check(Exchange::AnswerInPlace, SignalingState::HaveLocalOffer).ok(),
        Some(true)
    );
    assert_eq!(
        text(check(Exchange::FirstAnswer, SignalingState::HaveLocalOffer).unwrap_err()),
        "Offer precondition failed: signaling is not stable for a"
    );
}

#[test]
fn late_answers_are_told_apart() {
    let sections = "m=audio 9 x\r\na=mid:0\r\n";
    let decide = |signaling, local| answer_action(&node("a"), signaling, local, sections);
    assert_eq!(
        decide(SignalingState::HaveLocalOffer, Some(sections)).ok(),
        Some(AnswerAction::Apply)
    );
    assert_eq!(
        decide(SignalingState::HaveLocalOffer, None).ok(),
        Some(AnswerAction::Apply)
    );
    assert_eq!(
        decide(SignalingState::HaveLocalOffer, Some("m=video 9 x\r\na=mid:0\r\n")).ok(),
        Some(AnswerAction::IgnoreStale)
    );
    assert_eq!(
        text(decide(SignalingState::Stable, None).unwrap_err()),
        "Answer precondition failed: signaling state is not HaveLocalOffer for a"
    );
}

#[test]
fn exchanges_run_step_by_step() {
    let mut step = start_exchange(Exchange::AnswerInPlace);
    let mut seen = vec![step];
    while let ExchangeNext::Continue(next) =
        continue_exchange(Exchange::AnswerInPlace, step, StepResult::Succeeded)
    {
        step = next;
        seen.push(step);
    }
    assert_eq!(
        seen,
        vec![
            ExchangeStep::SetRemote,
            ExchangeStep::CreateLocal,
            ExchangeStep::SetLocal,
            ExchangeStep::Send
        ]
    );
    assert_eq!(start_exchange(Exchange::Offer), ExchangeStep::CreateLocal);
    assert_eq!(
        continue_exchange(Exchange::Offer, ExchangeStep::SetLocal, StepResult::Rejected),
        ExchangeNext::Failed { roll_back: true }
    );
    assert_eq!(
        continue_exchange(Exchange::IceRestartOffer, ExchangeStep::SetLocal, StepResult::Rejected),
        ExchangeNext::Failed { roll_back: false }
    );
    assert_eq!(
        continue_exchange(Exchange::Offer, ExchangeStep::CreateLocal, StepResult::NoDescription),
        ExchangeNext::Failed { roll_back: false }
    );
    assert_eq!(rollback_for_state(SignalingState::HaveLocalOffer), Rollback::Local);
    assert_eq!(rollback_for_state(SignalingState::HaveRemoteOffer), Rollback::Remote);
    assert_eq!(rollback_for_state(SignalingState::Stable), Rollback::Unneeded);
    assert_eq!(rollback_for_state(SignalingState::Unknown), Rollback::Impossible);
}

#[test]
fn description_is_taken_out_of_a_json_payload() {
    assert_eq!(sdp_from_signaling_payload("{..}", Some("v=0".to_string())), "v=0");
    assert_eq!(sdp_from_signaling_payload("v=0", None), "v=0");
}

#[test]
fn messages_of_other_rooms_are_dropped() {
    let mut transport = transport();
    transport.set_room_id("den".to_string());
    let message = |room: &str| {
        MessageContent::Data(SignalingData {
            sender_id: node("a"),
            receiver_id: node("b-local"),
            room_id: room.to_string(),
            data: String::new(),
            signaling_type: SignalingType::Offer,
        })
    };
    assert!(transport.handle_message(message("den")).is_some());
    assert!(transport.handle_message(message("")).is_some());
    assert!(transport.handle_message(message("attic")).is_none());
    assert!(transport.handle_message(MessageContent::Raw(vec![1])).is_none());

    let (to, request) = transport.request_peers();
    assert_eq!(to.0, "server");
    assert_eq!(request.room_id, "den");
    assert_eq!(request.signaling_type, SignalingType::Request);
    assert!(request.receiver_id.is_broadcast());
}

#[test]
fn candidates_wait_for_the_remote_description() {
    let mut transport = transport();
    assert!(matches!(
        transport.handle_candidate_payload(&node("a"), "c0".to_string(), false),
        CandidateOutcome::Dropped
    ));
    let _ = transport.connect(&node("a"));
    assert!(matches!(
        transport.handle_candidate_payload(&node("a"), "c1".to_string(), false),
        CandidateOutcome::Buffered { dropped_oldest: false }
    ));
    assert!(transport.handle_candidates(&node("a"), r#"["c2","c3"]"#, false).is_empty());
    assert!(transport.handle_candidates(&node("a"), "[1]", false).is_empty());
    let _ = transport.install_peer(&node("a"), 1);
    assert_eq!(
        transport.apply_pending_candidates(&node("a")),
        vec!["c1".to_string(), "c2".to_string(), "c3".to_string()]
    );
    assert!(matches!(
        transport.handle_candidate_payload(&node("a"), "c4".to_string(), true),
        CandidateOutcome::Add(candidate) if candidate == "c4"
    ));
    assert_eq!(
        transport.handle_candidates(&node("a"), r#"["c5"]"#, true),
        vec!["c5".to_string()]
    );
    assert_eq!(
        transport.handle_candidate_list(&node("a"), vec!["c6".to_string()], true),
        vec!["c6".to_string()]
    );
}

#[test]
fn ice_changes_of_the_held_connection_count() {
    let mut transport = connected("c", 1);
    assert_eq!(
        transport.ice_state_changed(&node("c"), 2, IceState::Failed, false, true, 0),
        IceReaction::Stale
    );
    assert_eq!(
        transport.ice_state_changed(&node("c"), 1, IceState::Disconnected, true, true, 5),
        IceReaction::Interrupted { restart: true }
    );
    assert_eq!(
        transport.ice_state_changed(&node("c"), 1, IceState::Disconnected, true, true, 6),
        IceReaction::Interrupted { restart: false }
    );
    assert_eq!(
        transport.ice_state_changed(&node("c"), 1, IceState::Connected, true, true, 7),
        IceReaction::Recovered {
            state: ConnectionState::Connected,
            grace_ended: true,
            flush: true
        }
    );
    assert_eq!(
        transport.ice_state_changed(&node("c"), 1, IceState::Completed, false, true, 7),
        IceReaction::Recovered {
            state: ConnectionState::Connecting,
            grace_ended: false,
            flush: false
        }
    );
    assert_eq!(
        transport.ice_state_changed(&node("c"), 1, IceState::New, false, true, 7),
        IceReaction::Unchanged
    );
    assert_eq!(
        transport.ice_state_changed(&node("c"), 1, IceState::Checking, false, true, 7),
        IceReaction::Checking
    );
    assert_eq!(
        transport.ice_state_changed(&node("c"), 1, IceState::Closed, false, true, 7),
        IceReaction::Lost
    );
    assert!(!transport.peers.contains_key(&node("c")));
}

#[test]
fn the_later_name_does_not_restart_ice() {
    let mut transport = connected("a", 1);
    assert_eq!(
        transport.ice_state_changed(&node("a"), 1, IceState::Disconnected, true, true, 5),
        IceReaction::Interrupted { restart: false }
    );
}

#[test]
fn channels_make_and_break_a_connection() {
    let mut transport = connected("a", 1);
    assert_eq!(
        transport.channel_opened(&node("a"), 1, DeliveryMethod::Unreliable),
        ChannelOpened::Ignored
    );
    assert_eq!(
        transport.channel_opened(&node("a"), 2, DeliveryMethod::ReliableOrdered),
        ChannelOpened::Ignored
    );
    assert_eq!(
        transport.channel_opened(&node("a"), 1, DeliveryMethod::ReliableOrdered),
        ChannelOpened::Connected { announce: false }
    );
    assert!(!transport.channel_closed(&node("a"), 2));
    assert!(transport.channel_closed(&node("a"), 1));
    assert_eq!(transport.get_connection_state(&node("a")), ConnectionState::Disconnected);
}

#[test]
fn labels_name_delivery_methods() {
    for method in [
        DeliveryMethod::ReliableOrdered,
        DeliveryMethod::UnreliableOrdered,
        DeliveryMethod::Unreliable,
    ] {
        assert_eq!(method_for_label(channel_label(method)), method);
    }
    assert!(channel_plan(DeliveryMethod::ReliableOrdered).ordered);
    assert_eq!(channel_plan(DeliveryMethod::ReliableOrdered).max_retransmits, None);
    assert!(!channel_plan(DeliveryMethod::Unreliable).ordered);
    assert_eq!(channel_plan(DeliveryMethod::Unreliable).max_retransmits, Some(0));
    let states = ChannelStates {
        reliable: Some(ChannelState::Connecting),
        unreliable_ordered: None,
        unreliable: Some(ChannelState::Open),
    };
    assert!(states.has_open_channel());
    assert!(states.has_live_channel());
    assert_eq!(states.of(DeliveryMethod::ReliableOrdered), Some(ChannelState::Connecting));
}

#[test]
fn candidates_of_ours_are_repeated_until_acknowledged() {
    let mut transport = transport();
    let plan = transport.plan_candidate(&node("a"), 1, 0);
    assert_eq!(plan, CandidateSend::Reliable { sequence: 0 });
    assert_eq!(
        transport.plan_candidate(&node("a"), 1, 0),
        CandidateSend::Numbered { sequence: 0 }
    );
    assert_eq!(transport.plan_candidate(&node("a"), 1, 64), CandidateSend::Plain);
    assert_eq!(transport.retry_candidate(&node("a"), 1, 0), CandidateRetry::SendAgain);
    assert!(candidate_wait(plan, 1).is_some());
    assert!(candidate_wait(plan, 4).is_some());
    assert_eq!(candidate_wait(plan, 5), None);
    assert_eq!(candidate_wait(CandidateSend::Plain, 1), None);
    assert!(transport.give_up_candidate(&node("a"), 1, 0));
    assert!(!transport.give_up_candidate(&node("a"), 1, 0));
    assert_eq!(transport.retry_candidate(&node("a"), 1, 0), CandidateRetry::Stop);
}

#[test]
fn messages_find_their_channel() {
    let mut transport = connected("a", 1);
    let channels = ChannelSnapshots {
        reliable: open(0),
        unreliable_ordered: None,
        unreliable: open(2 * 1024 * 1024),
    };
    assert!(matches!(
        transport.send(&node("a"), 10, DeliveryMethod::ReliableOrdered, channels),
        SendPlan::Send { channel: DeliveryMethod::ReliableOrdered, near_limit: false }
    ));
    match transport.send(&node("a"), 10, DeliveryMethod::UnreliableOrdered, channels) {
        SendPlan::Fail(error) => assert_eq!(
            text(error),
            "Backpressure: dropped unreliable message under congestion"
        ),
        other => panic!("unexpected plan: {other:?}"),
    }
    let congested = ChannelSnapshots { reliable: open(2 * 1024 * 1024), ..channels };
    assert!(matches!(
        transport.send(&node("a"), 60_000, DeliveryMethod::ReliableOrdered, congested),
        SendPlan::WaitThenSend { channel: DeliveryMethod::ReliableOrdered, near_limit: true }
    ));
    assert!(matches!(
        transport.send(&node("a"), 70_000, DeliveryMethod::ReliableOrdered, channels),
        SendPlan::Fail(MistError::MessageTooLarge { size: 70_000, limit: 65_536 })
    ));
    assert!(WasmWebRtcTransport::drained(true).is_ok());
    assert_eq!(
        text(WasmWebRtcTransport::drained(false).unwrap_err()),
        "Backpressure: bufferedAmount drain timed out"
    );
}

#[test]
fn messages_wait_for_a_peer_that_comes_back() {
    let mut transport = transport();
    match transport.send(&node("a"), 1, DeliveryMethod::ReliableOrdered, NO_CHANNELS) {
        SendPlan::Fail(error) => assert_eq!(text(error), "Not connected"),
        other => panic!("unexpected plan: {other:?}"),
    }
    let _ = transport.connect(&node("a"));
    let _ = transport.install_peer(&node("a"), 1);
    assert!(matches!(
        transport.send(&node("a"), 1, DeliveryMethod::ReliableOrdered, NO_CHANNELS),
        SendPlan::Defer { near_limit: false }
    ));
    assert!(matches!(
        transport.send(&node("a"), 1, DeliveryMethod::Unreliable, NO_CHANNELS),
        SendPlan::Fail(_)
    ));
}

#[test]
fn closed_channel_makes_the_peer_count_as_connecting() {
    let mut transport = connected("a", 1);
    let closed = ChannelSnapshots {
        reliable: Some(ChannelSnapshot { state: ChannelState::Closed, buffered_amount: 0 }),
        ..NO_CHANNELS
    };
    assert!(matches!(
        transport.send(&node("a"), 1, DeliveryMethod::ReliableOrdered, closed),
        SendPlan::Fail(_)
    ));
    assert_eq!(transport.get_connection_state(&node("a")), ConnectionState::Connecting);
    assert!(transport.get_connected_nodes().is_empty());
    assert_eq!(transport.get_active_connection_states().len(), 1);
}

#[test]
fn peer_keeps_messages_waiters_and_track_changes() {
    let mut peer = Peer::new();
    assert!(!peer.defer_send(Bytes::from_static(b"one")));
    assert!(!peer.defer_send(Bytes::from_static(b"two")));
    assert!(peer.flush_send_queue(Some(ChannelState::Connecting)).is_empty());
    assert_eq!(
        peer.flush_send_queue(Some(ChannelState::Open)),
        vec![Bytes::from_static(b"one"), Bytes::from_static(b"two")]
    );
    assert!(!peer.take_track_reconcile());
    peer.defer_track_reconcile();
    assert!(peer.take_track_reconcile());
    assert!(!peer.take_track_reconcile());

    peer.wait_for_buffered_amount_low(DeliveryMethod::ReliableOrdered, 1, &vec![]);
    peer.wait_for_buffered_amount_low(DeliveryMethod::ReliableOrdered, 2, &vec![1]);
    peer.wait_for_buffered_amount_low(DeliveryMethod::ReliableOrdered, 3, &vec![2]);
    assert_eq!(peer.buffered_amount_low(DeliveryMethod::ReliableOrdered), vec![2, 3]);
    assert!(peer.buffered_amount_low(DeliveryMethod::ReliableOrdered).is_empty());
    assert!(!peer.defer_send(Bytes::from_static(b"lost")));
    assert_eq!(peer.close_all(), 1);
}

#[test]
fn tracks_are_attached_where_they_are_missing() {
    let mut transport = connected("a", 1);
    let camera = "camera".to_string();
    assert_eq!(
        text(transport.publish_local_track(&camera).unwrap_err()),
        "Unknown local track: camera"
    );
    assert!(transport.register_local_track(camera.clone(), "video".to_string()).is_empty());
    assert!(!transport.has_published_tracks());
    let peers = transport.publish_local_track(&camera).unwrap();
    assert_eq!(peers, vec![(node("a"), 1)]);
    assert!(transport.has_published_tracks());
    assert_eq!(
        transport.attach_published_tracks_to_peer(&node("a")),
        vec![camera.clone()]
    );
    transport.track_attached(&node("a"), camera.clone());
    assert!(transport.attach_published_tracks_to_peer(&node("a")).is_empty());
    assert_eq!(transport.carrying_nodes(&camera), vec![node("a")]);
    assert_eq!(
        transport.register_local_track(camera.clone(), "video".to_string()),
        vec![node("a")]
    );
    assert!(transport.unpublish_local_track(&camera).is_ok());
    assert!(transport.track_detached(&node("a"), &camera));
    assert!(!transport.track_detached(&node("a"), &camera));
    assert!(transport.check_local_track(&camera).is_ok());
    transport.remove_local_track(&camera);
    assert!(transport.check_local_track(&camera).is_err());
}

#[test]
fn every_kind_of_message_has_a_step_of_its_own() {
    let step = |signaling_type| {
        let step = signaling_step(SignalingData {
            sender_id: node("a"),
            receiver_id: node("b-local"),
            room_id: "den".to_string(),
            data: "content".to_string(),
            signaling_type,
        });
        match step {
            SignalingStep::Offer { sender, payload } => ("offer", sender, payload),
            SignalingStep::Answer { sender, payload } => ("answer", sender, payload),
            SignalingStep::Candidate { sender, candidate } => ("candidate", sender, candidate),
            SignalingStep::Candidates { sender, list } => ("candidates", sender, list),
            SignalingStep::Request { sender } => ("request", sender, String::new()),
            SignalingStep::Rejoin { sender, notice } => ("rejoin", sender, notice),
        }
    };
    let content = || "content".to_string();
    assert_eq!(step(SignalingType::Offer), ("offer", node("a"), content()));
    assert_eq!(step(SignalingType::Answer), ("answer", node("a"), content()));
    assert_eq!(step(SignalingType::Candidate), ("candidate", node("a"), content()));
    assert_eq!(step(SignalingType::Candidates), ("candidates", node("a"), content()));
    assert_eq!(step(SignalingType::Request), ("request", node("a"), String::new()));
    assert_eq!(step(SignalingType::Rejoin), ("rejoin", node("a"), content()));
}

#[test]
fn answer_is_applied_and_then_settles_or_is_rolled_back() {
    let apply = AnswerAction::Apply;
    assert_eq!(answer_step(apply, None), AnswerStep::SetRemote);
    assert_eq!(answer_step(apply, Some(StepResult::Succeeded)), AnswerStep::Settle);
    assert_eq!(answer_step(apply, Some(StepResult::Rejected)), AnswerStep::RollBack);
    assert_eq!(answer_step(apply, Some(StepResult::NoDescription)), AnswerStep::RollBack);
    assert_eq!(answer_step(AnswerAction::IgnoreStale, None), AnswerStep::DeferTracks);
}

#[test]
fn exchange_sends_its_own_kind_of_description() {
    assert_eq!(exchange_message(Exchange::Offer), SignalingType::Offer);
    assert_eq!(exchange_message(Exchange::IceRestartOffer), SignalingType::Offer);
    assert_eq!(exchange_message(Exchange::FirstAnswer), SignalingType::Answer);
    assert_eq!(exchange_message(Exchange::AnswerInPlace), SignalingType::Answer);
    assert!(may_restart_ice(SignalingState::Stable));
    assert!(!may_restart_ice(SignalingState::HaveLocalOffer));
}

#[test]
fn waiting_candidates_follow_our_answer() {
    let due = candidates_are_due;
    let done = StepResult::Succeeded;
    assert!(due(Exchange::FirstAnswer, ExchangeStep::SetLocal, done));
    assert!(due(Exchange::AnswerInPlace, ExchangeStep::SetLocal, done));
    assert!(!due(Exchange::Offer, ExchangeStep::SetLocal, done));
    assert!(!due(Exchange::FirstAnswer, ExchangeStep::SetRemote, done));
    assert!(!due(Exchange::FirstAnswer, ExchangeStep::SetLocal, StepResult::Rejected));
}

#[test]
fn deferred_track_change_waits_until_signaling_settles() {
    let deferrals =
        [TrackEvent::OfferFailed, TrackEvent::OfferYielded, TrackEvent::AnswerStale];
    let settlements = [
        TrackEvent::AnswerApplied,
        TrackEvent::OfferAnswered,
        TrackEvent::RolledBack,
        TrackEvent::IceConnected,
    ];
    for deferral in deferrals {
        for settlement in settlements {
            let mut peer = Peer::new();
            assert!(!peer.track_event(settlement));
            assert!(!peer.track_event(deferral));
            assert!(!peer.track_event(TrackEvent::OfferMade));
            assert!(peer.track_event(settlement));
            assert!(!peer.track_event(settlement));
        }
    }
}

#[test]
fn loss_of_the_last_peer_is_announced_and_checked_for_isolation() {
    let mut transport = connected("a", 1);
    transport.set_room_id("den".to_string());
    let earlier = transport.schedule_isolation_recovery();
    assert!(!transport.isolation_recovery_due(earlier));
    assert!(transport.channel_closed(&node("a"), 1));
    let (event, check) = transport.peer_lost(&node("a"));
    assert_eq!(event.event_type, EVENT_PEER_DISCONNECTED);
    assert_eq!(event.from_id, "a");
    assert_eq!(event.room_id, "den");
    assert!(event.payload.is_empty());
    assert_eq!(check, earlier + 1);
    assert!(!transport.isolation_recovery_due(earlier));
    assert!(!transport.isolation_recovery_due(check));
    let _ = transport.cleanup_peer_connection(&node("a"), true, IsolationRecovery::Skip);
    assert!(transport.isolation_recovery_due(check));
}

#[test]
fn loss_of_one_peer_among_others_is_no_isolation() {
    let mut transport = connected("a", 1);
    assert!(matches!(transport.connect(&node("c")), ConnectStart::Started { .. }));
    assert_eq!(transport.install_peer(&node("c"), 2), None);
    assert!(transport.channel_closed(&node("a"), 1));
    let (_, check) = transport.peer_lost(&node("a"));
    assert!(!transport.isolation_recovery_due(check));
}
