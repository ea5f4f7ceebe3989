use mistlib_wasm::types::ConnectionState;
use mistlib_wasm::transport::webrtc::offer_guard::{
    active_connection_count, create_failure_rollback, offer_action_for_snapshot, OfferAction,
    OfferCreateFailureRollback, SignalingSnapshot,
};

#[test]
fn existing_peer_with_have_local_offer_yields_and_applies() {
    let action =
        offer_action_for_snapshot(true, false, None, 0, 30, SignalingSnapshot::HaveLocalOffer);

    assert_eq!(action, OfferAction::YieldAndApply);
}

#[test]
fn existing_peer_with_have_local_offer_yields_regardless_of_connection_state() {
    let action = offer_action_for_snapshot(
        true,
        false,
        Some(ConnectionState::Connecting),
        1,
        30,
        SignalingSnapshot::HaveLocalOffer,
    );

    assert_eq!(action, OfferAction::YieldAndApply);
}

#[test]
fn existing_peer_with_stable_signaling_applies_in_place() {
    let action = offer_action_for_snapshot(
        true,
        false,
        Some(ConnectionState::Connected),
        1,
        30,
        SignalingSnapshot::Stable,
    );

    assert_eq!(action, OfferAction::ApplyInPlace);
}

#[test]
fn existing_peer_with_other_signaling_state_is_deferred_without_teardown() {
    let action = offer_action_for_snapshot(
        true,
        false,
        Some(ConnectionState::Connecting),
        1,
        30,
        SignalingSnapshot::Other,
    );

    assert_eq!(action, OfferAction::DeferTransient);
}

#[test]
fn existing_peer_is_always_resolved_or_deferred_never_recreated() {
    for signaling_state in [
        SignalingSnapshot::Stable,
        SignalingSnapshot::HaveLocalOffer,
        SignalingSnapshot::Other,
    ] {
        let action = offer_action_for_snapshot(
            true,
            false,
            Some(ConnectionState::Connecting),
            1,
            30,
            signaling_state,
        );
        assert!(
            !matches!(action, OfferAction::Accept { .. }),
            "peer_exists=true produced Accept for signaling_state={:?}: {:?}",
            signaling_state,
            action
        );
    }
}

#[test]
fn offer_at_capacity_is_ignored_without_reservation() {
    let action = offer_action_for_snapshot(false, false, None, 2, 2, SignalingSnapshot::Other);

    assert_eq!(action, OfferAction::IgnoreAtCapacity);
}

#[test]
fn offer_without_state_reserves_when_capacity_allows() {
    let action = offer_action_for_snapshot(false, false, None, 1, 2, SignalingSnapshot::Other);

    assert_eq!(
        action,
        OfferAction::Accept {
            newly_reserved: true
        }
    );
}

#[test]
fn create_pc_failure_rolls_back_only_new_reservations() {
    assert_eq!(
        create_failure_rollback(true),
        OfferCreateFailureRollback::RemoveReservation
    );
    assert_eq!(
        create_failure_rollback(false),
        OfferCreateFailureRollback::KeepExistingState
    );
}

#[test]
fn remote_restarted_replaces_peer_instead_of_applying_in_place_when_stable() {
    let action = offer_action_for_snapshot(
        true,
        true,
        Some(ConnectionState::Connected),
        1,
        30,
        SignalingSnapshot::Stable,
    );

    assert_eq!(action, OfferAction::ReplacePeer);
}

#[test]
fn remote_restarted_replaces_peer_instead_of_yielding_when_have_local_offer() {
    let action = offer_action_for_snapshot(
        true,
        true,
        Some(ConnectionState::Connecting),
        1,
        30,
        SignalingSnapshot::HaveLocalOffer,
    );

    assert_eq!(action, OfferAction::ReplacePeer);
}

#[test]
fn remote_restarted_replaces_peer_instead_of_deferring_when_other() {
    let action = offer_action_for_snapshot(
        true,
        true,
        Some(ConnectionState::Connecting),
        1,
        30,
        SignalingSnapshot::Other,
    );

    assert_eq!(action, OfferAction::ReplacePeer);
}

#[test]
fn remote_restarted_without_existing_peer_is_a_normal_new_connection() {
    let action = offer_action_for_snapshot(false, true, None, 1, 2, SignalingSnapshot::Other);

    assert_eq!(
        action,
        OfferAction::Accept {
            newly_reserved: true
        }
    );
}

#[test]
fn remote_restarted_without_existing_peer_still_respects_capacity() {
    let action = offer_action_for_snapshot(false, true, None, 2, 2, SignalingSnapshot::Other);

    assert_eq!(action, OfferAction::IgnoreAtCapacity);
}

#[test]
fn active_count_includes_reconnecting_but_not_disconnected_or_failed() {
    let count = active_connection_count(&[
        ConnectionState::Connected,
        ConnectionState::Connecting,
        ConnectionState::Reconnecting,
        ConnectionState::Disconnected,
        ConnectionState::Failed,
    ]);

    assert_eq!(count, 3);
}
