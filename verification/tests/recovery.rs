use mistlib_wasm::types::ConnectionState;
use mistlib_wasm::transport::webrtc::recovery::{state_after_ice_recovery, IceRecoveryTrigger};

#[test]
fn restart_recovery_with_open_channel_repairs_to_connected() {
    assert_eq!(
        state_after_ice_recovery(IceRecoveryTrigger::Connected, true),
        ConnectionState::Connected
    );
}

#[test]
fn fresh_connect_with_no_open_channel_stays_connecting() {
    assert_eq!(
        state_after_ice_recovery(IceRecoveryTrigger::Connected, false),
        ConnectionState::Connecting
    );
}

#[test]
fn completed_trigger_behaves_the_same_as_connected() {
    assert_eq!(
        state_after_ice_recovery(IceRecoveryTrigger::Completed, true),
        ConnectionState::Connected
    );
    assert_eq!(
        state_after_ice_recovery(IceRecoveryTrigger::Completed, false),
        ConnectionState::Connecting
    );
}

#[test]
fn flicker_between_connected_and_completed_is_idempotent_once_channel_is_open() {
    let a = state_after_ice_recovery(IceRecoveryTrigger::Connected, true);
    let b = state_after_ice_recovery(IceRecoveryTrigger::Completed, true);
    let c = state_after_ice_recovery(IceRecoveryTrigger::Connected, true);
    assert_eq!(a, ConnectionState::Connected);
    assert_eq!(a, b);
    assert_eq!(b, c);
}

#[test]
fn flicker_while_channel_still_not_open_stays_connecting_every_time() {
    let a = state_after_ice_recovery(IceRecoveryTrigger::Connected, false);
    let b = state_after_ice_recovery(IceRecoveryTrigger::Completed, false);
    assert_eq!(a, ConnectionState::Connecting);
    assert_eq!(a, b);
}
