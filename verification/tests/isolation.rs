use mistlib_wasm::transport::webrtc::isolation::is_isolated;
use mistlib_wasm::types::ConnectionState;

#[test]
fn all_disconnected_with_no_attempts_is_isolated() {
    assert!(is_isolated(
        &[ConnectionState::Disconnected, ConnectionState::Failed],
        0
    ));
}

#[test]
fn all_disconnected_with_one_in_flight_attempt_is_not_isolated() {
    assert!(!is_isolated(
        &[ConnectionState::Disconnected, ConnectionState::Failed],
        1
    ));
}

#[test]
fn one_connected_with_no_attempts_is_not_isolated() {
    assert!(!is_isolated(
        &[ConnectionState::Connected, ConnectionState::Disconnected],
        0
    ));
}

#[test]
fn one_connected_with_in_flight_attempts_is_not_isolated() {
    assert!(!is_isolated(&[ConnectionState::Connected], 2));
}

#[test]
fn connecting_and_reconnecting_states_count_as_not_isolated() {
    assert!(!is_isolated(&[ConnectionState::Connecting], 0));
    assert!(!is_isolated(&[ConnectionState::Reconnecting], 0));
}

#[test]
fn empty_state_map_with_no_attempts_is_isolated() {
    let states: Vec<ConnectionState> = Vec::new();
    assert!(is_isolated(&states, 0));
}

#[test]
fn empty_state_map_with_in_flight_attempt_is_not_isolated() {
    let states: Vec<ConnectionState> = Vec::new();
    assert!(!is_isolated(&states, 1));
}
