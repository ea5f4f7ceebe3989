use mistlib_wasm::app::send::{
    delivery_from, position_targets, send_message, send_route, session_knows_target, SendRoute,
    SendScheduler, SessionRoute,
};
use mistlib_wasm::types::{DeliveryMethod, NodeId};

fn node(name: &str) -> NodeId {
    NodeId(name.to_string())
}

fn route(knows_target: bool, running: bool) -> SessionRoute {
    SessionRoute { knows_target, running }
}

#[test]
fn delivery_numbers_are_read() {
    assert_eq!(delivery_from(0), Some(DeliveryMethod::ReliableOrdered));
    assert_eq!(delivery_from(1), Some(DeliveryMethod::UnreliableOrdered));
    assert_eq!(delivery_from(2), Some(DeliveryMethod::Unreliable));
    assert_eq!(delivery_from(3), None);
}

#[test]
fn broadcast_goes_to_every_running_room_in_join_order() {
    let routes = [route(false, true), route(true, false), route(false, true)];
    assert_eq!(send_message(&node(""), &routes), vec![0, 2]);
    assert!(send_message(&node(""), &[]).is_empty());
}

#[test]
fn unicast_takes_the_first_room_that_knows_the_target() {
    let routes = [route(false, true), route(true, true), route(true, true)];
    assert_eq!(send_message(&node("a"), &routes), vec![1]);
}

#[test]
fn unicast_falls_back_to_the_first_room() {
    assert_eq!(send_message(&node("a"), &[route(false, true), route(false, true)]), vec![0]);
    assert!(send_message(&node("a"), &[]).is_empty());
}

#[test]
fn unicast_over_a_stopped_room_goes_nowhere() {
    assert!(send_message(&node("a"), &[route(false, true), route(true, false)]).is_empty());
    assert!(send_message(&node("a"), &[route(false, false), route(false, true)]).is_empty());
}

#[test]
fn envelope_goes_out_on_the_network_transport() {
    assert_eq!(send_route(true), SendRoute::Enveloped);
    assert_eq!(send_route(false), SendRoute::Plain);
}

#[test]
fn sends_leave_in_call_order_with_one_drainer() {
    let mut scheduler = SendScheduler::new();
    assert!(scheduler.enqueue_send("one"));
    assert!(!scheduler.enqueue_send("two"));
    assert_eq!(scheduler.next_send(), Some("one"));
    assert!(!scheduler.enqueue_send("three"));
    assert_eq!(scheduler.next_send(), Some("two"));
    assert_eq!(scheduler.next_send(), Some("three"));
    assert_eq!(scheduler.next_send(), None);
    assert!(scheduler.enqueue_send("four"));
}

#[test]
fn a_room_knows_stored_and_routed_nodes() {
    assert!(session_knows_target(true, false, false));
    assert!(session_knows_target(false, true, true));
    assert!(!session_knows_target(false, false, true));
    assert!(!session_knows_target(false, true, false));
}

#[test]
fn positions_go_to_connected_nodes_of_a_running_overlay() {
    assert_eq!(position_targets(true, true, vec![node("a"), node("b")]).len(), 2);
    assert!(position_targets(false, true, vec![node("a")]).is_empty());
    assert!(position_targets(true, false, vec![node("a")]).is_empty());
}
