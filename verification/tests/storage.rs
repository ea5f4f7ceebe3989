use mistlib_wasm::config::StorageConfig;
use mistlib_wasm::storage::resolver::{
    build_want_message, want_target, WantTarget, WasmPeerResolver,
};
use mistlib_wasm::storage::{handle_query, handle_want, ServeStep, StorageState};
use mistlib_wasm::types::NodeId;

fn config(enabled: bool, secs: u64) -> StorageConfig {
    StorageConfig {
        max_capacity_mb: 3,
        spatial_decay_enabled: enabled,
        spatial_decay_interval_secs: secs,
    }
}

#[test]
fn decay_sweep_starts_once() {
    let mut state = StorageState::new();
    assert_eq!(
        state.check_initialized().err(),
        Some("Storage not initialized".to_string())
    );
    let setup = state.init_storage(&config(false, 10));
    assert_eq!(setup.capacity_bytes, 3 * 1024 * 1024);
    assert_eq!(setup.peer_timeout_ms, 5000);
    assert_eq!(setup.decay_interval_ms, None);
    assert!(state.check_initialized().is_ok());
    assert_eq!(state.init_storage(&config(true, 10)).decay_interval_ms, Some(10_000));
    assert_eq!(state.init_storage(&config(true, 10)).decay_interval_ms, None);
}

#[test]
fn decay_interval_stays_in_range() {
    let interval = |secs| StorageState::new().init_storage(&config(true, secs)).decay_interval_ms;
    assert_eq!(interval(0), Some(1));
    assert_eq!(interval(u64::MAX), Some(u32::MAX));
    assert_eq!(interval(4_294_967), Some(4_294_967_000));
    assert_eq!(interval(4_294_968), Some(u32::MAX));
}

#[test]
fn small_block_is_served_in_one_message() {
    let single = vec![ServeStep { chunk_index: 0, pause: false }];
    assert_eq!(handle_want(true, true, true, Some(0)), single);
    assert_eq!(handle_want(true, true, true, Some(1)), single);
}

#[test]
fn large_block_is_served_in_parts_with_pauses() {
    let steps = handle_want(true, true, true, Some(18));
    assert_eq!(steps.len(), 18);
    for (index, step) in steps.iter().enumerate() {
        assert_eq!(step.chunk_index as usize, index);
        assert_eq!(step.pause, index % 8 == 0);
    }
}

#[test]
fn block_is_not_served_without_storage_block_or_room() {
    assert!(handle_want(false, true, true, Some(1)).is_empty());
    assert!(handle_want(true, false, true, Some(1)).is_empty());
    assert!(handle_want(true, true, false, Some(1)).is_empty());
    assert!(handle_want(true, true, true, None).is_empty());
    assert!(handle_query(true, true));
    assert!(!handle_query(false, true));
    assert!(!handle_query(true, false));
}

#[test]
fn block_is_asked_from_a_holder_or_from_everybody() {
    let resolver = WasmPeerResolver::new(5000);
    assert!(resolver.needs_discovery(&Vec::new()));
    assert!(matches!(resolver.resolve_block(&Vec::new()), WantTarget::Everybody));

    let peers: Vec<NodeId> = ["a", "b", "c"].iter().map(|name| NodeId(name.to_string())).collect();
    assert!(!resolver.needs_discovery(&peers));
    for _ in 0..20 {
        match resolver.resolve_block(&peers) {
            WantTarget::Node(node) => assert!(peers.contains(&node)),
            WantTarget::Everybody => panic!("a holder is known"),
        }
    }
    assert!(matches!(want_target(Some(&peers[1])), WantTarget::Node(node) if node == peers[1]));
    assert!(matches!(want_target(None), WantTarget::Everybody));
}

#[test]
fn fetching_ends_with_the_block_or_a_withdrawal() {
    let resolver = WasmPeerResolver::new(5000);
    let received = resolver.finish(Some(vec![1, 2]));
    assert_eq!(received.block, Some(vec![1, 2]));
    assert!(!received.cancel);
    let late = resolver.finish(None);
    assert!(late.block.is_none() && late.cancel);
}

#[test]
fn want_message_is_a_tag_and_the_name() {
    assert_eq!(build_want_message("cid"), b"\x01cid".to_vec());
    assert_eq!(build_want_message(""), vec![1]);
}
