//! Fetching of blocks from other nodes.

use vstd::prelude::*;
use vstd::string::StrSliceExecFns;
use vstd::utf8::encode_utf8;

use crate::app::events::{control_of, lemma_utf8_round_trip, ControlModel};
use crate::storage::MSG_WANT;
use crate::types::NodeId;

verus! {

/// How long nodes that hold a block are looked for.
pub const DISCOVERY_TIMEOUT_MS: u32 = 500;

/// The message that asks for a block.
pub open spec fn want_bytes(cid: Seq<char>) -> Seq<u8> {
    seq![MSG_WANT] + encode_utf8(cid)
}

/// Writes the message that asks for a block.
pub fn build_want_message(cid: &str) -> (message: Vec<u8>)
    ensures
        message@ == want_bytes(cid@),
{
    let mut message: Vec<u8> = Vec::new();
    message.push(MSG_WANT);
    let mut name = cid.as_bytes_vec();
    message.append(&mut name);
    assert(message@ =~= want_bytes(cid@));
    message
}

/// Reading the message that asks for a block gives the name of the block.
pub proof fn lemma_want_message_reads_back(cid: Seq<char>)
    ensures
        control_of(want_bytes(cid)) == Some(ControlModel::Want { cid }),
{
    lemma_utf8_round_trip(cid);
    assert(want_bytes(cid).skip(1) =~= encode_utf8(cid));
}

/// Whom a block is asked from.
#[derive(Debug)]
pub enum WantTarget {
    Everybody,
    Node(NodeId),
}

/// The host-independent part of fetching a block.
pub struct WasmPeerResolver {
    pub timeout_ms: u32,
}

/// What fetching a block ends with.
#[derive(Debug)]
pub struct Resolved {
    pub block: Option<Vec<u8>>,
    /// Whether the request is to be withdrawn.
    pub cancel: bool,
}

/// Whether to ask around first who holds a block.
pub open spec fn asks_around(known_peers: Seq<NodeId>) -> bool {
    known_peers.len() == 0
}

/// Whom a block is asked from, where `chosen` is the node that was chosen of
/// those that hold it.
pub open spec fn asked(chosen: Option<NodeId>) -> WantTarget {
    match chosen {
        Some(node) => WantTarget::Node(node),
        None => WantTarget::Everybody,
    }
}

/// What fetching a block ends with, where `received` is the block, if it came in
/// time.
pub open spec fn fetch_ended(received: Option<Vec<u8>>) -> Resolved {
    Resolved { block: received, cancel: received is None }
}

/// `rand::seq::SliceRandom::choose` with `rand::thread_rng`: nothing of an empty
/// list, and otherwise one of the nodes. Which one is left to chance.
#[verifier::external_body]
fn choose_peer(peers: &Vec<NodeId>) -> (chosen: Option<&NodeId>)
    ensures
        match chosen {
            Some(node) => exists|i: int| 0 <= i < peers@.len() && #[trigger] peers@[i] == *node,
            None => peers@.len() == 0,
        },
{
    rand::seq::SliceRandom::choose(peers.as_slice(), &mut rand::thread_rng())
}

impl WasmPeerResolver {
    pub fn new(timeout_ms: u32) -> (resolver: Self)
        ensures
            resolver.timeout_ms == timeout_ms,
    {
        WasmPeerResolver { timeout_ms }
    }

    /// Whether to ask around first who holds a block, where `known_peers` are
    /// the nodes that are known to hold it.
    pub fn needs_discovery(&self, known_peers: &Vec<NodeId>) -> (needed: bool)
        ensures
            needed == (known_peers@.len() == 0),
            needed == asks_around(known_peers@),
    {
        known_peers.len() == 0
    }

    /// Chooses whom to ask for a block: one of the nodes that are known to hold
    /// it, or everybody if none is known.
    pub fn resolve_block(&self, known_peers: &Vec<NodeId>) -> (target: WantTarget)
        ensures
            match target {
                WantTarget::Everybody => known_peers@.len() == 0,
                WantTarget::Node(node) => exists|i: int|
                    0 <= i < known_peers@.len() && #[trigger] known_peers@[i] == node,
            },
    {
        want_target(choose_peer(known_peers))
    }

    /// Ends the fetching of a block; nothing received means that the time is up.
    pub fn finish(&self, received: Option<Vec<u8>>) -> (resolved: Resolved)
        ensures
            resolved.block == received,
            resolved.cancel == received is None,
            resolved == fetch_ended(received),
    {
        let cancel = received.is_none();
        Resolved { block: received, cancel }
    }
}

/// Whom to ask for a block, where `chosen` is the node that was chosen of those
/// that hold it.
pub fn want_target(chosen: Option<&NodeId>) -> (target: WantTarget)
    ensures
        target == (match chosen {
            Some(node) => WantTarget::Node(*node),
            None => WantTarget::Everybody,
        }),
        target == asked(
            match chosen {
                Some(node) => Some(*node),
                None => None,
            },
        ),
{
    match chosen {
        Some(node) => WantTarget::Node(node.clone()),
        None => WantTarget::Everybody,
    }
}

/// A block is asked from the node that was chosen and from nobody else; only
/// where no node could be chosen everybody is asked, and only where no node is
/// known the nodes are looked for first.
pub proof fn lemma_chosen_nodes_are_asked(node: NodeId, known_peers: Seq<NodeId>)
    ensures
        asked(Some(node)) == WantTarget::Node(node),
        asked(None) is Everybody,
        !asks_around(known_peers.push(node)),
        asks_around(Seq::empty()),
{
}

/// A block that came is handed on as it came and its request is done with; if
/// none came, the request is withdrawn.
pub proof fn lemma_fetched_blocks_are_handed_on(block: Vec<u8>)
    ensures
        fetch_ended(Some(block)).block == Some(block),
        !fetch_ended(Some(block)).cancel,
        fetch_ended(None).block is None,
        fetch_ended(None).cancel,
{
}

} // verus!
