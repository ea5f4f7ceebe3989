//! Delivery of offers and answers over a lossy signaling path.

use std::collections::{HashSet, VecDeque};

use vstd::prelude::*;

use crate::table::Table;
use crate::types::NodeId;

verus! {

broadcast use vstd::std_specs::hash::group_hash_axioms;

/// Most nodes that each of the tables keeps.
pub const MAX_NEGOTIATION_NODES: usize = 256;

/// Most transactions kept for one node.
pub const MAX_NEGOTIATIONS_PER_NODE: usize = 64;

/// How often an unacknowledged negotiation message is sent again.
pub const NEGOTIATION_RETRIES: usize = 4;

/// How long to wait before a negotiation message is sent for the `retry`-th
/// time again, counted from 0.
pub open spec fn negotiation_retry_delay(retry: int) -> u32 {
    if retry <= 0 {
        300
    } else if retry == 1 {
        700
    } else if retry == 2 {
        1500
    } else {
        3000
    }
}

pub fn negotiation_retry_delay_ms(retry: usize) -> (delay: u32)
    ensures
        delay == negotiation_retry_delay(retry as int),
{
    match retry {
        0 => 300,
        1 => 700,
        2 => 1500,
        _ => 3000,
    }
}

#[derive(Debug, Clone, Copy, PartialEq, Eq, Structural)]
pub enum TrackStatus {
    New,
    AlreadyTracked,
    AtCapacity,
}

/// What is known about the delivery of negotiation messages.
#[verifier::ext_equal]
pub struct NegotiationModel {
    /// Sent and not acknowledged yet.
    pub pending: Map<Seq<char>, Set<u64>>,
    /// The newest transactions that were received, oldest first.
    pub received: Map<Seq<char>, Seq<u64>>,
}

/// The transactions to `node` that are not acknowledged yet.
pub open spec fn pending_for(model: NegotiationModel, node: Seq<char>) -> Set<u64> {
    if model.pending.dom().contains(node) {
        model.pending[node]
    } else {
        Set::empty()
    }
}

/// The transactions that were received from `node`.
pub open spec fn received_from(model: NegotiationModel, node: Seq<char>) -> Seq<u64> {
    if model.received.dom().contains(node) {
        model.received[node]
    } else {
        Seq::empty()
    }
}

/// What always holds: both tables are bounded, in nodes and per node, and
/// nothing empty is kept.
pub open spec fn negotiation_invariant(model: NegotiationModel) -> bool {
    &&& model.pending.dom().finite() && model.pending.len() <= MAX_NEGOTIATION_NODES
    &&& model.received.dom().finite() && model.received.len() <= MAX_NEGOTIATION_NODES
    &&& forall|node: Seq<char>| #[trigger]
        model.pending.dom().contains(node) ==> model.pending[node].finite() && 0
            < model.pending[node].len() <= MAX_NEGOTIATIONS_PER_NODE
    &&& forall|node: Seq<char>| #[trigger]
        model.received.dom().contains(node) ==> model.received[node].no_duplicates() && 0
            < model.received[node].len() <= MAX_NEGOTIATIONS_PER_NODE
}

/// The history after one more transaction: the oldest one makes room.
pub open spec fn remembered(history: Seq<u64>, id: u64) -> Seq<u64> {
    if history.len() >= MAX_NEGOTIATIONS_PER_NODE {
        history.drop_first().push(id)
    } else {
        history.push(id)
    }
}

/// The transactions after one of them is retired; a node without transactions
/// is forgotten.
pub open spec fn retired(pending: Map<Seq<char>, Set<u64>>, node: Seq<char>, id: u64) -> Map<
    Seq<char>,
    Set<u64>,
> {
    if pending.dom().contains(node) {
        let left = pending[node].remove(id);
        if left.is_empty() {
            pending.remove(node)
        } else {
            pending.insert(node, left)
        }
    } else {
        pending
    }
}

fn has_id(history: &VecDeque<u64>, id: u64) -> (found: bool)
    ensures
        found == history@.contains(id),
{
    let mut i: usize = 0;
    while i < history.len()
        invariant
            i <= history@.len(),
            forall|j: int| 0 <= j < i ==> history@[j] != id,
        decreases history@.len() - i,
    {
        if history[i] == id {
            assert(history@[i as int] == id);
            return true;
        }
        i = i + 1;
    }
    false
}

/// Delivery bookkeeping of one transport.
pub struct NegotiationDelivery {
    pending: Table<NodeId, HashSet<u64>>,
    received: Table<NodeId, VecDeque<u64>>,
}

impl View for NegotiationDelivery {
    type V = NegotiationModel;

    closed spec fn view(&self) -> NegotiationModel {
        NegotiationModel {
            pending: self.pending@.map_values(|ids: HashSet<u64>| ids@),
            received: self.received@.map_values(|ids: VecDeque<u64>| ids@),
        }
    }
}

impl Default for NegotiationDelivery {
    fn default() -> (delivery: Self)
        ensures
            delivery@ == (NegotiationModel { pending: Map::empty(), received: Map::empty() }),
            negotiation_invariant(delivery@),
    {
        NegotiationDelivery::empty()
    }
}

impl NegotiationDelivery {
    #[verifier::type_invariant]
    spec fn consistent(self) -> bool {
        negotiation_invariant(self@)
    }

    fn empty() -> (delivery: Self)
        ensures
            delivery@ == (NegotiationModel { pending: Map::empty(), received: Map::empty() }),
            negotiation_invariant(delivery@),
    {
        let pending: Table<NodeId, HashSet<u64>> = Table::new();
        let received: Table<NodeId, VecDeque<u64>> = Table::new();
        proof {
            assert(pending@.map_values(|ids: HashSet<u64>| ids@) =~= Map::empty());
            assert(received@.map_values(|ids: VecDeque<u64>| ids@) =~= Map::empty());
        }
        NegotiationDelivery { pending, received }
    }

    /// Starts to track a message that is about to be sent.
    pub fn track(&mut self, node: NodeId, id: u64) -> (status: TrackStatus)
        ensures
            status == if pending_for(old(self)@, node@).contains(id) {
                TrackStatus::AlreadyTracked
            } else if (!old(self)@.pending.dom().contains(node@) && old(self)@.pending.len()
                >= MAX_NEGOTIATION_NODES) || pending_for(old(self)@, node@).len()
                >= MAX_NEGOTIATIONS_PER_NODE {
                TrackStatus::AtCapacity
            } else {
                TrackStatus::New
            },
            status != TrackStatus::New ==> final(self)@ == old(self)@,
            status == TrackStatus::New ==> final(self)@ == (NegotiationModel {
                pending: old(self)@.pending.insert(
                    node@,
                    pending_for(old(self)@, node@).insert(id),
                ),
                ..old(self)@
            }),
            negotiation_invariant(final(self)@),
    {
        proof {
            use_type_invariant(&*self);
        }
        assert(self@.pending.dom() =~= self.pending@.dom());
        match self.pending.get(&node) {
            Some(ids) => {
                if ids.contains(&id) {
                    return TrackStatus::AlreadyTracked;
                }
                if ids.len() >= MAX_NEGOTIATIONS_PER_NODE {
                    return TrackStatus::AtCapacity;
                }
            },
            None => {
                if self.pending.len() >= MAX_NEGOTIATION_NODES {
                    return TrackStatus::AtCapacity;
                }
            },
        }
        let mut taken = NegotiationDelivery::empty();
        std::mem::swap(self, &mut taken);
        let NegotiationDelivery { pending: mut pending, received } = taken;
        let mut ids = match pending.remove(&node) {
            Some(ids) => ids,
            None => HashSet::new(),
        };
        let _ = ids.insert(id);
        let _ = pending.insert(node, ids);
        proof {
            assert(pending@.map_values(|ids: HashSet<u64>| ids@) =~= old(self)@.pending.insert(
                node@,
                pending_for(old(self)@, node@).insert(id),
            ));
        }
        *self = NegotiationDelivery { pending, received };
        TrackStatus::New
    }

    /// Whether a message was sent and not acknowledged yet.
    pub fn contains(&self, node: &NodeId, id: u64) -> (open: bool)
        ensures
            open == pending_for(self@, node@).contains(id),
    {
        match self.pending.get(node) {
            Some(ids) => ids.contains(&id),
            None => false,
        }
    }

    /// Retires a transaction. Returns whether it was still open.
    pub fn acknowledge(&mut self, node: &NodeId, id: u64) -> (removed: bool)
        ensures
            removed == pending_for(old(self)@, node@).contains(id),
            final(self)@ == (NegotiationModel {
                pending: retired(old(self)@.pending, node@, id),
                ..old(self)@
            }),
            negotiation_invariant(final(self)@),
    {
        proof {
            use_type_invariant(&*self);
        }
        assert(self@.pending.dom() =~= self.pending@.dom());
        if !self.pending.contains_key(node) {
            return false;
        }
        let mut taken = NegotiationDelivery::empty();
        std::mem::swap(self, &mut taken);
        let NegotiationDelivery { pending: mut pending, received } = taken;
        let mut removed = false;
        if let Some(mut ids) = pending.remove(node) {
            removed = ids.remove(&id);
            if !ids.is_empty() {
                let _ = pending.insert(node.clone(), ids);
            }
        }
        proof {
            assert(pending@.map_values(|ids: HashSet<u64>| ids@) =~= retired(
                old(self)@.pending,
                node@,
                id,
            ));
            let left = old(self)@.pending[node@].remove(id);
            if !left.is_empty() {
                let some = choose|some: u64| left.contains(some);
                assert(left.len() > 0);
            }
        }
        *self = NegotiationDelivery { pending, received };
        removed
    }

    /// Gives up on a transaction. Returns whether it was still open.
    pub fn expire(&mut self, node: &NodeId, id: u64) -> (removed: bool)
        ensures
            removed == pending_for(old(self)@, node@).contains(id),
            final(self)@ == (NegotiationModel {
                pending: retired(old(self)@.pending, node@, id),
                ..old(self)@
            }),
            negotiation_invariant(final(self)@),
    {
        self.acknowledge(node, id)
    }

    /// Whether a transaction is among the newest ones received from a node.
    pub fn is_received(&self, node: &NodeId, id: u64) -> (seen: bool)
        ensures
            seen == received_from(self@, node@).contains(id),
    {
        match self.received.get(node) {
            Some(ids) => has_id(ids, id),
            None => false,
        }
    }

    /// Records a transaction that was handled. Returns whether it was recorded:
    /// it is not if it is known already or no room is left for the node.
    pub fn remember_received(&mut self, node: NodeId, id: u64) -> (recorded: bool)
        ensures
            recorded == (!received_from(old(self)@, node@).contains(id) && (
            old(self)@.received.dom().contains(node@) || old(self)@.received.len()
                < MAX_NEGOTIATION_NODES)),
            !recorded ==> final(self)@ == old(self)@,
            recorded ==> final(self)@ == (NegotiationModel {
                received: old(self)@.received.insert(
                    node@,
                    remembered(received_from(old(self)@, node@), id),
                ),
                ..old(self)@
            }),
            negotiation_invariant(final(self)@),
    {
        proof {
            use_type_invariant(&*self);
        }
        assert(self@.received.dom() =~= self.received@.dom());
        if self.is_received(&node, id) {
            return false;
        }
        if !self.received.contains_key(&node) && self.received.len() >= MAX_NEGOTIATION_NODES {
            return false;
        }
        let mut taken = NegotiationDelivery::empty();
        std::mem::swap(self, &mut taken);
        let NegotiationDelivery { pending, received: mut received } = taken;
        let mut ids = match received.remove(&node) {
            Some(ids) => ids,
            None => VecDeque::new(),
        };
        let ghost history = ids@;
        if ids.len() >= MAX_NEGOTIATIONS_PER_NODE {
            let _ = ids.pop_front();
            assert(ids@ =~= history.drop_first());
        }
        ids.push_back(id);
        let _ = received.insert(node, ids);
        proof {
            assert(history =~= received_from(old(self)@, node@));
            assert(received@.map_values(|ids: VecDeque<u64>| ids@) =~= old(self)@.received.insert(
                node@,
                remembered(history, id),
            ));
            assert(remembered(history, id).no_duplicates());
        }
        *self = NegotiationDelivery { pending, received };
        true
    }

    /// Forgets everything about a node.
    pub fn remove_node(&mut self, node: &NodeId)
        ensures
            final(self)@ == (NegotiationModel {
                pending: old(self)@.pending.remove(node@),
                received: old(self)@.received.remove(node@),
            }),
            negotiation_invariant(final(self)@),
    {
        proof {
            use_type_invariant(&*self);
        }
        let mut taken = NegotiationDelivery::empty();
        std::mem::swap(self, &mut taken);
        let NegotiationDelivery { pending: mut pending, received: mut received } = taken;
        let _ = pending.remove(node);
        let _ = received.remove(node);
        proof {
            assert(pending@.map_values(|ids: HashSet<u64>| ids@) =~= old(self)@.pending.remove(
                node@,
            ));
            assert(received@.map_values(|ids: VecDeque<u64>| ids@) =~= old(self)@.received.remove(
                node@,
            ));
        }
        *self = NegotiationDelivery { pending, received };
    }

    pub fn clear(&mut self)
        ensures
            final(self)@ == (NegotiationModel { pending: Map::empty(), received: Map::empty() }),
    {
        *self = NegotiationDelivery::empty();
    }

    /// How many transactions to a node are not acknowledged yet.
    pub fn pending_count(&self, node: &NodeId) -> (count: usize)
        ensures
            count == pending_for(self@, node@).len(),
    {
        match self.pending.get(node) {
            Some(ids) => ids.len(),
            None => 0,
        }
    }
}

/// An acknowledgement retires only the transaction it names.
pub proof fn lemma_ack_retires_only_its_transaction(
    model: NegotiationModel,
    node: Seq<char>,
    id: u64,
    other_node: Seq<char>,
    other_id: u64,
)
    ensures
        pending_for(
            NegotiationModel { pending: retired(model.pending, node, id), ..model },
            other_node,
        ).contains(other_id) <==> pending_for(model, other_node).contains(other_id) && !(other_node
            == node && other_id == id),
{
    if model.pending.dom().contains(node) {
        let left = model.pending[node].remove(id);
        if left.is_empty() && model.pending[node].contains(other_id) && other_id != id {
            assert(left.contains(other_id));
        }
    }
}

/// A transaction that was recorded is recognised, together with the newest
/// ones before it.
pub proof fn lemma_history_keeps_the_newest(history: Seq<u64>, id: u64)
    ensures
        remembered(history, id).contains(id),
        forall|i: int|
            0 < i < history.len() ==> #[trigger] remembered(history, id).contains(history[i]),
{
    let next = remembered(history, id);
    assert(next[next.len() - 1] == id);
    assert forall|i: int| 0 < i < history.len() implies #[trigger] next.contains(history[i]) by {
        if history.len() >= MAX_NEGOTIATIONS_PER_NODE {
            assert(next[i - 1] == history[i]);
        } else {
            assert(next[i] == history[i]);
        }
    }
}

/// A history never outgrows its limit and drops only its oldest transaction, and
/// only when it is full.
pub proof fn lemma_history_drops_only_the_oldest(history: Seq<u64>, id: u64)
    requires
        history.len() <= MAX_NEGOTIATIONS_PER_NODE,
    ensures
        remembered(history, id).len() <= MAX_NEGOTIATIONS_PER_NODE,
        remembered(history, id).last() == id,
        history.len() < MAX_NEGOTIATIONS_PER_NODE ==> remembered(history, id).drop_last()
            == history,
        history.len() == MAX_NEGOTIATIONS_PER_NODE ==> remembered(history, id).drop_last()
            == history.drop_first(),
{
    if history.len() < MAX_NEGOTIATIONS_PER_NODE {
        assert(remembered(history, id).drop_last() =~= history);
    } else {
        assert(remembered(history, id).drop_last() =~= history.drop_first());
    }
}

/// Of a node that is not on record nothing is open and nothing was received.
pub proof fn lemma_unknown_nodes_have_no_transactions(model: NegotiationModel, node: Seq<char>)
    ensures
        !model.pending.dom().contains(node) ==> pending_for(model, node) == Set::<u64>::empty(),
        model.pending.dom().contains(node) ==> pending_for(model, node) == model.pending[node],
        !model.received.dom().contains(node) ==> received_from(model, node) == Seq::<u64>::empty(),
        model.received.dom().contains(node) ==> received_from(model, node) == model.received[node],
{
}

/// Negotiation messages are repeated in the same rhythm as candidates are: each
/// retry waits at least twice as long as the one before it, and all of them
/// together end before an attempt to connect does.
pub proof fn lemma_negotiation_retries_back_off(retry: int)
    ensures
        0 <= retry < 3 ==> 2 * negotiation_retry_delay(retry) <= negotiation_retry_delay(retry + 1),
        retry >= 3 ==> negotiation_retry_delay(retry) == negotiation_retry_delay(3),
        negotiation_retry_delay(retry) == super::candidate_delivery::candidate_retry_delay(retry),
        NEGOTIATION_RETRIES == super::candidate_delivery::CANDIDATE_RETRIES,
        negotiation_retry_delay(0) + negotiation_retry_delay(1) + negotiation_retry_delay(2)
            + negotiation_retry_delay(3) < super::CONNECTION_TIMEOUT_MS,
{
}

} // verus!
