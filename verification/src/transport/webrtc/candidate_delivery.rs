//! Delivery of ICE candidates over a lossy signaling path.
//!
//! A candidate carries a sequence number within its generation. The sender
//! keeps a bitmap of the sequences that are not acknowledged yet; the receiver
//! remembers what it has seen and acknowledges in batches.

use vstd::prelude::*;

use crate::table::{
    distinct_keys, entries_map, lemma_entries_at, lemma_entries_dom, Table, TableKey,
};
use crate::types::NodeId;

verus! {

/// Sequences per generation: one bit each.
pub const MAX_TRACKED_CANDIDATES_PER_NODE: usize = 64;

/// Most generations, over all nodes, that each of the tables keeps.
pub const MAX_TRACKED_CANDIDATE_NODES: usize = 256;

/// How long acknowledgements are collected before they are sent.
pub const CANDIDATE_ACK_DEBOUNCE_MS: u32 = 50;

/// How often an unacknowledged candidate is sent again.
pub const CANDIDATE_RETRIES: usize = 4;

/// How long to wait before a candidate is sent for the `retry`-th time again,
/// counted from 0.
pub open spec fn candidate_retry_delay(retry: int) -> u32 {
    if retry <= 0 {
        300
    } else if retry == 1 {
        700
    } else if retry == 2 {
        1500
    } else {
        3000
    }
}

pub fn candidate_retry_delay_ms(retry: usize) -> (delay: u32)
    ensures
        delay == candidate_retry_delay(retry as int),
{
    match retry {
        0 => 300,
        1 => 700,
        2 => 1500,
        _ => 3000,
    }
}

/// Acknowledgement of a set of sequences of one generation.
#[derive(Debug, Clone, Copy, PartialEq, Eq, Structural)]
pub struct CandidateAck {
    pub generation: u32,
    pub mask: u64,
}

#[derive(Debug, Clone, Copy, PartialEq, Eq, Structural)]
pub enum TrackStatus {
    New,
    AlreadyTracked,
    AtCapacity,
}

#[derive(Debug, Clone, Copy, PartialEq, Eq, Structural)]
pub struct ReceiveStatus {
    pub is_new: bool,
    pub schedule_ack: bool,
}

/// The bit of a sequence, for sequences that have one.
pub open spec fn bit_of(sequence: u8) -> Option<u64> {
    if sequence < 64 {
        Some(1u64 << sequence)
    } else {
        None
    }
}

/// Whether a bitmap holds a sequence.
pub open spec fn holds(mask: u64, sequence: u8) -> bool {
    bit_of(sequence) is Some && mask & bit_of(sequence)->Some_0 != 0
}

/// How many of the sequences below `bound` a bitmap holds.
pub open spec fn held_below(mask: u64, bound: nat) -> nat
    decreases bound,
{
    if bound == 0 {
        0
    } else {
        held_below(mask, (bound - 1) as nat) + if holds(mask, (bound - 1) as u8) {
            1nat
        } else {
            0nat
        }
    }
}

/// How many sequences a bitmap holds.
pub open spec fn held(mask: u64) -> nat {
    held_below(mask, 64)
}

fn candidate_bit(sequence: u8) -> (bit: Option<u64>)
    ensures
        bit == bit_of(sequence),
{
    if sequence < 64 {
        Some(1u64 << sequence)
    } else {
        None
    }
}

fn count_held(mask: u64) -> (count: usize)
    ensures
        count == held(mask),
{
    let mut count: usize = 0;
    let mut sequence: u8 = 0;
    while sequence < 64
        invariant
            sequence <= 64,
            count <= sequence,
            count == held_below(mask, sequence as nat),
        decreases 64 - sequence,
    {
        if mask & (1u64 << sequence) != 0 {
            count = count + 1;
        }
        sequence = sequence + 1;
    }
    count
}

/// The bitmap kept for a generation, empty if there is none.
pub open spec fn mask_of(masks: Map<(Seq<char>, u32), u64>, key: (Seq<char>, u32)) -> u64 {
    if masks.dom().contains(key) {
        masks[key]
    } else {
        0
    }
}

/// The bitmaps after some bits of one generation are cleared; a generation
/// without bits is forgotten.
pub open spec fn without_bits(
    masks: Map<(Seq<char>, u32), u64>,
    key: (Seq<char>, u32),
    bits: u64,
) -> Map<(Seq<char>, u32), u64> {
    let left = mask_of(masks, key) & !bits;
    if left == 0 {
        masks.remove(key)
    } else {
        masks.insert(key, left)
    }
}

/// The bitmaps without those of a node.
pub open spec fn without_node(masks: Map<(Seq<char>, u32), u64>, node: Seq<char>) -> Map<
    (Seq<char>, u32),
    u64,
> {
    masks.filter_keys(|key: (Seq<char>, u32)| key.0 != node)
}

/// What is known about the delivery of candidates, by node and generation.
#[verifier::ext_equal]
pub struct CandidateModel {
    /// Sent and not acknowledged yet.
    pub pending: Map<(Seq<char>, u32), u64>,
    /// Received at least once.
    pub received: Map<(Seq<char>, u32), u64>,
    /// Received and still to be acknowledged.
    pub ack_pending: Map<(Seq<char>, u32), u64>,
}

/// What always holds: the tables are bounded, nothing empty is kept, and only
/// what was received is acknowledged.
pub open spec fn delivery_invariant(model: CandidateModel) -> bool {
    &&& model.pending.dom().finite() && model.pending.len() <= MAX_TRACKED_CANDIDATE_NODES
    &&& model.received.dom().finite() && model.received.len() <= MAX_TRACKED_CANDIDATE_NODES
    &&& forall|key: (Seq<char>, u32)| #[trigger]
        model.pending.dom().contains(key) ==> model.pending[key] != 0
    &&& forall|key: (Seq<char>, u32)| #[trigger]
        model.ack_pending.dom().contains(key) ==> {
            &&& model.ack_pending[key] != 0
            &&& model.received.dom().contains(key)
            &&& model.ack_pending[key] & !model.received[key] == 0
        }
}

#[derive(Debug)]
struct DeliveryKey {
    node: NodeId,
    generation: u32,
}

impl TableKey for DeliveryKey {
    type Model = (Seq<char>, u32);

    closed spec fn model(&self) -> (Seq<char>, u32) {
        (self.node@, self.generation)
    }

    fn same_key(&self, other: &Self) -> (same: bool) {
        self.generation == other.generation && self.node.same(&other.node)
    }
}

fn copy_key(key: &DeliveryKey) -> (copy: DeliveryKey)
    ensures
        copy == *key,
{
    DeliveryKey { node: key.node.clone(), generation: key.generation }
}

fn stored_mask(masks: &Table<DeliveryKey, u64>, key: &DeliveryKey) -> (mask: u64)
    ensures
        mask == mask_of(masks@, key.model()),
{
    match masks.get(key) {
        Some(mask) => *mask,
        None => 0,
    }
}

proof fn lemma_without_bits(masks: Map<(Seq<char>, u32), u64>, key: (Seq<char>, u32), bits: u64)
    requires
        masks.dom().finite(),
        forall|k: (Seq<char>, u32)| #[trigger] masks.dom().contains(k) ==> masks[k] != 0,
    ensures
        without_bits(masks, key, bits).dom().finite(),
        without_bits(masks, key, bits).len() <= masks.len(),
        forall|k: (Seq<char>, u32)| #[trigger]
            without_bits(masks, key, bits).dom().contains(k) ==> without_bits(masks, key, bits)[k]
                != 0,
{
    assert(0u64 & !bits == 0) by (bit_vector);
}

fn clear_bits(masks: &mut Table<DeliveryKey, u64>, key: DeliveryKey, bits: u64)
    ensures
        final(masks)@ == without_bits(old(masks)@, key.model(), bits),
{
    let left: u64 = stored_mask(masks, &key) & !bits;
    if left == 0 {
        let _ = masks.remove(&key);
    } else {
        let _ = masks.insert(key, left);
    }
}

fn forget_node<V>(table: &mut Table<DeliveryKey, V>, node: &NodeId)
    ensures
        final(table)@ == old(table)@.filter_keys(|key: (Seq<char>, u32)| key.0 != node@),
{
    let ghost whole = table@;
    let mut entries = table.take_entries();
    let ghost wanted = |key: (Seq<char>, u32)| key.0 != node@;
    proof {
        lemma_entries_dom(entries@);
    }
    while entries.len() > 0
        invariant
            distinct_keys(entries@),
            wanted == (|key: (Seq<char>, u32)| key.0 != node@),
            forall|key: (Seq<char>, u32)| #[trigger]
                entries_map(entries@).dom().contains(key) ==> whole.dom().contains(key)
                    && entries_map(entries@)[key] == whole[key],
            forall|key: (Seq<char>, u32)| #[trigger]
                table@.dom().contains(key) <==> whole.dom().contains(key) && wanted(key)
                    && !entries_map(entries@).dom().contains(key),
            forall|key: (Seq<char>, u32)| #[trigger]
                table@.dom().contains(key) ==> table@[key] == whole[key],
        decreases entries@.len(),
    {
        let ghost held = entries@;
        if let Some((key, value)) = entries.pop() {
            proof {
                let k = key.model();
                let rest = entries@;
                assert(rest =~= held.drop_last());
                lemma_entries_at(held, held.len() - 1);
                lemma_entries_dom(rest);
                lemma_entries_dom(held);
                assert forall|a: int, b: int|
                    #![trigger rest[a], rest[b]]
                    0 <= a < b < rest.len() implies rest[a].0.model() != rest[b].0.model() by {
                    assert(rest[a] == held[a] && rest[b] == held[b]);
                }
                if entries_map(rest).dom().contains(k) {
                    let i = choose|i: int|
                        0 <= i < rest.len() && (#[trigger] rest[i]).0.model() == k;
                    assert(rest[i] == held[i]);
                    assert(held[held.len() - 1].0.model() == k);
                }
                assert(entries_map(held) == entries_map(rest).insert(k, value));
                assert forall|other: (Seq<char>, u32)| #[trigger]
                    entries_map(rest).dom().contains(other) implies whole.dom().contains(other)
                    && entries_map(rest)[other] == whole[other] by {
                    assert(entries_map(held).dom().contains(other));
                }
                assert(entries_map(held).dom().contains(k));
            }
            if !key.node.same(node) {
                let _ = table.insert(key, value);
            }
        }
    }
    assert(table@ =~= whole.filter_keys(|key: (Seq<char>, u32)| key.0 != node@));
}

/// Delivery bookkeeping of one transport.
pub struct CandidateDelivery {
    pending: Table<DeliveryKey, u64>,
    received: Table<DeliveryKey, u64>,
    ack_pending: Table<DeliveryKey, u64>,
    ack_scheduled: Table<DeliveryKey, ()>,
}

impl View for CandidateDelivery {
    type V = CandidateModel;

    closed spec fn view(&self) -> CandidateModel {
        CandidateModel {
            pending: self.pending@,
            received: self.received@,
            ack_pending: self.ack_pending@,
        }
    }
}

impl Default for CandidateDelivery {
    fn default() -> (delivery: Self)
        ensures
            delivery@ == (CandidateModel {
                pending: Map::empty(),
                received: Map::empty(),
                ack_pending: Map::empty(),
            }),
            delivery_invariant(delivery@),
    {
        CandidateDelivery {
            pending: Table::new(),
            received: Table::new(),
            ack_pending: Table::new(),
            ack_scheduled: Table::new(),
        }
    }
}

impl CandidateDelivery {
    #[verifier::type_invariant]
    spec fn consistent(self) -> bool {
        &&& delivery_invariant(self@)
        &&& self.ack_scheduled@.dom() == self.ack_pending@.dom()
    }

    /// Starts to track a candidate that is about to be sent.
    pub fn track(&mut self, node: NodeId, generation: u32, sequence: u8) -> (status: TrackStatus)
        ensures
            status == ({
                let key = (node@, generation);
                if sequence >= 64 {
                    TrackStatus::AtCapacity
                } else if holds(mask_of(old(self)@.pending, key), sequence) {
                    TrackStatus::AlreadyTracked
                } else if !old(self)@.pending.dom().contains(key) && old(self)@.pending.len()
                    >= MAX_TRACKED_CANDIDATE_NODES {
                    TrackStatus::AtCapacity
                } else {
                    TrackStatus::New
                }
            }),
            status != TrackStatus::New ==> final(self)@ == old(self)@,
            status == TrackStatus::New ==> final(self)@ == (CandidateModel {
                pending: old(self)@.pending.insert(
                    (node@, generation),
                    mask_of(old(self)@.pending, (node@, generation)) | bit_of(sequence)->Some_0,
                ),
                ..old(self)@
            }),
            delivery_invariant(final(self)@),
    {
        proof {
            use_type_invariant(&*self);
        }
        let bit: u64 = match candidate_bit(sequence) {
            Some(bit) => bit,
            None => {
                return TrackStatus::AtCapacity;
            },
        };
        let key = DeliveryKey { node, generation };
        let mask: u64 = stored_mask(&self.pending, &key);
        proof {
            assert(0u64 & bit == 0) by (bit_vector);
        }
        if mask & bit != 0 {
            return TrackStatus::AlreadyTracked;
        }
        if !self.pending.contains_key(&key) && self.pending.len() >= MAX_TRACKED_CANDIDATE_NODES {
            return TrackStatus::AtCapacity;
        }
        proof {
            assert(mask | (1u64 << sequence) != 0) by (bit_vector)
                requires
                    sequence < 64,
            ;
        }
        let mut pending: Table<DeliveryKey, u64> = Table::new();
        std::mem::swap(&mut pending, &mut self.pending);
        let _ = pending.insert(key, mask | bit);
        self.pending = pending;
        TrackStatus::New
    }

    /// Whether a candidate was sent and not acknowledged yet.
    pub fn contains(&self, node: &NodeId, generation: u32, sequence: u8) -> (open: bool)
        ensures
            open == holds(mask_of(self@.pending, (node@, generation)), sequence),
    {
        let bit: u64 = match candidate_bit(sequence) {
            Some(bit) => bit,
            None => {
                return false;
            },
        };
        let key = DeliveryKey { node: node.clone(), generation };
        stored_mask(&self.pending, &key) & bit != 0
    }

    /// Retires the acknowledged candidates and returns how many there were.
    pub fn acknowledge(&mut self, node: &NodeId, ack: &CandidateAck) -> (retired: usize)
        ensures
            final(self)@ == (CandidateModel {
                pending: without_bits(old(self)@.pending, (node@, ack.generation), ack.mask),
                ..old(self)@
            }),
            retired == held(mask_of(old(self)@.pending, (node@, ack.generation)) & ack.mask),
            delivery_invariant(final(self)@),
    {
        proof {
            use_type_invariant(&*self);
        }
        let key = DeliveryKey { node: node.clone(), generation: ack.generation };
        let mask: u64 = stored_mask(&self.pending, &key);
        let retired: usize = count_held(mask & ack.mask);
        let mut pending: Table<DeliveryKey, u64> = Table::new();
        std::mem::swap(&mut pending, &mut self.pending);
        proof {
            lemma_without_bits(pending@, key.model(), ack.mask);
        }
        clear_bits(&mut pending, key, ack.mask);
        self.pending = pending;
        retired
    }

    /// Records a received candidate and queues it for acknowledgement. A
    /// repeated one is acknowledged again but is not new.
    pub fn remember_received(
        &mut self,
        node: NodeId,
        generation: u32,
        sequence: u8,
    ) -> (status: ReceiveStatus)
        ensures
            ({
                let key = (node@, generation);
                let seen = mask_of(old(self)@.received, key);
                let is_new = !holds(seen, sequence);
                let refused = sequence >= 64 || (is_new && !old(self)@.received.dom().contains(key)
                    && old(self)@.received.len() >= MAX_TRACKED_CANDIDATE_NODES);
                if refused {
                    &&& status == (ReceiveStatus { is_new: true, schedule_ack: false })
                    &&& final(self)@ == old(self)@
                } else {
                    &&& status == (ReceiveStatus {
                        is_new,
                        schedule_ack: !old(self)@.ack_pending.dom().contains(key),
                    })
                    &&& final(self)@ == (CandidateModel {
                        received: if is_new {
                            old(self)@.received.insert(key, seen | bit_of(sequence)->Some_0)
                        } else {
                            old(self)@.received
                        },
                        ack_pending: old(self)@.ack_pending.insert(
                            key,
                            mask_of(old(self)@.ack_pending, key) | bit_of(sequence)->Some_0,
                        ),
                        ..old(self)@
                    })
                }
            }),
            delivery_invariant(final(self)@),
    {
        proof {
            use_type_invariant(&*self);
        }
        let bit: u64 = match candidate_bit(sequence) {
            Some(bit) => bit,
            None => {
                return ReceiveStatus { is_new: true, schedule_ack: false };
            },
        };
        let key = DeliveryKey { node, generation };
        let seen: u64 = stored_mask(&self.received, &key);
        let waiting: u64 = stored_mask(&self.ack_pending, &key);
        let is_new = seen & bit == 0;
        if is_new && !self.received.contains_key(&key) && self.received.len()
            >= MAX_TRACKED_CANDIDATE_NODES {
            return ReceiveStatus { is_new: true, schedule_ack: false };
        }
        proof {
            assert(waiting & !seen == 0 ==> (waiting | (1u64 << sequence)) & !(seen | (1u64
                << sequence)) == 0) by (bit_vector);
            assert(waiting & !seen == 0 && seen & (1u64 << sequence) != 0 && sequence < 64 ==> (
            waiting | (1u64 << sequence)) & !seen == 0) by (bit_vector);
            assert(sequence < 64 ==> waiting | (1u64 << sequence) != 0) by (bit_vector);
            assert(0u64 & !seen == 0) by (bit_vector);
            assert(0u64 & (1u64 << sequence) == 0) by (bit_vector);
        }
        let mut taken = CandidateDelivery::default();
        std::mem::swap(self, &mut taken);
        let CandidateDelivery {
            pending,
            received: mut received,
            ack_pending: mut ack_pending,
            ack_scheduled: mut ack_scheduled,
        } = taken;
        if is_new {
            let _ = received.insert(copy_key(&key), seen | bit);
        }
        let _ = ack_pending.insert(copy_key(&key), waiting | bit);
        let schedule_ack = ack_scheduled.insert(key, ()).is_none();
        *self = CandidateDelivery { pending, received, ack_pending, ack_scheduled };
        ReceiveStatus { is_new, schedule_ack }
    }

    /// Hands out the acknowledgement that is due for a generation.
    pub fn take_ack(&mut self, node: &NodeId, generation: u32) -> (ack: Option<CandidateAck>)
        ensures
            final(self)@ == (CandidateModel {
                ack_pending: old(self)@.ack_pending.remove((node@, generation)),
                ..old(self)@
            }),
            ack == if old(self)@.ack_pending.dom().contains((node@, generation)) {
                Some(
                    CandidateAck {
                        generation,
                        mask: old(self)@.ack_pending[(node@, generation)],
                    },
                )
            } else {
                None
            },
            delivery_invariant(final(self)@),
    {
        proof {
            use_type_invariant(&*self);
        }
        let key = DeliveryKey { node: node.clone(), generation };
        let mut taken = CandidateDelivery::default();
        std::mem::swap(self, &mut taken);
        let CandidateDelivery {
            pending,
            received,
            ack_pending: mut ack_pending,
            ack_scheduled: mut ack_scheduled,
        } = taken;
        let _ = ack_scheduled.remove(&key);
        let mask = ack_pending.remove(&key);
        *self = CandidateDelivery { pending, received, ack_pending, ack_scheduled };
        match mask {
            Some(mask) => Some(CandidateAck { generation, mask }),
            None => None,
        }
    }

    /// Gives up on a candidate. Returns whether it was still unacknowledged.
    pub fn expire(&mut self, node: &NodeId, generation: u32, sequence: u8) -> (expired: bool)
        ensures
            expired == holds(mask_of(old(self)@.pending, (node@, generation)), sequence),
            final(self)@ == (CandidateModel {
                pending: match bit_of(sequence) {
                    Some(bit) => without_bits(old(self)@.pending, (node@, generation), bit),
                    None => old(self)@.pending,
                },
                ..old(self)@
            }),
            delivery_invariant(final(self)@),
    {
        proof {
            use_type_invariant(&*self);
        }
        let bit: u64 = match candidate_bit(sequence) {
            Some(bit) => bit,
            None => {
                return false;
            },
        };
        let key = DeliveryKey { node: node.clone(), generation };
        let expired = stored_mask(&self.pending, &key) & bit != 0;
        let mut pending: Table<DeliveryKey, u64> = Table::new();
        std::mem::swap(&mut pending, &mut self.pending);
        proof {
            lemma_without_bits(pending@, key.model(), bit);
        }
        clear_bits(&mut pending, key, bit);
        self.pending = pending;
        expired
    }

    /// Forgets everything about a node, in every generation.
    pub fn remove_node(&mut self, node: &NodeId)
        ensures
            final(self)@ == (CandidateModel {
                pending: without_node(old(self)@.pending, node@),
                received: without_node(old(self)@.received, node@),
                ack_pending: without_node(old(self)@.ack_pending, node@),
            }),
            delivery_invariant(final(self)@),
    {
        proof {
            use_type_invariant(&*self);
        }
        let mut taken = CandidateDelivery::default();
        std::mem::swap(self, &mut taken);
        let CandidateDelivery {
            pending: mut pending,
            received: mut received,
            ack_pending: mut ack_pending,
            ack_scheduled: mut ack_scheduled,
        } = taken;
        forget_node(&mut pending, node);
        forget_node(&mut received, node);
        forget_node(&mut ack_pending, node);
        forget_node(&mut ack_scheduled, node);
        proof {
            vstd::set_lib::lemma_len_subset(pending@.dom(), old(self)@.pending.dom());
            vstd::set_lib::lemma_len_subset(received@.dom(), old(self)@.received.dom());
            assert(ack_scheduled@.dom() =~= ack_pending@.dom());
            assert forall|key: (Seq<char>, u32)| #[trigger]
                pending@.dom().contains(key) implies pending@[key] != 0 by {
                assert(old(self)@.pending.dom().contains(key));
            }
            assert forall|key: (Seq<char>, u32)| #[trigger]
                ack_pending@.dom().contains(key) implies {
                &&& ack_pending@[key] != 0
                &&& received@.dom().contains(key)
                &&& ack_pending@[key] & !received@[key] == 0
            } by {
                assert(old(self)@.ack_pending.dom().contains(key));
            }
        }
        *self = CandidateDelivery { pending, received, ack_pending, ack_scheduled };
    }

    pub fn clear(&mut self)
        ensures
            final(self)@ == (CandidateModel {
                pending: Map::empty(),
                received: Map::empty(),
                ack_pending: Map::empty(),
            }),
    {
        *self = CandidateDelivery::default();
    }

    /// How many candidates of a generation are not acknowledged yet.
    pub fn pending_count(&self, node: &NodeId, generation: u32) -> (count: usize)
        ensures
            count == held(mask_of(self@.pending, (node@, generation))),
    {
        let key = DeliveryKey { node: node.clone(), generation };
        count_held(stored_mask(&self.pending, &key))
    }
}

/// An acknowledgement retires exactly the sequences it names, in the
/// generation it names, and leaves every other one tracked.
pub proof fn lemma_ack_retires_only_named_sequences(
    pending: Map<(Seq<char>, u32), u64>,
    acked: (Seq<char>, u32),
    bits: u64,
    key: (Seq<char>, u32),
    sequence: u8,
)
    ensures
        holds(mask_of(without_bits(pending, acked, bits), key), sequence) <==> holds(
            mask_of(pending, key),
            sequence,
        ) && !(key == acked && holds(bits, sequence)),
{
    let mask = mask_of(pending, acked);
    if sequence < 64 {
        assert((mask & !bits) & (1u64 << sequence) != 0 <==> mask & (1u64 << sequence) != 0 && bits
            & (1u64 << sequence) == 0) by (bit_vector)
            requires
                sequence < 64,
        ;
        assert(0u64 & (1u64 << sequence) == 0) by (bit_vector);
    }
}

/// Every sequence has a place of its own in a bitmap.
pub proof fn lemma_sequences_do_not_share_bits(sequence: u8, other: u8)
    requires
        sequence < 64,
    ensures
        bit_of(sequence) is Some,
        holds(bit_of(sequence)->Some_0, other) <==> other == sequence,
        !holds(0, other),
        other >= 64 ==> bit_of(other) is None,
{
    assert(0u64 & (1u64 << other) == 0) by (bit_vector);
    if other < 64 {
        assert((1u64 << sequence) & (1u64 << other) != 0 <==> other == sequence) by (bit_vector)
            requires
                sequence < 64,
                other < 64,
        ;
    }
}

/// A sequence that is added to a bitmap is held from then on, and no other one is
/// affected.
pub proof fn lemma_adding_a_sequence_is_local(mask: u64, sequence: u8, other: u8)
    requires
        sequence < 64,
    ensures
        holds(mask | bit_of(sequence)->Some_0, other) <==> holds(mask, other) || other == sequence,
{
    if other < 64 {
        assert((mask | (1u64 << sequence)) & (1u64 << other) != 0 <==> mask & (1u64 << other) != 0
            || other == sequence) by (bit_vector)
            requires
                sequence < 64,
                other < 64,
        ;
    }
}

proof fn lemma_held_below_after_adding(mask: u64, sequence: u8, bound: nat)
    requires
        sequence < 64,
        bound <= 64,
        !holds(mask, sequence),
    ensures
        held_below(mask | bit_of(sequence)->Some_0, bound) == held_below(mask, bound) + if sequence
            < bound {
            1nat
        } else {
            0nat
        },
    decreases bound,
{
    if bound > 0 {
        lemma_held_below_after_adding(mask, sequence, (bound - 1) as nat);
        lemma_adding_a_sequence_is_local(mask, sequence, (bound - 1) as u8);
    }
}

proof fn lemma_nothing_held_below(bound: nat)
    requires
        bound <= 64,
    ensures
        held_below(0, bound) == 0,
    decreases bound,
{
    if bound > 0 {
        lemma_nothing_held_below((bound - 1) as nat);
        lemma_sequences_do_not_share_bits(0, (bound - 1) as u8);
    }
}

/// Every sequence that a bitmap holds counts as one.
pub proof fn lemma_held_sequences_are_counted(mask: u64, sequence: u8)
    requires
        sequence < 64,
    ensures
        held(0) == 0,
        !holds(mask, sequence) ==> held(mask | bit_of(sequence)->Some_0) == held(mask) + 1,
{
    lemma_nothing_held_below(64);
    if !holds(mask, sequence) {
        lemma_held_below_after_adding(mask, sequence, 64);
    }
}

/// Forgetting a node forgets all its generations and those of no other node.
pub proof fn lemma_forgetting_a_node_is_local(
    masks: Map<(Seq<char>, u32), u64>,
    node: Seq<char>,
    key: (Seq<char>, u32),
)
    ensures
        without_node(masks, node).dom().contains(key) <==> masks.dom().contains(key) && key.0
            != node,
        key.0 != node ==> mask_of(without_node(masks, node), key) == mask_of(masks, key),
        mask_of(masks.remove(key), key) == 0,
        masks.dom().contains(key) ==> mask_of(masks, key) == masks[key],
{
}

/// Retries come ever later: each waits at least twice as long as the one before
/// it, until the wait is as long as it gets, and all of them together end before
/// an attempt to connect does.
pub proof fn lemma_candidate_retries_back_off(retry: int)
    ensures
        0 <= retry < 3 ==> 2 * candidate_retry_delay(retry) <= candidate_retry_delay(retry + 1),
        retry >= 3 ==> candidate_retry_delay(retry) == candidate_retry_delay(3),
        candidate_retry_delay(0) == 300,
        candidate_retry_delay(0) + candidate_retry_delay(1) + candidate_retry_delay(2)
            + candidate_retry_delay(3) == 5500,
        candidate_retry_delay(1) + 800 == candidate_retry_delay(2),
        candidate_retry_delay(3) == 2 * candidate_retry_delay(2),
        CANDIDATE_RETRIES == 4,
        5500 < super::CONNECTION_TIMEOUT_MS,
{
}

} // verus!
