//! Bounded queue of reliable messages that wait for a peer to come back.

use std::collections::VecDeque;

use bytes::Bytes;
use vstd::prelude::*;

use crate::types::{ConnectionState, DeliveryMethod};

verus! {

/// Most messages that wait for one peer.
pub const MAX_QUEUED_MESSAGES: usize = 64;

/// Most bytes that wait for one peer.
pub const MAX_QUEUED_BYTES: usize = 256 * 1024;

/// `bytes::Bytes`, an immutable run of bytes.
#[verifier::external_type_specification]
#[verifier::external_body]
pub struct ExBytes(Bytes);

/// The bytes that a `bytes::Bytes` holds.
pub uninterp spec fn bytes_contents(data: Bytes) -> Seq<u8>;

/// `bytes::Bytes::len` returns the number of bytes held.
pub assume_specification[ Bytes::len ](data: &Bytes) -> (len: usize)
    ensures
        len == bytes_contents(*data).len(),
;

/// Whether a message is kept for later instead of failing: only reliable
/// messages are, and only while the peer can still come back.
pub fn should_queue_reliable_send(
    method: DeliveryMethod,
    peer_exists: bool,
    state: ConnectionState,
) -> (queue: bool)
    ensures
        queue == (peer_exists && method == DeliveryMethod::ReliableOrdered && (state
            == ConnectionState::Connecting || state == ConnectionState::Reconnecting)),
{
    peer_exists && method == DeliveryMethod::ReliableOrdered && (state
        == ConnectionState::Connecting || state == ConnectionState::Reconnecting)
}

/// Bytes held by a list of messages.
pub open spec fn total_len(messages: Seq<Seq<u8>>) -> nat
    decreases messages.len(),
{
    if messages.len() == 0 {
        0
    } else {
        total_len(messages.drop_last()) + messages.last().len()
    }
}

/// Whether a list of messages respects both limits.
pub open spec fn within_limits(messages: Seq<Seq<u8>>) -> bool {
    messages.len() <= MAX_QUEUED_MESSAGES && total_len(messages) <= MAX_QUEUED_BYTES
}

/// What is left when messages are dropped, oldest first, until both limits are
/// respected.
pub open spec fn newest_within_limits(messages: Seq<Seq<u8>>) -> Seq<Seq<u8>>
    decreases messages.len(),
{
    if within_limits(messages) || messages.len() == 0 {
        messages
    } else {
        newest_within_limits(messages.drop_first())
    }
}

proof fn lemma_total_len_first(messages: Seq<Seq<u8>>)
    requires
        messages.len() > 0,
    ensures
        total_len(messages) == messages[0].len() + total_len(messages.drop_first()),
    decreases messages.len(),
{
    if messages.len() == 1 {
        reveal_with_fuel(total_len, 2);
        assert(messages.drop_last() =~= Seq::empty());
        assert(messages.drop_first() =~= Seq::empty());
    } else {
        lemma_total_len_first(messages.drop_last());
        assert(messages.drop_first().drop_last() =~= messages.drop_last().drop_first());
        assert(messages.drop_first().last() == messages.last());
    }
}

proof fn lemma_oversized_newest_leaves_nothing(messages: Seq<Seq<u8>>)
    requires
        messages.len() > 0,
        messages.last().len() > MAX_QUEUED_BYTES,
    ensures
        newest_within_limits(messages) == Seq::<Seq<u8>>::empty(),
    decreases messages.len(),
{
    if messages.len() == 1 {
        reveal_with_fuel(newest_within_limits, 2);
        assert(messages.drop_first() =~= Seq::<Seq<u8>>::empty());
    } else {
        lemma_oversized_newest_leaves_nothing(messages.drop_first());
    }
}

/// Dropping the oldest messages until the limits hold leaves the longest run
/// of newest messages that respects them.
pub proof fn lemma_newest_is_longest_fitting_suffix(messages: Seq<Seq<u8>>)
    ensures
        within_limits(newest_within_limits(messages)),
        newest_within_limits(messages).is_suffix_of(messages),
        forall|from: int|
            0 <= from < messages.len() - newest_within_limits(messages).len()
                ==> !within_limits(#[trigger] messages.skip(from)),
    decreases messages.len(),
{
    if within_limits(messages) || messages.len() == 0 {
        assert(messages.skip(0) =~= messages);
    } else {
        let rest = messages.drop_first();
        lemma_newest_is_longest_fitting_suffix(rest);
        let kept = newest_within_limits(rest);
        assert(kept =~= messages.subrange(
            messages.len() - kept.len(),
            messages.len() as int,
        )) by {
            assert(kept =~= rest.subrange(rest.len() - kept.len(), rest.len() as int));
        }
        assert forall|from: int| 0 <= from < messages.len() - kept.len() implies !within_limits(
            #[trigger] messages.skip(from),
        ) by {
            if from == 0 {
                assert(messages.skip(0) =~= messages);
            } else {
                assert(rest.skip(from - 1) =~= messages.skip(from));
            }
        }
    }
}

/// The messages a list of buffers holds.
pub open spec fn all_contents(messages: Seq<Bytes>) -> Seq<Seq<u8>> {
    messages.map_values(|data: Bytes| bytes_contents(data))
}

/// Messages for one peer, oldest first, within both limits.
pub struct SendQueue {
    messages: VecDeque<Bytes>,
    total_bytes: usize,
}

impl View for SendQueue {
    type V = Seq<Seq<u8>>;

    closed spec fn view(&self) -> Seq<Seq<u8>> {
        all_contents(self.messages@)
    }
}

impl Default for SendQueue {
    fn default() -> (queue: Self)
        ensures
            queue@ == Seq::<Seq<u8>>::empty(),
    {
        SendQueue { messages: VecDeque::new(), total_bytes: 0 }
    }
}

impl SendQueue {
    #[verifier::type_invariant]
    spec fn bounded(self) -> bool {
        &&& within_limits(all_contents(self.messages@))
        &&& self.total_bytes == total_len(all_contents(self.messages@))
    }

    /// Appends a message and drops the oldest ones until both limits hold
    /// again. Returns whether anything was dropped.
    pub fn push(&mut self, data: Bytes) -> (dropped_oldest: bool)
        ensures
            final(self)@ == newest_within_limits(old(self)@.push(bytes_contents(data))),
            dropped_oldest == (final(self)@.len() < old(self)@.len() + 1),
    {
        proof {
            use_type_invariant(&*self);
        }
        let ghost grown = self@.push(bytes_contents(data));
        let added: usize = data.len();
        let mut taken = SendQueue::default();
        std::mem::swap(self, &mut taken);
        let SendQueue { messages: mut messages, total_bytes: mut total_bytes } = taken;
        messages.push_back(data);
        proof {
            assert(all_contents(messages@) =~= grown);
            assert(grown.drop_last() =~= old(self)@);
        }
        if added > MAX_QUEUED_BYTES {
            proof {
                lemma_oversized_newest_leaves_nothing(grown);
            }
            return true;
        }
        total_bytes = total_bytes + added;
        let mut dropped_oldest: bool = false;
        while messages.len() > MAX_QUEUED_MESSAGES || total_bytes > MAX_QUEUED_BYTES
            invariant
                total_bytes == total_len(all_contents(messages@)),
                newest_within_limits(all_contents(messages@)) == newest_within_limits(grown),
                messages@.len() <= grown.len(),
                dropped_oldest == (messages@.len() < grown.len()),
            decreases messages@.len(),
        {
            let ghost queued = all_contents(messages@);
            match messages.pop_front() {
                Some(oldest) => {
                    proof {
                        lemma_total_len_first(queued);
                        assert(queued.drop_first() =~= all_contents(messages@));
                    }
                    total_bytes = total_bytes.saturating_sub(oldest.len());
                    dropped_oldest = true;
                },
                None => {
                    proof {
                        assert(queued =~= Seq::<Seq<u8>>::empty());
                    }
                },
            }
        }
        *self = SendQueue { messages, total_bytes };
        dropped_oldest
    }

    /// Takes every message out, oldest first.
    pub fn drain(&mut self) -> (messages: Vec<Bytes>)
        ensures
            all_contents(messages@) == old(self)@,
            final(self)@ == Seq::<Seq<u8>>::empty(),
    {
        let mut taken = SendQueue::default();
        std::mem::swap(self, &mut taken);
        let SendQueue { messages: mut queued, total_bytes: _ } = taken;
        let mut messages: Vec<Bytes> = Vec::new();
        while queued.len() > 0
            invariant
                messages@ + queued@ == taken.messages@,
            decreases queued@.len(),
        {
            if let Some(oldest) = queued.pop_front() {
                messages.push(oldest);
            }
        }
        assert(messages@ =~= taken.messages@);
        messages
    }

    /// Drops every message and returns how many there were.
    pub fn clear(&mut self) -> (dropped: usize)
        ensures
            dropped == old(self)@.len(),
            final(self)@ == Seq::<Seq<u8>>::empty(),
    {
        let dropped: usize = self.messages.len();
        *self = SendQueue::default();
        dropped
    }

    pub fn len(&self) -> (count: usize)
        ensures
            count == self@.len(),
            count <= MAX_QUEUED_MESSAGES,
    {
        proof {
            use_type_invariant(self);
        }
        self.messages.len()
    }
}

/// A queue is full by messages or by bytes, whichever comes first, and the bytes
/// are those of its messages.
pub proof fn lemma_queues_are_bounded_by_messages_and_bytes(
    messages: Seq<Seq<u8>>,
    message: Seq<u8>,
)
    ensures
        total_len(Seq::empty()) == 0,
        total_len(messages.push(message)) == total_len(messages) + message.len(),
        within_limits(messages) <==> messages.len() <= 64 && total_len(messages) <= 262144,
{
    assert(messages.push(message).drop_last() =~= messages);
}

/// As long as both limits hold nothing is dropped, and a message that is too long
/// for the queue by itself empties it.
pub proof fn lemma_queues_keep_what_fits(messages: Seq<Seq<u8>>, message: Seq<u8>)
    ensures
        messages.len() < 64 && total_len(messages) + message.len() <= 262144
            ==> newest_within_limits(messages.push(message)) == messages.push(message),
        message.len() > 262144 ==> newest_within_limits(messages.push(message)) == Seq::<
            Seq<u8>,
        >::empty(),
{
    assert(messages.push(message).drop_last() =~= messages);
    if message.len() > 262144 {
        lemma_oversized_newest_leaves_nothing(messages.push(message));
    }
}

/// A list of buffers holds one message each, in the same order.
pub proof fn lemma_buffers_hold_one_message_each(messages: Seq<Bytes>, i: int)
    requires
        0 <= i < messages.len(),
    ensures
        all_contents(messages).len() == messages.len(),
        all_contents(messages)[i] == bytes_contents(messages[i]),
{
}

} // verus!
