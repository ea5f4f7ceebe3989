//! What holds of messages on their way to a peer.

use vstd::prelude::*;

use super::lifecycle::stored;
use super::peer::{
    any_channel, channel_name, channel_of, labelled_method, plan_for, still_waiting, ChannelState,
    ChannelStates,
};
use super::sending::{
    after_send, connected_nodes, send_outcome, ChannelSnapshot, ChannelSnapshots, SendOutcome,
    BUFFERED_AMOUNT_HIGH_WATERMARK, BUFFERED_AMOUNT_LOW_THRESHOLD,
};
use super::TransportModel;
use crate::types::{ConnectionState, DeliveryMethod, ErrorModel};

verus! {

/// Whether a message of `size` bytes can be handed to a channel of `node` at all.
pub open spec fn can_be_handed_over(model: TransportModel, node: Seq<char>, size: usize) -> bool {
    &&& size <= model.max_message_bytes
    &&& model.states.dom().contains(node)
    &&& model.states[node] == ConnectionState::Connected
    &&& model.peers.dom().contains(node)
}

/// Peers with one channel each.
pub open spec fn only_channel(method: DeliveryMethod, channel: ChannelSnapshot) -> ChannelSnapshots {
    ChannelSnapshots {
        reliable: if method == DeliveryMethod::ReliableOrdered {
            Some(channel)
        } else {
            None
        },
        unreliable_ordered: if method == DeliveryMethod::UnreliableOrdered {
            Some(channel)
        } else {
            None
        },
        unreliable: if method == DeliveryMethod::Unreliable {
            Some(channel)
        } else {
            None
        },
    }
}

/// Whether exactly this channel of a peer belongs to a delivery method.
pub open spec fn has_channel(
    channels: ChannelSnapshots,
    method: DeliveryMethod,
    channel: ChannelSnapshot,
) -> bool {
    &&& method == DeliveryMethod::ReliableOrdered ==> channels.reliable == Some(channel)
    &&& method == DeliveryMethod::UnreliableOrdered ==> channels.unreliable_ordered == Some(channel)
    &&& method == DeliveryMethod::Unreliable ==> channels.unreliable == Some(channel)
}

/// A message to a connected peer goes out on the channel of its own method
/// whenever that channel is there, open and not congested.
pub proof fn lemma_messages_go_out_on_their_own_channel(
    model: TransportModel,
    node: Seq<char>,
    size: usize,
    method: DeliveryMethod,
    channels: ChannelSnapshots,
    channel: ChannelSnapshot,
)
    requires
        can_be_handed_over(model, node, size),
        has_channel(channels, method, channel),
        channel.state == ChannelState::Open,
        channel.buffered_amount <= BUFFERED_AMOUNT_HIGH_WATERMARK,
    ensures
        ({
            let outcome = send_outcome(model, node, size, method, channels);
            &&& outcome is Send
            &&& outcome->Send_channel == method
            &&& after_send(model, node, size, method, channels) == model
        }),
{
}

/// An unreliable ordered message whose channel is missing is sent as an
/// unreliable one, and no other message changes its channel.
pub proof fn lemma_only_ordered_unreliable_messages_fall_back(
    model: TransportModel,
    node: Seq<char>,
    size: usize,
    method: DeliveryMethod,
    channel: ChannelSnapshot,
    held: DeliveryMethod,
)
    requires
        can_be_handed_over(model, node, size),
        channel.state == ChannelState::Open,
        channel.buffered_amount <= BUFFERED_AMOUNT_HIGH_WATERMARK,
    ensures
        ({
            let outcome = send_outcome(model, node, size, method, only_channel(held, channel));
            &&& outcome is Send <==> held == method || (method == DeliveryMethod::UnreliableOrdered
                && held == DeliveryMethod::Unreliable)
            &&& outcome is Send ==> outcome->Send_channel == held
            &&& !(outcome is Send) ==> outcome == SendOutcome::Fail(
                ErrorModel::Internal("Not connected"@),
            )
        }),
{
}

/// Whatever is sent goes to a connected peer, is within the limit, and finds an
/// open channel that is not congested.
pub proof fn lemma_nothing_is_sent_into_the_void(
    model: TransportModel,
    node: Seq<char>,
    size: usize,
    method: DeliveryMethod,
    channels: ChannelSnapshots,
)
    ensures
        send_outcome(model, node, size, method, channels) matches SendOutcome::Send {
            channel,
            near_limit,
        } ==> {
            &&& can_be_handed_over(model, node, size)
            &&& exists|snapshot: ChannelSnapshot|
                #[trigger] has_channel(channels, channel, snapshot) && snapshot.state
                    == ChannelState::Open && snapshot.buffered_amount
                    <= BUFFERED_AMOUNT_HIGH_WATERMARK
            &&& near_limit <==> model.max_message_bytes > 0 && size * 5 >= model.max_message_bytes
                * 4
        },
{
    if let Some(snapshot) = channels.reliable {
        assert(has_channel(channels, DeliveryMethod::ReliableOrdered, snapshot));
    }
    if let Some(snapshot) = channels.unreliable_ordered {
        assert(has_channel(channels, DeliveryMethod::UnreliableOrdered, snapshot));
    }
    if let Some(snapshot) = channels.unreliable {
        assert(has_channel(channels, DeliveryMethod::Unreliable, snapshot));
    }
}

/// Congestion delays reliable messages and costs the others: a reliable message
/// waits for its channel to drain, an unreliable one is dropped with an error
/// that says so.
pub proof fn lemma_congestion_delays_only_reliable_messages(
    model: TransportModel,
    node: Seq<char>,
    size: usize,
    method: DeliveryMethod,
    channels: ChannelSnapshots,
    channel: ChannelSnapshot,
)
    requires
        can_be_handed_over(model, node, size),
        has_channel(channels, method, channel),
        channel.state == ChannelState::Open,
        channel.buffered_amount > BUFFERED_AMOUNT_HIGH_WATERMARK,
    ensures
        ({
            let outcome = send_outcome(model, node, size, method, channels);
            &&& method == DeliveryMethod::ReliableOrdered ==> outcome is WaitThenSend
                && outcome->WaitThenSend_channel == method
            &&& method != DeliveryMethod::ReliableOrdered ==> outcome == SendOutcome::Fail(
                ErrorModel::Internal("Backpressure: dropped unreliable message under congestion"@),
            )
            &&& after_send(model, node, size, method, channels) == model
        }),
{
}

/// A message to a peer that is not up is kept exactly if it is reliable, the
/// peer has a connection, and that one is coming up or coming back. Any other
/// message fails. What is known of the peer does not change.
pub proof fn lemma_messages_wait_for_peers_that_come_back(
    model: TransportModel,
    node: Seq<char>,
    size: usize,
    method: DeliveryMethod,
    channels: ChannelSnapshots,
)
    requires
        size <= model.max_message_bytes,
        !(model.states.dom().contains(node) && model.states[node] == ConnectionState::Connected),
    ensures
        ({
            let outcome = send_outcome(model, node, size, method, channels);
            &&& outcome is Defer <==> {
                &&& method == DeliveryMethod::ReliableOrdered
                &&& model.peers.dom().contains(node)
                &&& model.states.dom().contains(node)
                &&& {
                    ||| model.states[node] == ConnectionState::Connecting
                    ||| model.states[node] == ConnectionState::Reconnecting
                }
            }
            &&& !(outcome is Defer) ==> outcome == SendOutcome::Fail(
                ErrorModel::Internal("Not connected"@),
            )
            &&& after_send(model, node, size, method, channels) == model
        }),
{
}

/// A message above the limit is refused with its size and the limit, to whomever
/// it goes, and a smaller one never is.
pub proof fn lemma_only_large_messages_are_too_large(
    model: TransportModel,
    node: Seq<char>,
    size: usize,
    method: DeliveryMethod,
    channels: ChannelSnapshots,
)
    ensures
        send_outcome(model, node, size, method, channels) == SendOutcome::Fail(
            ErrorModel::MessageTooLarge { size, limit: model.max_message_bytes },
        ) <==> size > model.max_message_bytes,
        size > model.max_message_bytes ==> after_send(model, node, size, method, channels) == model,
{
}

/// A message that finds its channel closed or closing fails, and the peer counts
/// as connecting again, so that the next reliable message waits for it. On a
/// channel that is only opening the message fails too, but nothing changes.
pub proof fn lemma_closed_channels_are_noticed(
    model: TransportModel,
    node: Seq<char>,
    other: Seq<char>,
    size: usize,
    method: DeliveryMethod,
    channels: ChannelSnapshots,
    channel: ChannelSnapshot,
)
    requires
        can_be_handed_over(model, node, size),
        has_channel(channels, method, channel),
        channel.state != ChannelState::Open,
        other != node,
    ensures
        send_outcome(model, node, size, method, channels) == SendOutcome::Fail(
            ErrorModel::Internal("Not connected"@),
        ),
        ({
            let after = after_send(model, node, size, method, channels);
            &&& channel.state == ChannelState::Connecting ==> after == model
            &&& channel.state != ChannelState::Connecting ==> {
                &&& stored(after.states, node) == Some(ConnectionState::Connecting)
                &&& send_outcome(after, node, size, DeliveryMethod::ReliableOrdered, channels)
                    is Defer
            }
            &&& stored(after.states, other) == stored(model.states, other)
            &&& after == TransportModel { states: after.states, ..model }
        }),
{
}

/// A broadcast reaches exactly the nodes that are connected.
pub proof fn lemma_broadcasts_reach_connected_nodes(
    states: Map<Seq<char>, ConnectionState>,
    node: Seq<char>,
    state: ConnectionState,
)
    ensures
        !connected_nodes(states.remove(node)).contains(node),
        connected_nodes(states.insert(node, state)).contains(node) <==> state
            == ConnectionState::Connected,
        connected_nodes(states.insert(node, state)).remove(node) == connected_nodes(
            states,
        ).remove(node),
{
    assert(connected_nodes(states.insert(node, state)).remove(node) =~= connected_nodes(
        states,
    ).remove(node));
}

/// A channel counts as drained well before it is empty and well below the point
/// at which it is congested.
pub proof fn lemma_watermarks_leave_room()
    ensures
        0 < BUFFERED_AMOUNT_LOW_THRESHOLD,
        4 * BUFFERED_AMOUNT_LOW_THRESHOLD == BUFFERED_AMOUNT_HIGH_WATERMARK,
{
}

/// Every channel of a peer counts: some channel is in a state exactly if one of
/// the three is, and each is found under its own method.
pub proof fn lemma_every_channel_counts(channels: ChannelStates, state: ChannelState)
    ensures
        any_channel(channels, state) <==> channels.reliable == Some(state)
            || channels.unreliable_ordered == Some(state) || channels.unreliable == Some(state),
        channel_of(channels, DeliveryMethod::ReliableOrdered) == channels.reliable,
        channel_of(channels, DeliveryMethod::UnreliableOrdered) == channels.unreliable_ordered,
        channel_of(channels, DeliveryMethod::Unreliable) == channels.unreliable,
{
    assert(channel_of(channels, DeliveryMethod::ReliableOrdered) == channels.reliable);
    assert(channel_of(channels, DeliveryMethod::UnreliableOrdered) == channels.unreliable_ordered);
    assert(channel_of(channels, DeliveryMethod::Unreliable) == channels.unreliable);
}

/// A channel is read as an unreliable one only under the label of one; every
/// other label stands for a reliable channel.
pub proof fn lemma_unknown_labels_are_reliable(label: Seq<char>)
    requires
        label != channel_name(DeliveryMethod::UnreliableOrdered),
        label != channel_name(DeliveryMethod::Unreliable),
    ensures
        labelled_method(label) == DeliveryMethod::ReliableOrdered,
{
}

/// A channel keeps the promise of its method: it is ordered unless order is not
/// asked for, and it repeats what was lost only where everything must arrive.
pub proof fn lemma_channels_keep_their_promise(method: DeliveryMethod)
    ensures
        plan_for(method).ordered <==> method == DeliveryMethod::ReliableOrdered || method
            == DeliveryMethod::UnreliableOrdered,
        plan_for(method).max_retransmits is None <==> method == DeliveryMethod::ReliableOrdered,
        plan_for(method).max_retransmits is Some ==> plan_for(method).max_retransmits == Some(0u16),
{
}

/// Of the sends that wait for a channel, those stay whose senders still wait,
/// and all of them if none gave up.
pub proof fn lemma_patient_senders_keep_their_place(
    waiters: Seq<u64>,
    live: Seq<u64>,
    waiter: u64,
)
    ensures
        still_waiting(waiters, live).contains(waiter) <==> waiters.contains(waiter)
            && live.contains(waiter),
        (forall|i: int| 0 <= i < waiters.len() ==> live.contains(#[trigger] waiters[i]))
            ==> still_waiting(waiters, live) == waiters,
        still_waiting(Seq::empty(), live) == Seq::<u64>::empty(),
        still_waiting(waiters.push(waiter), live) == if live.contains(waiter) {
            still_waiting(waiters, live).push(waiter)
        } else {
            still_waiting(waiters, live)
        },
    decreases waiters.len(),
{
    reveal(Seq::filter);
    assert(waiters.push(waiter).drop_last() =~= waiters);
    if waiters.len() > 0 {
        let earlier = waiters.drop_last();
        lemma_patient_senders_keep_their_place(earlier, live, waiter);
        let kept = still_waiting(waiters, live);
        let before = still_waiting(earlier, live);
        assert(waiters =~= earlier.push(waiters.last()));
        if kept.contains(waiter) {
            let i = choose|i: int| 0 <= i < kept.len() && kept[i] == waiter;
            if i < before.len() {
                assert(before[i] == waiter);
                let j = choose|j: int| 0 <= j < earlier.len() && earlier[j] == waiter;
                assert(waiters[j] == waiter);
            } else {
                assert(waiters[waiters.len() - 1] == waiter);
            }
        }
        if waiters.contains(waiter) && live.contains(waiter) {
            let j = choose|j: int| 0 <= j < waiters.len() && waiters[j] == waiter;
            if j < earlier.len() {
                assert(earlier[j] == waiter);
                let i = choose|i: int| 0 <= i < before.len() && before[i] == waiter;
                assert(kept[i] == waiter);
            } else {
                assert(kept[kept.len() - 1] == waiter);
            }
        }
        if forall|i: int| 0 <= i < waiters.len() ==> live.contains(#[trigger] waiters[i]) {
            assert forall|i: int| 0 <= i < earlier.len() implies live.contains(
                #[trigger] earlier[i],
            ) by {
                assert(earlier[i] == waiters[i]);
            }
            assert(live.contains(waiters[waiters.len() - 1]));
            assert(kept =~= waiters);
        }
    } else {
        assert(still_waiting(waiters, live) =~= waiters);
    }
}

} // verus!
