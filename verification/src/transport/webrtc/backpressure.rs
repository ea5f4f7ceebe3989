//! What to do with a message when the channel's outbound buffer is full.

use vstd::prelude::*;

use crate::types::DeliveryMethod;

verus! {

#[derive(Debug, Clone, Copy, PartialEq, Eq, Structural)]
pub enum BackpressureAction {
    /// At or below the high watermark: send immediately.
    SendNow,
    /// Reliable: wait for the buffer to drain before sending.
    WaitThenSend,
    /// Unreliable: freshness beats completeness.
    Drop,
}

/// What becomes of a message.
pub open spec fn pressure_action(
    buffered_amount: u32,
    high_watermark: u32,
    method: DeliveryMethod,
) -> BackpressureAction {
    if buffered_amount <= high_watermark {
        BackpressureAction::SendNow
    } else if method == DeliveryMethod::ReliableOrdered {
        BackpressureAction::WaitThenSend
    } else {
        BackpressureAction::Drop
    }
}

pub fn backpressure_action(
    buffered_amount: u32,
    high_watermark: u32,
    method: DeliveryMethod,
) -> (action: BackpressureAction)
    ensures
        action == BackpressureAction::SendNow <==> buffered_amount <= high_watermark,
        action == BackpressureAction::WaitThenSend <==> buffered_amount > high_watermark && method
            == DeliveryMethod::ReliableOrdered,
        action == BackpressureAction::Drop <==> buffered_amount > high_watermark && method
            != DeliveryMethod::ReliableOrdered,
        action == pressure_action(buffered_amount, high_watermark, method),
{
    if buffered_amount <= high_watermark {
        return BackpressureAction::SendNow;
    }
    match method {
        DeliveryMethod::ReliableOrdered => BackpressureAction::WaitThenSend,
        DeliveryMethod::UnreliableOrdered | DeliveryMethod::Unreliable => BackpressureAction::Drop,
    }
}

/// Up to the high watermark, that mark included, every message goes out at once.
/// Above it a reliable message waits and is never dropped, and the others are
/// dropped and never wait.
pub proof fn lemma_only_unreliable_messages_are_dropped(
    buffered_amount: u32,
    high_watermark: u32,
    method: DeliveryMethod,
)
    ensures
        pressure_action(high_watermark, high_watermark, method) == BackpressureAction::SendNow,
        buffered_amount < high_watermark ==> pressure_action(
            buffered_amount,
            high_watermark,
            method,
        ) == BackpressureAction::SendNow,
        buffered_amount > high_watermark ==> {
            &&& pressure_action(buffered_amount, high_watermark, DeliveryMethod::ReliableOrdered)
                == BackpressureAction::WaitThenSend
            &&& pressure_action(buffered_amount, high_watermark, DeliveryMethod::UnreliableOrdered)
                == BackpressureAction::Drop
            &&& pressure_action(buffered_amount, high_watermark, DeliveryMethod::Unreliable)
                == BackpressureAction::Drop
        },
{
}

} // verus!
