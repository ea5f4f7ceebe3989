//! Numbers by which the page and the client understand each other.

use vstd::prelude::*;

use crate::app::send::{
    delivery_method, DELIVERY_RELIABLE, DELIVERY_UNRELIABLE, DELIVERY_UNRELIABLE_ORDERED,
};
use crate::app::{
    EVENT_AOI_ENTERED, EVENT_AOI_LEFT, EVENT_AOI_NODES, EVENT_NEIGHBORS, EVENT_OVERLAY,
    EVENT_PEER_CONNECTED, EVENT_PEER_DISCONNECTED, EVENT_RAW, EVENT_ROOM_JOINED,
    EVENT_ROOM_JOIN_FAILED, EVENT_ROOM_LEFT, MEDIA_EVENT_TRACK_ADDED, MEDIA_EVENT_TRACK_REMOVED,
};
use crate::types::DeliveryMethod;

verus! {

/// Events that the event callback is told about.
#[derive(Debug, Clone, Copy, PartialEq, Eq, Structural)]
pub enum MistEvent {
    Raw,
    Overlay,
    Neighbors,
    AoiEntered,
    AoiLeft,
    PeerConnected,
    PeerDisconnected,
    AoiNodes,
    RoomJoined,
    RoomJoinFailed,
    RoomLeft,
}

/// Events that the media callback is told about.
#[derive(Debug, Clone, Copy, PartialEq, Eq, Structural)]
pub enum MistMediaEvent {
    TrackAdded,
    TrackRemoved,
}

/// Guarantees that a message can ask for.
#[derive(Debug, Clone, Copy, PartialEq, Eq, Structural)]
pub enum Delivery {
    /// Arrives, and in order.
    Reliable,
    /// May be dropped, but never arrives out of order.
    UnreliableOrdered,
    /// May be dropped or reordered.
    Unreliable,
}

pub open spec fn event_number(event: MistEvent) -> u32 {
    match event {
        MistEvent::Raw => EVENT_RAW,
        MistEvent::Overlay => EVENT_OVERLAY,
        MistEvent::Neighbors => EVENT_NEIGHBORS,
        MistEvent::AoiEntered => EVENT_AOI_ENTERED,
        MistEvent::AoiLeft => EVENT_AOI_LEFT,
        MistEvent::PeerConnected => EVENT_PEER_CONNECTED,
        MistEvent::PeerDisconnected => EVENT_PEER_DISCONNECTED,
        MistEvent::AoiNodes => EVENT_AOI_NODES,
        MistEvent::RoomJoined => EVENT_ROOM_JOINED,
        MistEvent::RoomJoinFailed => EVENT_ROOM_JOIN_FAILED,
        MistEvent::RoomLeft => EVENT_ROOM_LEFT,
    }
}

pub open spec fn media_event_number(event: MistMediaEvent) -> u32 {
    match event {
        MistMediaEvent::TrackAdded => MEDIA_EVENT_TRACK_ADDED,
        MistMediaEvent::TrackRemoved => MEDIA_EVENT_TRACK_REMOVED,
    }
}

pub open spec fn delivery_number(delivery: Delivery) -> u32 {
    match delivery {
        Delivery::Reliable => DELIVERY_RELIABLE,
        Delivery::UnreliableOrdered => DELIVERY_UNRELIABLE_ORDERED,
        Delivery::Unreliable => DELIVERY_UNRELIABLE,
    }
}

impl MistEvent {
    pub fn number(self) -> (number: u32)
        ensures
            number == event_number(self),
    {
        match self {
            MistEvent::Raw => EVENT_RAW,
            MistEvent::Overlay => EVENT_OVERLAY,
            MistEvent::Neighbors => EVENT_NEIGHBORS,
            MistEvent::AoiEntered => EVENT_AOI_ENTERED,
            MistEvent::AoiLeft => EVENT_AOI_LEFT,
            MistEvent::PeerConnected => EVENT_PEER_CONNECTED,
            MistEvent::PeerDisconnected => EVENT_PEER_DISCONNECTED,
            MistEvent::AoiNodes => EVENT_AOI_NODES,
            MistEvent::RoomJoined => EVENT_ROOM_JOINED,
            MistEvent::RoomJoinFailed => EVENT_ROOM_JOIN_FAILED,
            MistEvent::RoomLeft => EVENT_ROOM_LEFT,
        }
    }
}

impl MistMediaEvent {
    pub fn number(self) -> (number: u32)
        ensures
            number == media_event_number(self),
    {
        match self {
            MistMediaEvent::TrackAdded => MEDIA_EVENT_TRACK_ADDED,
            MistMediaEvent::TrackRemoved => MEDIA_EVENT_TRACK_REMOVED,
        }
    }
}

impl Delivery {
    pub fn number(self) -> (number: u32)
        ensures
            number == delivery_number(self),
    {
        match self {
            Delivery::Reliable => DELIVERY_RELIABLE,
            Delivery::UnreliableOrdered => DELIVERY_UNRELIABLE_ORDERED,
            Delivery::Unreliable => DELIVERY_UNRELIABLE,
        }
    }
}

/// Different events have different numbers, and no media event has the number of
/// another event.
pub proof fn lemma_event_numbers_do_not_collide(
    a: MistEvent,
    b: MistEvent,
    c: MistMediaEvent,
    d: MistMediaEvent,
)
    ensures
        event_number(a) == event_number(b) ==> a == b,
        media_event_number(c) == media_event_number(d) ==> c == d,
        event_number(a) != media_event_number(c),
{
}

/// Every guarantee has a number that is understood.
pub proof fn lemma_delivery_numbers_are_understood(delivery: Delivery)
    ensures
        delivery_method(delivery_number(delivery)) is Some,
{
}

/// The page knows every event by one number, and the numbers run through from
/// the raw message to the room that was left.
pub proof fn lemma_events_have_their_numbers(event: MistEvent, media: MistMediaEvent)
    ensures
        event_number(event) == 0 <==> event == MistEvent::Raw,
        event_number(event) == 1 <==> event == MistEvent::Overlay,
        event_number(event) == 2 <==> event == MistEvent::Neighbors,
        event_number(event) == 3 <==> event == MistEvent::AoiEntered,
        event_number(event) == 4 <==> event == MistEvent::AoiLeft,
        event_number(event) == 5 <==> event == MistEvent::PeerConnected,
        event_number(event) == 6 <==> event == MistEvent::PeerDisconnected,
        event_number(event) == 7 <==> event == MistEvent::AoiNodes,
        event_number(event) == 8 <==> event == MistEvent::RoomJoined,
        event_number(event) == 9 <==> event == MistEvent::RoomJoinFailed,
        event_number(event) == 10 <==> event == MistEvent::RoomLeft,
        media_event_number(media) == 100 <==> media == MistMediaEvent::TrackAdded,
        media_event_number(media) == 101 <==> media == MistMediaEvent::TrackRemoved,
{
}

/// A message gets the guarantee that it asked for: the number of a guarantee is
/// read as that guarantee and as no other.
pub proof fn lemma_guarantees_are_kept(delivery: Delivery)
    ensures
        delivery_method(delivery_number(delivery)) == Some(DeliveryMethod::ReliableOrdered)
            <==> delivery == Delivery::Reliable,
        delivery_method(delivery_number(delivery)) == Some(DeliveryMethod::UnreliableOrdered)
            <==> delivery == Delivery::UnreliableOrdered,
        delivery_method(delivery_number(delivery)) == Some(DeliveryMethod::Unreliable)
            <==> delivery == Delivery::Unreliable,
        delivery_number(delivery) == 0 <==> delivery == Delivery::Reliable,
        delivery_number(delivery) == 1 <==> delivery == Delivery::UnreliableOrdered,
        delivery_number(delivery) == 2 <==> delivery == Delivery::Unreliable,
{
}

} // verus!
