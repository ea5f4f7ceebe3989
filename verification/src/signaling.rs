//! Signaling: how messages find their way to nodes that are not connected yet.

pub mod epoch;
pub mod nostr;
pub mod reconnect;
pub mod relay;
pub mod ws;

use vstd::prelude::*;

use crate::signaling::epoch::next_epoch;
use crate::signaling::nostr::{session_cleared, NostrModel, WasmNostrSignaler};
use crate::signaling::ws::{WasmWebSocketSignaler, WsModel};

verus! {

/// The signaler that brings a room's nodes together.
pub enum WasmBootstrapSignaler {
    WebSocket(WasmWebSocketSignaler),
    Nostr(WasmNostrSignaler),
}

/// What a [`WasmBootstrapSignaler`] holds.
pub enum BootstrapModel {
    WebSocket(WsModel),
    Nostr(NostrModel),
}

impl View for WasmBootstrapSignaler {
    type V = BootstrapModel;

    open spec fn view(&self) -> BootstrapModel {
        match self {
            WasmBootstrapSignaler::WebSocket(signaler) => BootstrapModel::WebSocket(signaler@),
            WasmBootstrapSignaler::Nostr(signaler) => BootstrapModel::Nostr(signaler@),
        }
    }
}

/// The signaler after it began to connect.
pub open spec fn connecting(model: BootstrapModel) -> BootstrapModel {
    match model {
        BootstrapModel::WebSocket(ws) => BootstrapModel::WebSocket(
            WsModel { has_receiver: true, epoch: next_epoch(ws.epoch), socket: None, ..ws },
        ),
        BootstrapModel::Nostr(nostr) => BootstrapModel::Nostr(
            NostrModel {
                reconnect_epoch: next_epoch(next_epoch(nostr.reconnect_epoch)),
                sockets: Seq::empty(),
                ..nostr
            },
        ),
    }
}

/// The epoch in which a signaler connects.
pub open spec fn connect_epoch(model: BootstrapModel) -> u64 {
    match model {
        BootstrapModel::WebSocket(ws) => ws.epoch,
        BootstrapModel::Nostr(nostr) => nostr.reconnect_epoch,
    }
}

/// The signaler after it was closed.
pub open spec fn closed(model: BootstrapModel) -> BootstrapModel {
    match model {
        BootstrapModel::WebSocket(ws) => BootstrapModel::WebSocket(
            WsModel { has_receiver: false, epoch: next_epoch(ws.epoch), socket: None, ..ws },
        ),
        BootstrapModel::Nostr(nostr) => BootstrapModel::Nostr(
            NostrModel {
                refresh_epoch: next_epoch(nostr.refresh_epoch),
                keepalive_epoch: next_epoch(nostr.keepalive_epoch),
                reconnect_epoch: next_epoch(nostr.reconnect_epoch),
                sockets: Seq::empty(),
                room: None,
                joined_at: None,
                rotated_key: None,
                ..session_cleared(nostr)
            },
        ),
    }
}

/// The socket that is to be closed when a signaler connects.
pub open spec fn superseded_socket(model: BootstrapModel) -> Option<u64> {
    match model {
        BootstrapModel::WebSocket(ws) => ws.socket,
        BootstrapModel::Nostr(_) => None,
    }
}

/// The sockets that a signaler holds.
pub open spec fn held_sockets(model: BootstrapModel) -> Seq<u64> {
    match model {
        BootstrapModel::WebSocket(ws) => match ws.socket {
            Some(socket) => seq![socket],
            None => Seq::empty(),
        },
        BootstrapModel::Nostr(nostr) => nostr.sockets,
    }
}

impl WasmBootstrapSignaler {
    /// Begins to connect. Returns the epoch and a socket that is to be closed.
    pub fn connect(&mut self) -> (begun: (u64, Option<u64>))
        ensures
            final(self)@ == connecting(old(self)@),
            begun.0 == connect_epoch(final(self)@),
            begun.1 == (match old(self)@ {
                BootstrapModel::WebSocket(ws) => ws.socket,
                BootstrapModel::Nostr(_) => None,
            }),
            begun.1 == superseded_socket(old(self)@),
    {
        match self {
            WasmBootstrapSignaler::WebSocket(signaler) => {
                let plan = signaler.connect();
                (plan.epoch, plan.close)
            },
            WasmBootstrapSignaler::Nostr(signaler) => {
                let epoch: u64 = signaler.connect();
                (epoch, None)
            },
        }
    }

    /// Ends the session and returns the sockets that are to be closed.
    pub fn close(&mut self) -> (sockets: Vec<u64>)
        ensures
            final(self)@ == closed(old(self)@),
            sockets@ == held_sockets(old(self)@),
    {
        match self {
            WasmBootstrapSignaler::WebSocket(signaler) => {
                let mut sockets: Vec<u64> = Vec::new();
                if let Some(socket) = signaler.close() {
                    sockets.push(socket);
                }
                assert(sockets@ =~= held_sockets(old(self)@));
                sockets
            },
            WasmBootstrapSignaler::Nostr(signaler) => signaler.close(),
        }
    }
}

/// A signaler that was closed holds no socket, and whatever was started for the
/// connection before is superseded.
pub proof fn lemma_closing_ends_everything(model: BootstrapModel)
    requires
        connect_epoch(model) < u64::MAX,
    ensures
        held_sockets(closed(model)) == Seq::<u64>::empty(),
        connect_epoch(closed(model)) != connect_epoch(model),
        connect_epoch(connecting(model)) != connect_epoch(model),
{
}

/// Connecting to a server supersedes the socket that was there and hands it out;
/// connecting to relays forgets the sockets and keeps the room and what is known
/// about peers. Neither changes whom the signaler speaks to.
pub proof fn lemma_connecting_starts_afresh(ws: WsModel, nostr: NostrModel)
    ensures
        ({
            let before = BootstrapModel::WebSocket(ws);
            let after = connecting(before);
            &&& after is WebSocket
            &&& after->WebSocket_0.has_receiver
            &&& after->WebSocket_0.socket is None
            &&& after->WebSocket_0.url == ws.url
            &&& after->WebSocket_0.has_hook == ws.has_hook
            &&& after->WebSocket_0.reset_inflight == ws.reset_inflight
            &&& superseded_socket(before) == ws.socket
            &&& connect_epoch(before) == ws.epoch
            &&& ws.epoch < u64::MAX ==> connect_epoch(after) == ws.epoch + 1
            &&& held_sockets(before).len() <= 1
            &&& forall|socket: u64|
                #[trigger] held_sockets(before).contains(socket) <==> ws.socket == Some(socket)
        }),
        ({
            let before = BootstrapModel::Nostr(nostr);
            let after = connecting(before);
            &&& after is Nostr
            &&& after->Nostr_0 == (NostrModel {
                sockets: Seq::empty(),
                reconnect_epoch: after->Nostr_0.reconnect_epoch,
                ..nostr
            })
            &&& superseded_socket(before) is None
            &&& connect_epoch(before) == nostr.reconnect_epoch
            &&& nostr.reconnect_epoch < u64::MAX - 1 ==> connect_epoch(after)
                == nostr.reconnect_epoch + 2
            &&& held_sockets(before) == nostr.sockets
        }),
{
    assert forall|socket: u64| #[trigger]
        held_sockets(BootstrapModel::WebSocket(ws)).contains(socket) <==> ws.socket == Some(
            socket,
        ) by {
        if ws.socket == Some(socket) {
            assert(held_sockets(BootstrapModel::WebSocket(ws))[0] == socket);
        }
    }
}

/// A signaler that was closed is in no room and has forgotten everything about
/// its peers and the key that it took last; it keeps what it was set up with.
pub proof fn lemma_closing_forgets_the_session(ws: WsModel, nostr: NostrModel)
    ensures
        ({
            let after = closed(BootstrapModel::WebSocket(ws));
            &&& after is WebSocket
            &&& !after->WebSocket_0.has_receiver
            &&& after->WebSocket_0.socket is None
            &&& after->WebSocket_0.url == ws.url
            &&& after->WebSocket_0.has_hook == ws.has_hook
            &&& after->WebSocket_0.reset_inflight == ws.reset_inflight
            &&& ws.epoch < u64::MAX ==> after->WebSocket_0.epoch == ws.epoch + 1
        }),
        ({
            let after = closed(BootstrapModel::Nostr(nostr));
            &&& after is Nostr
            &&& after->Nostr_0.room is None
            &&& after->Nostr_0.joined_at is None
            &&& after->Nostr_0.rotated_key is None
            &&& after->Nostr_0.sockets.len() == 0
            &&& after->Nostr_0.requested == Set::<Seq<char>>::empty()
            &&& after->Nostr_0.sessions.dom() == Set::<Seq<char>>::empty()
            &&& after->Nostr_0.incoming.dom() == Set::<Seq<char>>::empty()
            &&& after->Nostr_0.outgoing.dom() == Set::<Seq<char>>::empty()
            &&& nostr.refresh_epoch < u64::MAX ==> after->Nostr_0.refresh_epoch
                == nostr.refresh_epoch + 1
            &&& nostr.keepalive_epoch < u64::MAX ==> after->Nostr_0.keepalive_epoch
                == nostr.keepalive_epoch + 1
            &&& nostr.reconnect_epoch < u64::MAX ==> after->Nostr_0.reconnect_epoch
                == nostr.reconnect_epoch + 1
            &&& after->Nostr_0.relays == nostr.relays
            &&& after->Nostr_0.relay_list_url == nostr.relay_list_url
            &&& after->Nostr_0.local_node == nostr.local_node
            &&& after->Nostr_0.public_key == nostr.public_key
            &&& after->Nostr_0.ttl_seconds == nostr.ttl_seconds
            &&& after->Nostr_0.discovery_kind == nostr.discovery_kind
            &&& after->Nostr_0.message_kind == nostr.message_kind
            &&& after->Nostr_0.discovery_subscription == nostr.discovery_subscription
            &&& after->Nostr_0.message_subscription == nostr.message_subscription
        }),
{
}

} // verus!
