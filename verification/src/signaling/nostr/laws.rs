//! What holds of signaling over relays as a whole.

use vstd::prelude::*;

use super::connection::{
    connect_failure, is_idle, relay_end, relay_ended, relay_error_noted, relay_start, socket_dropped,
    watch, without_handle, OpenedModel, RelayClosed, RelaysOpened, WatchdogStep,
};
use super::handler::{
    addressed, after_message_fact, announced, discovery_counts, discovery_taken, event_route,
    handed_on, has_rejoined, is_answered, is_asked, is_considered, is_for_somebody_else, last_number,
    message_noted, rejoin_news, request_noted, sender_bound, sender_is_admitted, MessageFact,
    MessageStep, RouteModel,
};
use super::{
    changes_room, connection_request, current_key, dedupe_seconds, frame_targets, in_room,
    is_publishable, open_sockets, peer_purged, send_kind, sending_begun, session_cleared,
    session_restarted, NostrModel, SendKind,
};
use crate::text::decimal_text;
use crate::types::{ErrorModel, MessageContent, SignalingData, SignalingModel, SignalingType};

verus! {

// --- Session ---

/// An event is recognised again for twice its lifetime, as far as that can be
/// counted, and for a second if it has none.
pub proof fn lemma_events_are_remembered_for_two_lifetimes(ttl_seconds: u64)
    ensures
        dedupe_seconds(ttl_seconds) >= 1,
        1 <= ttl_seconds && 2 * ttl_seconds <= u64::MAX ==> dedupe_seconds(ttl_seconds)
            == ttl_seconds + ttl_seconds,
        2 * ttl_seconds > u64::MAX ==> dedupe_seconds(ttl_seconds) == u64::MAX,
        ttl_seconds == 0 ==> dedupe_seconds(ttl_seconds) == 1,
{
}

/// The key that was taken last is in use.
pub proof fn lemma_last_key_is_in_use(model: NostrModel, key: Seq<char>)
    ensures
        current_key(NostrModel { rotated_key: Some(key), ..model }) == key,
        current_key(NostrModel { rotated_key: None, ..model }) == model.public_key,
{
}

/// Clearing the session forgets what was learnt about peers and nothing else.
pub proof fn lemma_clearing_forgets_peers_only(model: NostrModel)
    ensures
        ({
            let after = session_cleared(model);
            &&& after.outgoing.dom() == Set::<Seq<char>>::empty()
            &&& after.incoming.dom() == Set::<Seq<char>>::empty()
            &&& after.sessions.dom() == Set::<Seq<char>>::empty()
            &&& after.requested == Set::<Seq<char>>::empty()
            &&& model == (NostrModel {
                outgoing: model.outgoing,
                incoming: model.incoming,
                sessions: model.sessions,
                requested: model.requested,
                ..after
            })
        }),
{
}

/// Purging a key forgets what is known under it and nothing else.
pub proof fn lemma_purging_touches_tables_only(model: NostrModel, key: Seq<char>)
    ensures
        ({
            let after = peer_purged(model, key);
            &&& after.outgoing == model.outgoing.remove(key)
            &&& after.incoming == model.incoming.remove(key)
            &&& after.sessions == model.sessions.remove(key)
            &&& after.requested == model.requested.remove(key)
            &&& model == (NostrModel {
                outgoing: model.outgoing,
                incoming: model.incoming,
                sessions: model.sessions,
                requested: model.requested,
                ..after
            })
        }),
{
}

/// Only a named room that is not the present one is moved to; the time of the
/// move is remembered, and the sockets, keys and epochs are kept.
pub proof fn lemma_moving_needs_another_room(model: NostrModel, room: Seq<char>, now: u64)
    ensures
        changes_room(model, room) <==> room.len() > 0 && (model.room is None
            || model.room->Some_0 != room),
        !changes_room(model, room) ==> in_room(model, room, now) == model,
        changes_room(model, room) ==> {
            let after = in_room(model, room, now);
            &&& after.room == Some(room)
            &&& after.joined_at == Some(now)
            &&& model == (NostrModel {
                room: model.room,
                joined_at: model.joined_at,
                outgoing: model.outgoing,
                incoming: model.incoming,
                sessions: model.sessions,
                requested: model.requested,
                ..after
            })
        },
{
}

/// Where the session begins anew in a room, the new key is in use, everything
/// about peers is forgotten, the room is kept and the announcing before is
/// superseded. Outside of a room nothing happens.
pub proof fn lemma_restarts_take_a_new_key(model: NostrModel, key: Seq<char>, now: u64)
    ensures
        model.room is None ==> session_restarted(model, key, now) == model,
        model.room is Some ==> {
            let after = session_restarted(model, key, now);
            &&& current_key(after) == key
            &&& after.joined_at == Some(now)
            &&& after.room == model.room
            &&& after.requested == Set::<Seq<char>>::empty()
            &&& after.sessions.dom() == Set::<Seq<char>>::empty()
            &&& after.incoming.dom() == Set::<Seq<char>>::empty()
            &&& after.outgoing.dom() == Set::<Seq<char>>::empty()
            &&& model.refresh_epoch < u64::MAX - 1 ==> after.refresh_epoch == model.refresh_epoch
                + 2
            &&& model == (NostrModel {
                rotated_key: model.rotated_key,
                joined_at: model.joined_at,
                refresh_epoch: model.refresh_epoch,
                outgoing: model.outgoing,
                incoming: model.incoming,
                sessions: model.sessions,
                requested: model.requested,
                ..after
            })
        },
{
}

// --- Sending ---

/// A frame goes to every open socket, in order, and to no other; it is an error
/// if there is none.
pub proof fn lemma_frames_reach_every_open_socket(
    sockets: Seq<u64>,
    open: Seq<bool>,
    socket: u64,
    state: bool,
)
    requires
        open.len() == sockets.len(),
    ensures
        open_sockets(sockets.push(socket), open.push(true)) == open_sockets(sockets, open).push(
            socket,
        ),
        open_sockets(sockets.push(socket), open.push(false)) == open_sockets(sockets, open),
        open_sockets(Seq::empty(), Seq::empty()).len() == 0,
        frame_targets(sockets.push(socket), open.push(true)) == Ok::<Seq<u64>, ErrorModel>(
            open_sockets(sockets, open).push(socket),
        ),
        frame_targets(Seq::empty(), Seq::empty()) == Err::<Seq<u64>, ErrorModel>(
            ErrorModel::Signaling("WasmNostrSignaler: no relay connection is open"@),
        ),
        open_sockets(sockets, open).len() == 0 ==> frame_targets(
            sockets.push(socket),
            open.push(false),
        ) == Err::<Seq<u64>, ErrorModel>(
            ErrorModel::Signaling("WasmNostrSignaler: relay websocket is not open"@),
        ),
        open_sockets(sockets, open).len() > 0 ==> frame_targets(
            sockets.push(socket),
            open.push(false),
        ) == Ok::<Seq<u64>, ErrorModel>(open_sockets(sockets, open)),
{
    assert(sockets.push(socket).drop_last() =~= sockets);
    assert(open.push(state).drop_last() =~= open);
    assert(open.push(true).drop_last() =~= open);
    assert(open.push(false).drop_last() =~= open);
}

/// A message to the server or to everybody announces the client in the room that
/// it names, and any other message goes to its receiver.
pub proof fn lemma_messages_to_nodes_go_directly(to: Seq<char>, room: Seq<char>)
    ensures
        to != "server"@ && to.len() > 0 ==> send_kind(to, room) is Direct,
        room.len() > 0 ==> send_kind(Seq::empty(), room) is Discovery && send_kind(
            "server"@,
            room,
        ) is Discovery,
        send_kind(Seq::empty(), Seq::empty()) is Nothing,
        send_kind("server"@, Seq::empty()) is Nothing,
{
}

/// Sending a message moves to the message's room, except for news that are only
/// ever made up locally, which go to no relay, and for what is no signaling
/// message.
pub proof fn lemma_sending_moves_to_the_room(
    model: NostrModel,
    data: SignalingData,
    other: MessageContent,
    now: u64,
)
    requires
        !(other is Data),
    ensures
        data.signaling_type == SignalingType::Rejoin ==> sending_begun(
            model,
            MessageContent::Data(data),
            now,
        ) == model && !is_publishable(data.signaling_type),
        data.signaling_type != SignalingType::Rejoin ==> is_publishable(data.signaling_type),
        data.signaling_type != SignalingType::Rejoin && data.room_id@.len() > 0 ==> sending_begun(
            model,
            MessageContent::Data(data),
            now,
        ).room == Some(data.room_id@),
        data.signaling_type != SignalingType::Rejoin ==> sending_begun(
            model,
            MessageContent::Data(data),
            now,
        ) == in_room(model, data.room_id@, now),
        sending_begun(model, other, now) == model,
{
}

/// A request comes from this node, goes to everybody and names the room.
pub proof fn lemma_requests_are_for_everybody(model: NostrModel, room: Seq<char>)
    ensures
        connection_request(model, room).sender == model.local_node,
        connection_request(model, room).receiver.len() == 0,
        connection_request(model, room).room == room,
        connection_request(model, room).data.len() == 0,
        connection_request(model, room).kind == SignalingType::Request,
{
}

// --- Connections ---

/// One open relay is enough for a connect, and a failed connect says whether
/// time was the reason.
pub proof fn lemma_one_relay_is_enough(opened: RelaysOpened)
    ensures
        connect_failure(opened) is None <==> opened == RelaysOpened::AtLeastOne,
        connect_failure(RelaysOpened::NotAny) == Some(
            "WasmNostrSignaler: failed to connect to any relay"@,
        ),
        connect_failure(RelaysOpened::TimedOut) == Some(
            "WasmNostrSignaler: relay connection timed out"@,
        ),
{
}

/// Dropping a socket keeps the others in order and changes nothing else.
pub proof fn lemma_other_sockets_keep_their_order(model: NostrModel, ws: u64, socket: u64)
    ensures
        without_handle(Seq::empty(), ws).len() == 0,
        without_handle(model.sockets.push(ws), ws) == without_handle(model.sockets, ws),
        socket != ws ==> without_handle(model.sockets.push(socket), ws) == without_handle(
            model.sockets,
            ws,
        ).push(socket),
        socket_dropped(model, ws).sockets == without_handle(model.sockets, ws),
        model == (NostrModel { sockets: model.sockets, ..socket_dropped(model, ws) }),
{
    reveal(Seq::filter);
    assert(model.sockets.push(ws).drop_last() =~= model.sockets);
    assert(model.sockets.push(socket).drop_last() =~= model.sockets);
}

/// A socket that closes or fails before it opened is dropped and reported; one
/// that closes in its epoch is dropped and opened anew; one that closes in a
/// later epoch does not matter, and neither does an error of an open one, which
/// its end follows.
pub proof fn lemma_lost_relays_are_opened_anew(model: NostrModel, epoch: u64, ws: u64)
    ensures
        relay_end(model, epoch, true) == RelayClosed::ReportFailure,
        relay_end(model, model.reconnect_epoch, false) == RelayClosed::Reconnect,
        epoch != model.reconnect_epoch ==> relay_end(model, epoch, false) == RelayClosed::Ignore,
        relay_ended(model, epoch, ws, true) == socket_dropped(model, ws),
        relay_ended(model, model.reconnect_epoch, ws, false) == socket_dropped(model, ws),
        epoch != model.reconnect_epoch ==> relay_ended(model, epoch, ws, false) == model,
        relay_error_noted(model, ws, true) == socket_dropped(model, ws),
        relay_error_noted(model, ws, false) == model,
{
}

/// A socket that opens in its epoch subscribes to the room, if there is one; one
/// that opens later is told so.
pub proof fn lemma_opened_relays_subscribe(model: NostrModel, epoch: u64, room: Seq<char>)
    ensures
        epoch != model.reconnect_epoch ==> relay_start(model, epoch) is Stale,
        model.room == Some(room) ==> relay_start(model, model.reconnect_epoch) == (
        OpenedModel::Subscribe { room }),
        model.room is None ==> relay_start(model, model.reconnect_epoch) is Ready,
{
}

/// An open connection of the present epoch is closed exactly if it was silent
/// for a minute or longer, and watched until then; no other is watched.
pub proof fn lemma_silent_relays_are_closed(
    model: NostrModel,
    epoch: u64,
    open: bool,
    elapsed_ms: u128,
    threshold_ms: u32,
)
    ensures
        watch(model, model.reconnect_epoch, true, elapsed_ms) == WatchdogStep::Close <==> elapsed_ms
            >= 60000,
        watch(model, model.reconnect_epoch, true, elapsed_ms) == WatchdogStep::Watch <==> elapsed_ms
            < 60000,
        watch(model, epoch, false, elapsed_ms) == WatchdogStep::Stop,
        epoch != model.reconnect_epoch ==> watch(model, epoch, open, elapsed_ms)
            == WatchdogStep::Stop,
        is_idle(threshold_ms as u128, threshold_ms),
        elapsed_ms < threshold_ms ==> !is_idle(elapsed_ms, threshold_ms),
        elapsed_ms > threshold_ms ==> is_idle(elapsed_ms, threshold_ms),
{
}

// --- Events ---

/// The client's own events and whatever comes outside of a room are ignored; of
/// the others those of the two kinds that the settings name are read, each in
/// its way and for the present room.
pub proof fn lemma_events_are_read_by_kind(
    model: NostrModel,
    key: Seq<char>,
    kind: u64,
    room: Seq<char>,
)
    ensures
        event_route(model, current_key(model), kind) is Ignore,
        model.room is None ==> event_route(model, key, kind) is Ignore,
        key != current_key(model) && model.room == Some(room) ==> {
            &&& event_route(model, key, model.discovery_kind) == (RouteModel::Discovery { room })
            &&& model.message_kind != model.discovery_kind ==> event_route(
                model,
                key,
                model.message_kind,
            ) == (RouteModel::Message { room })
            &&& kind != model.discovery_kind && kind != model.message_kind ==> event_route(
                model,
                key,
                kind,
            ) is Ignore
        },
{
}

/// An announcement counts once, and only in the room for which it was read.
pub proof fn lemma_announcements_count_once(
    model: NostrModel,
    room: Seq<char>,
    fresh: bool,
    key: Seq<char>,
    joined_at: Option<u64>,
)
    ensures
        discovery_counts(model, room, true) <==> model.room == Some(room),
        !discovery_counts(model, room, false),
        discovery_counts(model, room, fresh) ==> discovery_taken(
            model,
            room,
            fresh,
            key,
            joined_at,
        ) == announced(model, key, joined_at),
        !discovery_counts(model, room, fresh) ==> discovery_taken(
            model,
            room,
            fresh,
            key,
            joined_at,
        ) == model,
{
}

/// The holder of a key has joined again exactly if it announces a later time
/// than the one that is remembered. The latest time is the one that stays
/// remembered; a later join makes earlier requests and numbers void, and nothing
/// is changed for other keys or by an announcement without a time.
pub proof fn lemma_later_joins_make_earlier_ones_void(
    model: NostrModel,
    key: Seq<char>,
    at: u64,
    other: Seq<char>,
)
    requires
        other != key,
    ensures
        announced(model, key, None) == model,
        !has_rejoined(model, key, None),
        !model.sessions.dom().contains(key) ==> !has_rejoined(model, key, Some(at)),
        model.sessions.dom().contains(key) ==> (has_rejoined(model, key, Some(at)) <==> at
            > model.sessions[key]),
        ({
            let after = announced(model, key, Some(at));
            &&& after.sessions.dom().contains(key)
            &&& !model.sessions.dom().contains(key) ==> after.sessions[key] == at
            &&& model.sessions.dom().contains(key) ==> after.sessions[key] == (if at
                > model.sessions[key] {
                at
            } else {
                model.sessions[key]
            })
            &&& has_rejoined(model, key, Some(at)) ==> {
                &&& !after.requested.contains(key)
                &&& !after.incoming.dom().contains(key)
                &&& !after.outgoing.dom().contains(key)
            }
            &&& !has_rejoined(model, key, Some(at)) ==> {
                &&& after.requested == model.requested
                &&& after.incoming == model.incoming
                &&& after.outgoing == model.outgoing
            }
            &&& after.requested.contains(other) == model.requested.contains(other)
            &&& after.sessions.dom().contains(other) == model.sessions.dom().contains(other)
            &&& model.sessions.dom().contains(other) ==> after.sessions[other]
                == model.sessions[other]
            &&& after.incoming.dom().contains(other) == model.incoming.dom().contains(other)
            &&& after.outgoing.dom().contains(other) == model.outgoing.dom().contains(other)
            &&& model == (NostrModel {
                outgoing: model.outgoing,
                incoming: model.incoming,
                sessions: model.sessions,
                requested: model.requested,
                ..after
            })
        }),
{
}

/// A key is sent one request: the first that is wanted, and none after it.
pub proof fn lemma_keys_are_asked_once(model: NostrModel, key: Seq<char>, other: Seq<char>)
    ensures
        !model.requested.contains(key) ==> is_asked(model, key, true),
        !is_asked(model, key, false),
        !is_asked(request_noted(model, key, true), key, true),
        request_noted(model, key, false) == model,
        other != key ==> is_asked(request_noted(model, key, true), other, true) == is_asked(
            model,
            other,
            true,
        ),
        model == (NostrModel { requested: model.requested, ..request_noted(model, key, true) }),
{
}

/// A message that cannot be read is passed over if it was sealed for another
/// node of the room or names another receiver; any other such message is an
/// error.
pub proof fn lemma_only_messages_for_others_are_passed_over(
    text: Seq<char>,
    error: ErrorModel,
    to_everybody: bool,
)
    requires
        !(error is Signaling),
        text != "invalid encrypted Nostr payload"@,
        text != "Nostr message receiver pubkey mismatch"@,
    ensures
        is_for_somebody_else(ErrorModel::Signaling("invalid encrypted Nostr payload"@), true),
        is_for_somebody_else(
            ErrorModel::Signaling("Nostr message receiver pubkey mismatch"@),
            to_everybody,
        ),
        !is_for_somebody_else(ErrorModel::Signaling("invalid encrypted Nostr payload"@), false),
        !is_for_somebody_else(ErrorModel::Signaling(text), to_everybody),
        !is_for_somebody_else(error, to_everybody),
{
    reveal_strlit("invalid encrypted Nostr payload");
    reveal_strlit("Nostr message receiver pubkey mismatch");
    assert("invalid encrypted Nostr payload"@[0] != "Nostr message receiver pubkey mismatch"@[0]);
}

/// A message is looked at further exactly if it is new, was read in the present
/// room and may come from a relay.
pub proof fn lemma_new_messages_of_the_room_are_considered(
    model: NostrModel,
    room: Seq<char>,
    fresh: bool,
    kind: SignalingType,
)
    ensures
        kind != SignalingType::Rejoin && model.room == Some(room) ==> is_considered(
            model,
            room,
            true,
            kind,
        ),
        !is_considered(model, room, false, kind),
        model.room != Some(room) ==> !is_considered(model, room, fresh, kind),
{
}

/// A sender whose key is known or was asked is let in whatever it says of its
/// join; a stranger never is; and a known node under a new key needs a join that
/// is later than the last one, or any join if none is remembered.
pub proof fn lemma_senders_are_let_in_by_key_or_later_join(
    known: bool,
    stored: Option<u64>,
    claimed: Option<u64>,
    at: u64,
    last: u64,
)
    ensures
        sender_is_admitted(true, known, stored, claimed),
        !sender_is_admitted(false, false, stored, claimed),
        !sender_is_admitted(false, true, stored, None),
        sender_is_admitted(false, true, None, Some(at)),
        sender_is_admitted(false, true, Some(last), Some(at)) <==> at > last,
{
}

/// Each check of a message leads to the next one or drops it, and the next one
/// gets what it needs: whether the sender was asked, and the number of its last
/// message.
pub proof fn lemma_checks_follow_each_other(
    model: NostrModel,
    room: Seq<char>,
    message: SignalingModel,
    key: Seq<char>,
    joined_at: Option<u64>,
    number: u64,
    sequence: Option<u64>,
    admitted: bool,
    known: bool,
    stored: Option<u64>,
)
    ensures
        is_considered(model, room, true, message.kind) ==> after_message_fact(
            model,
            room,
            message,
            key,
            joined_at,
            MessageFact::Marked { fresh: true },
        ) == (MessageStep::FindSender { requested: model.requested.contains(key) }),
        after_message_fact(
            model,
            room,
            message,
            key,
            joined_at,
            MessageFact::Marked { fresh: false },
        ) == MessageStep::Drop,
        sender_is_admitted(admitted, known, stored, joined_at) ==> after_message_fact(
            model,
            room,
            message,
            key,
            joined_at,
            MessageFact::SenderFound { admitted, known, stored_epoch: stored },
        ) == (MessageStep::CheckOrder { last: last_number(model, key) }),
        !sender_is_admitted(admitted, known, stored, joined_at) ==> after_message_fact(
            model,
            room,
            message,
            key,
            joined_at,
            MessageFact::SenderFound { admitted, known, stored_epoch: stored },
        ) == MessageStep::Drop,
        after_message_fact(
            model,
            room,
            message,
            key,
            joined_at,
            MessageFact::Ordered { accepted: false, sequence },
        ) == MessageStep::Drop,
        after_message_fact(
            model,
            room,
            message,
            key,
            joined_at,
            MessageFact::Ordered { accepted: true, sequence },
        ) == (MessageStep::Bind {
            answers_request: model.requested.contains(key) && message.kind
                == SignalingType::Request,
        }),
        !model.incoming.dom().contains(key) ==> last_number(model, key) is None,
        model.incoming.dom().contains(key) ==> last_number(model, key) == Some(model.incoming[key]),
{
}

/// Comparing a message with the last one of its sender is all that changes a
/// number, and it changes the sender's number only: the next message is compared
/// with this one.
pub proof fn lemma_numbers_are_noted_by_sender(
    model: NostrModel,
    key: Seq<char>,
    number: u64,
    accepted: bool,
    fact: MessageFact,
    other: Seq<char>,
)
    requires
        !(fact is Ordered),
        other != key,
    ensures
        ({
            let noted = message_noted(
                model,
                key,
                MessageFact::Ordered { accepted, sequence: Some(number) },
            );
            &&& last_number(noted, key) == Some(number)
            &&& last_number(noted, other) == last_number(model, other)
            &&& model == (NostrModel { incoming: model.incoming, ..noted })
        }),
        message_noted(model, key, MessageFact::Ordered { accepted, sequence: None }) == model,
        message_noted(model, key, fact) == model,
{
}

/// A message is handed on as it came, except that one for everybody is for this
/// node, and the news of a restarted sender tells its name and when it joined.
/// Nothing is handed on in another room.
pub proof fn lemma_messages_are_handed_on_whole(
    model: NostrModel,
    message: SignalingModel,
    room: Seq<char>,
    joined_at: Option<u64>,
    rebound: bool,
)
    ensures
        message.receiver.len() > 0 ==> addressed(model, message) == message,
        message.receiver.len() == 0 ==> addressed(model, message) == (SignalingModel {
            receiver: model.local_node,
            ..message
        }),
        model.room != Some(room) ==> handed_on(model, message, room, joined_at, rebound).len() == 0,
        model.room == Some(room) ==> {
            &&& handed_on(model, message, room, joined_at, false) == seq![addressed(model, message)]
            &&& handed_on(model, message, room, joined_at, true) == seq![
                rejoin_news(model, message, room, joined_at),
                addressed(model, message),
            ]
        },
        ({
            let news = rejoin_news(model, message, room, joined_at);
            &&& news.sender == message.sender
            &&& news.receiver == model.local_node
            &&& news.room == room
            &&& news.kind == SignalingType::Rejoin
            &&& joined_at is None ==> news.data == decimal_text(0)
            &&& joined_at is Some ==> news.data == decimal_text(joined_at->Some_0 as nat)
        }),
{
}

/// A stranger that asks everybody in the present room for a connection is asked
/// in return; nobody else is.
pub proof fn lemma_strangers_are_asked_in_return(
    model: NostrModel,
    room: Seq<char>,
    message: SignalingModel,
    known: bool,
)
    ensures
        model.room == Some(room) && message.kind == SignalingType::Request
            && message.receiver.len() == 0 ==> is_answered(model, room, message, false),
        !is_answered(model, room, message, true),
        model.room != Some(room) ==> !is_answered(model, room, message, known),
        message.kind != SignalingType::Request ==> !is_answered(model, room, message, known),
        message.receiver.len() > 0 ==> !is_answered(model, room, message, known),
{
}

/// A sender under a new key leaves nothing behind under the old one; any other
/// sender changes nothing.
pub proof fn lemma_old_keys_are_purged(model: NostrModel, previous: Seq<char>)
    ensures
        sender_bound(model, None) == model,
        sender_bound(model, Some(previous)) == peer_purged(model, previous),
{
}

} // verus!
