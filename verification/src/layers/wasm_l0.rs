//! Joining and leaving of rooms.
//!
//! Every joined room has a session of its own. A join is reserved at once, so
//! that a leave right behind it sees it; building the session takes time, and
//! what happens meanwhile decides how the join ends.

use vstd::prelude::*;
use vstd::utf8::encode_utf8;

use crate::app::events::{
    emit_room_join_failed, emit_room_joined, emit_room_left, room_event, EmittedEvent, EventModel,
};
use crate::app::state::{
    joins_are_consistent, settings_passed_on, waiters_of, with_waiter, AppModel, AppState, Session,
};
use crate::app::{EVENT_ROOM_JOINED, EVENT_ROOM_JOIN_FAILED, EVENT_ROOM_LEFT};
use crate::config::{Config, SignalingMode};
use crate::session_registry::{
    holds_room, lemma_insert_then_get, lemma_remove_then_get, rooms_are_distinct, session_of,
    with_session, without_room,
};
use crate::signaling::nostr::{fresh_nostr, WasmNostrSignaler};
use crate::signaling::ws::{fresh_ws, WasmWebSocketSignaler};
use crate::signaling::{BootstrapModel, WasmBootstrapSignaler};
use crate::text::{join_text, texts_of};
use crate::transport::webrtc::ice_config::{copy_servers, same_servers};
use crate::transport::webrtc::{fresh_transport, TransportModel, WasmWebRtcTransport};
use crate::types::NodeId;

verus! {

/// Entry point of the client's layers; it holds nothing of its own.
#[derive(Debug, Clone, Copy)]
pub struct WasmL0;

impl Default for WasmL0 {
    fn default() -> (layer: Self)
        ensures
            layer == WasmL0,
    {
        WasmL0::new()
    }
}

/// How a join begins.
#[derive(Debug)]
pub enum JoinReservation {
    /// The room is joined. The page is told so now; all that is left is to ask
    /// for peers again.
    AlreadyActive { event: EmittedEvent },
    /// Another call builds the session; the caller waits for it.
    PiggyBack,
    /// The caller builds the session.
    Owner,
}

/// The three ways in which a join begins.
pub enum ReservationModel {
    AlreadyActive,
    PiggyBack,
    Owner,
}

/// How a join of `room` begins.
pub open spec fn reservation<S>(model: AppModel<S>, room: Seq<char>) -> ReservationModel {
    if holds_room(model.sessions, room) {
        ReservationModel::AlreadyActive
    } else if model.pending.contains(room) {
        ReservationModel::PiggyBack
    } else {
        ReservationModel::Owner
    }
}

/// The client after a join of `room` began. Joining again while the session is
/// being built takes back a leave that came in between.
pub open spec fn join_begun<S>(model: AppModel<S>, room: Seq<char>, waiter: u64) -> AppModel<S> {
    match reservation(model, room) {
        ReservationModel::AlreadyActive => model,
        ReservationModel::PiggyBack => with_waiter(
            AppModel { cancelled: model.cancelled.remove(room), ..model },
            room,
            waiter,
        ),
        ReservationModel::Owner => AppModel { pending: model.pending.insert(room), ..model },
    }
}

/// Why a join failed, where `built` is what building the session came to;
/// nothing if the join succeeded.
pub open spec fn join_failure<S>(
    model: AppModel<S>,
    room: Seq<char>,
    built: Result<S, String>,
) -> Option<Seq<char>> {
    match built {
        Ok(_) => if model.cancelled.contains(room) {
            Some("join cancelled by leave"@)
        } else {
            None
        },
        Err(reason) => Some(reason@),
    }
}

/// The client after the session of `room` was built or could not be built.
pub open spec fn join_ended<S>(
    model: AppModel<S>,
    room: Seq<char>,
    built: Result<S, String>,
) -> AppModel<S> {
    AppModel {
        sessions: match built {
            Ok(session) => if model.cancelled.contains(room) {
                model.sessions
            } else {
                with_session(model.sessions, room, session)
            },
            Err(_) => model.sessions,
        },
        pending: model.pending.remove(room),
        cancelled: model.cancelled.remove(room),
        waiters: model.waiters.remove(room),
        ..model
    }
}

/// The session that is torn down at the end of a join, if there is one.
pub open spec fn discarded_session<S>(
    model: AppModel<S>,
    room: Seq<char>,
    built: Result<S, String>,
) -> Option<S> {
    match built {
        Ok(session) => if model.cancelled.contains(room) {
            Some(session)
        } else {
            None
        },
        Err(_) => None,
    }
}

/// What the page is told at the end of a join, where `failure` is why it failed,
/// if it did.
pub open spec fn join_end_event(failure: Option<Seq<char>>, room: Seq<char>) -> EventModel {
    match failure {
        Some(reason) => room_event(EVENT_ROOM_JOIN_FAILED, encode_utf8(reason), room),
        None => room_event(EVENT_ROOM_JOINED, Seq::empty(), room),
    }
}

/// What the page is told when a room was left.
pub open spec fn left_event(room: Seq<char>) -> EventModel {
    room_event(EVENT_ROOM_LEFT, Seq::empty(), room)
}

/// The three things that leaving a room can come to.
pub enum LeaveModel {
    Left,
    JoinCancelled,
    NotJoined,
}

/// What leaving `room` comes to.
pub open spec fn leave_outcome<S>(model: AppModel<S>, room: Seq<char>) -> LeaveModel {
    if holds_room(model.sessions, room) {
        LeaveModel::Left
    } else if model.pending.contains(room) {
        LeaveModel::JoinCancelled
    } else {
        LeaveModel::NotJoined
    }
}

/// How the join that built a session ended.
#[derive(Debug)]
pub struct JoinEnd<S> {
    /// A session that was built for a room that has been left meanwhile. It is
    /// to be torn down.
    pub discarded: Option<S>,
    /// The callers that are to be told the outcome.
    pub waiters: Vec<u64>,
    pub outcome: Result<(), String>,
    pub event: EmittedEvent,
}

/// How a room was left.
#[derive(Debug)]
pub enum Leave<S> {
    /// The session is to be torn down, and the page told.
    Left { session: S, event: EmittedEvent },
    /// The room's join was still under way and will end as cancelled.
    JoinCancelled,
}

/// The client after `room` was left.
pub open spec fn room_left<S>(model: AppModel<S>, room: Seq<char>) -> AppModel<S> {
    if holds_room(model.sessions, room) {
        AppModel { sessions: without_room(model.sessions, room), ..model }
    } else if model.pending.contains(room) {
        AppModel { cancelled: model.cancelled.insert(room), ..model }
    } else {
        model
    }
}

/// The client after every room was left.
pub open spec fn all_rooms_left<S>(model: AppModel<S>) -> AppModel<S> {
    AppModel {
        sessions: Seq::empty(),
        cancelled: model.cancelled.union(model.pending),
        ..model
    }
}

/// A room that was left together with all others.
#[derive(Debug)]
pub struct LeftRoom<S> {
    pub session: S,
    pub event: EmittedEvent,
}

/// The text that says that a room is not joined.
pub open spec fn not_joined_text(room: Seq<char>) -> Seq<char> {
    "Room not joined: "@ + room
}

/// Says that a room is not joined.
pub fn not_joined(room_id: &str) -> (reason: String)
    ensures
        reason@ == not_joined_text(room_id@),
{
    join_text("Room not joined: ", room_id)
}

/// Says that the call that built the session never reported to a waiter.
pub fn waiter_dropped(room_id: &str) -> (reason: String)
    ensures
        reason@ == "join_room("@ + room_id@ + ") waiter was dropped without a result"@,
{
    let start = join_text("join_room(", room_id);
    join_text(start.as_str(), ") waiter was dropped without a result")
}

/// Begins a join. Nothing in it waits, so that a leave right behind it sees the
/// join.
pub fn reserve_join<S>(state: &mut AppState<S>, room_id: &str, waiter: u64) -> (result:
    JoinReservation)
    ensures
        final(state)@ == join_begun(old(state)@, room_id@, waiter),
        match reservation(old(state)@, room_id@) {
            ReservationModel::AlreadyActive => result is AlreadyActive && result->event@
                == room_event(EVENT_ROOM_JOINED, Seq::empty(), room_id@),
            ReservationModel::PiggyBack => result is PiggyBack,
            ReservationModel::Owner => result is Owner,
        },
        result is AlreadyActive ==> result->event@ == join_end_event(None, room_id@),
{
    if state.session_exists(room_id) {
        return JoinReservation::AlreadyActive { event: emit_room_joined(room_id.to_string()) };
    }
    if !state.mark_join_pending(room_id) {
        let _ = state.clear_cancelled_pending(room_id);
        state.register_join_waiter(room_id, waiter);
        return JoinReservation::PiggyBack;
    }
    JoinReservation::Owner
}

/// Ends the join that built a session: the room is joined unless building
/// failed or the room was left meanwhile.
pub fn finish_join<S>(
    state: &mut AppState<S>,
    room_id: String,
    built: Result<S, String>,
) -> (end: JoinEnd<S>)
    ensures
        final(state)@ == join_ended(old(state)@, room_id@, built),
        end.waiters@ == waiters_of(old(state)@, room_id@),
        match join_failure(old(state)@, room_id@, built) {
            Some(reason) => {
                &&& end.outcome is Err && end.outcome->Err_0@ == reason
                &&& end.event@ == room_event(EVENT_ROOM_JOIN_FAILED, encode_utf8(reason), room_id@)
            },
            None => {
                &&& end.outcome is Ok
                &&& end.event@ == room_event(EVENT_ROOM_JOINED, Seq::empty(), room_id@)
            },
        },
        match built {
            Ok(session) => end.discarded == (if old(state)@.cancelled.contains(room_id@) {
                Some(session)
            } else {
                None
            }),
            Err(_) => end.discarded is None,
        },
        end.discarded == discarded_session(old(state)@, room_id@, built),
        end.event@ == join_end_event(join_failure(old(state)@, room_id@, built), room_id@),
{
    state.clear_join_pending(room_id.as_str());
    let was_cancelled = state.clear_cancelled_pending(room_id.as_str());
    match built {
        Ok(session) => {
            if was_cancelled {
                let waiters = state.drain_join_waiters(room_id.as_str());
                let reason = "join cancelled by leave".to_string();
                let event = emit_room_join_failed(room_id, reason.as_str());
                JoinEnd { discarded: Some(session), waiters, outcome: Err(reason), event }
            } else {
                state.insert_session(room_id.clone(), session);
                let waiters = state.drain_join_waiters(room_id.as_str());
                JoinEnd {
                    discarded: None,
                    waiters,
                    outcome: Ok(()),
                    event: emit_room_joined(room_id),
                }
            }
        },
        Err(reason) => {
            let waiters = state.drain_join_waiters(room_id.as_str());
            let event = emit_room_join_failed(room_id, reason.as_str());
            JoinEnd { discarded: None, waiters, outcome: Err(reason), event }
        },
    }
}

/// Leaves one room. A room that is neither joined nor being joined is an error.
pub fn leave_room_id<S>(state: &mut AppState<S>, room_id: &str) -> (result: Result<Leave<S>, String>)
    ensures
        final(state)@ == room_left(old(state)@, room_id@),
        match session_of(old(state)@.sessions, room_id@) {
            Some(session) => {
                &&& result is Ok && result->Ok_0 is Left
                &&& result->Ok_0->session == session
                &&& result->Ok_0->event@ == room_event(EVENT_ROOM_LEFT, Seq::empty(), room_id@)
            },
            None => if old(state)@.pending.contains(room_id@) {
                result is Ok && result->Ok_0 is JoinCancelled
            } else {
                result is Err && result->Err_0@ == not_joined_text(room_id@)
            },
        },
        match leave_outcome(old(state)@, room_id@) {
            LeaveModel::Left => {
                &&& result is Ok && result->Ok_0 is Left
                &&& Some(result->Ok_0->session) == session_of(old(state)@.sessions, room_id@)
                &&& result->Ok_0->event@ == left_event(room_id@)
            },
            LeaveModel::JoinCancelled => result is Ok && result->Ok_0 is JoinCancelled,
            LeaveModel::NotJoined => result is Err,
        },
{
    if let Some(session) = state.remove_session(room_id) {
        return Ok(Leave::Left { session, event: emit_room_left(room_id.to_string()) });
    }
    if state.cancel_pending_join(room_id) {
        return Ok(Leave::JoinCancelled);
    }
    Err(not_joined(room_id))
}

impl WasmL0 {
    pub fn new() -> (layer: Self)
        ensures
            layer == WasmL0,
    {
        WasmL0
    }

    /// Takes the client's name and the address of its signaling server. No room
    /// is joined by it.
    pub fn initialize<S>(
        &self,
        state: &mut AppState<S>,
        local_id: NodeId,
        signaling_url: String,
    )
        ensures
            final(state)@ == (AppModel {
                self_id: local_id@,
                config: Config { signaling_url, ..old(state)@.config },
                ..old(state)@
            }),
    {
        state.set_self_id(local_id);
        state.base_config.signaling_url = signaling_url;
    }

    /// Begins a join.
    pub fn join_room<S>(&self, state: &mut AppState<S>, room_id: &str, waiter: u64) -> (result:
        JoinReservation)
        ensures
            final(state)@ == join_begun(old(state)@, room_id@, waiter),
            match reservation(old(state)@, room_id@) {
                ReservationModel::AlreadyActive => result is AlreadyActive && result->event@
                    == room_event(EVENT_ROOM_JOINED, Seq::empty(), room_id@),
                ReservationModel::PiggyBack => result is PiggyBack,
                ReservationModel::Owner => result is Owner,
            },
    {
        reserve_join(state, room_id, waiter)
    }

    /// Leaves every room, oldest first, and cancels every join under way.
    pub fn leave_room<S>(&self, state: &mut AppState<S>) -> (left: Vec<LeftRoom<S>>)
        ensures
            final(state)@ == all_rooms_left(old(state)@),
            left@.len() == old(state)@.sessions.len(),
            forall|i: int|
                0 <= i < left@.len() ==> (#[trigger] left@[i]).session
                    == old(state)@.sessions[i].1 && left@[i].event@ == room_event(
                    EVENT_ROOM_LEFT,
                    Seq::empty(),
                    old(state)@.sessions[i].0,
                ),
            forall|i: int|
                0 <= i < left@.len() ==> (#[trigger] left@[i]).event@ == left_event(
                    old(state)@.sessions[i].0,
                ),
    {
        state.cancel_all_pending_joins();
        let mut sessions = state.drain_all_sessions();
        let ghost order = old(state)@.sessions;
        let mut left: Vec<LeftRoom<S>> = Vec::new();
        while sessions.len() > 0
            invariant
                left@.len() + sessions@.len() == order.len(),
                forall|i: int|
                    0 <= i < sessions@.len() ==> ((#[trigger] sessions@[i]).0@, sessions@[i].1)
                        == order[left@.len() + i],
                forall|i: int|
                    0 <= i < left@.len() ==> (#[trigger] left@[i]).session == order[i].1
                        && left@[i].event@ == room_event(EVENT_ROOM_LEFT, Seq::empty(), order[i].0),
            decreases sessions@.len(),
        {
            let ghost before = sessions@;
            let (room_id, session) = sessions.remove(0);
            assert((before[0].0@, before[0].1) == order[left@.len() as int]);
            assert forall|i: int| 0 <= i < sessions@.len() implies (
            (#[trigger] sessions@[i]).0@, sessions@[i].1) == order[left@.len() + 1 + i] by {
                assert(sessions@[i] == before[i + 1]);
            }
            left.push(LeftRoom { session, event: emit_room_left(room_id) });
        }
        left
    }

    /// Replaces the settings, also those that the engines of the joined rooms go
    /// by. No room is joined or left by it.
    pub fn set_config<H>(&self, state: &mut AppState<Session<H>>, config: Config)
        ensures
            final(state)@ == (AppModel {
                config,
                sessions: final(state)@.sessions,
                ..old(state)@
            }),
            settings_passed_on(old(state)@.sessions, final(state)@.sessions, config),
    {
        state.set_session_configs(&config);
        state.set_base_config(config);
    }

    pub fn get_config<'a, S>(&self, state: &'a AppState<S>) -> (config: &'a Config)
        ensures
            *config == state@.config,
    {
        state.base_config()
    }
}

/// Whether `model` is a new transport of `room` that goes by the settings.
pub open spec fn is_built_transport(
    model: TransportModel,
    room: Seq<char>,
    local_node: Seq<char>,
    config: Config,
) -> bool {
    &&& same_servers(model.ice_servers, config.ice_servers@)
    &&& exists|base: TransportModel|
        {
            &&& #[trigger] fresh_transport(local_node, base)
            &&& model == (TransportModel {
                room,
                max_connections: config.limits.max_connection_count,
                max_message_bytes: config.limits.max_message_bytes,
                ice_servers: model.ice_servers,
                ..base
            })
        }
}

/// Builds the transport of a room's session by the settings.
pub fn build_transport(room_id: String, local_id: NodeId, config: &Config) -> (transport:
    WasmWebRtcTransport)
    ensures
        same_servers(transport@.ice_servers, config.ice_servers@),
        exists|base: TransportModel|
            {
                &&& #[trigger] fresh_transport(local_id@, base)
                &&& transport@ == (TransportModel {
                    room: room_id@,
                    max_connections: config.limits.max_connection_count,
                    max_message_bytes: config.limits.max_message_bytes,
                    ice_servers: transport@.ice_servers,
                    ..base
                })
            },
        is_built_transport(transport@, room_id@, local_id@, *config),
{
    let mut transport = WasmWebRtcTransport::new(local_id);
    let ghost base = transport@;
    transport.set_room_id(room_id);
    transport.set_max_connections(config.limits.max_connection_count);
    transport.set_max_message_bytes(config.limits.max_message_bytes);
    transport.set_ice_servers(copy_servers(&config.ice_servers));
    assert(fresh_transport(local_id@, base));
    transport
}

/// The signaler of a room's session by the settings.
pub open spec fn built_signaler(
    config: Config,
    local_node: Seq<char>,
    public_key: Seq<char>,
    discovery_subscription: Seq<char>,
    message_subscription: Seq<char>,
) -> BootstrapModel {
    match config.signaling_mode {
        SignalingMode::WebSocket => BootstrapModel::WebSocket(fresh_ws(config.signaling_url@)),
        SignalingMode::Nostr => BootstrapModel::Nostr(
            fresh_nostr(
                local_node,
                config.nostr->Some_0,
                public_key,
                discovery_subscription,
                message_subscription,
            ),
        ),
    }
}

/// Builds the signaler of a room's session by the settings. The key and the
/// names of the subscriptions are for signaling over relays, for which the
/// settings have to name relays.
pub fn build_bootstrap_signaler(
    config: &Config,
    local_id: &NodeId,
    public_key: String,
    discovery_subscription_id: String,
    message_subscription_id: String,
) -> (signaler: WasmBootstrapSignaler)
    requires
        config.signaling_mode == SignalingMode::Nostr ==> config.nostr is Some,
    ensures
        signaler@ == (match config.signaling_mode {
            SignalingMode::WebSocket => BootstrapModel::WebSocket(
                fresh_ws(config.signaling_url@),
            ),
            SignalingMode::Nostr => BootstrapModel::Nostr(
                fresh_nostr(
                    local_id@,
                    config.nostr->Some_0,
                    public_key@,
                    discovery_subscription_id@,
                    message_subscription_id@,
                ),
            ),
        }),
        signaler@ == built_signaler(
            *config,
            local_id@,
            public_key@,
            discovery_subscription_id@,
            message_subscription_id@,
        ),
{
    match (config.signaling_mode, &config.nostr) {
        (SignalingMode::Nostr, Some(nostr)) => WasmBootstrapSignaler::Nostr(
            WasmNostrSignaler::new(
                local_id.clone(),
                nostr.copy(),
                public_key,
                discovery_subscription_id,
                message_subscription_id,
            ),
        ),
        _ => WasmBootstrapSignaler::WebSocket(
            WasmWebSocketSignaler::new(config.signaling_url.as_str()),
        ),
    }
}

// --- Laws ---

/// Whatever is joined, left or finished, only a join that is under way stays
/// cancelled or waited for.
pub proof fn lemma_joins_stay_consistent<S>(
    model: AppModel<S>,
    room: Seq<char>,
    waiter: u64,
    built: Result<S, String>,
)
    requires
        joins_are_consistent(model),
    ensures
        joins_are_consistent(join_begun(model, room, waiter)),
        joins_are_consistent(join_ended(model, room, built)),
        joins_are_consistent(room_left(model, room)),
        joins_are_consistent(all_rooms_left(model)),
{
}

/// No two sessions of a room are built at once: while a join is under way,
/// every further join of the room waits for it.
pub proof fn lemma_one_build_per_room<S>(
    model: AppModel<S>,
    room: Seq<char>,
    first: u64,
    second: u64,
)
    requires
        !holds_room(model.sessions, room),
    ensures
        reservation(join_begun(model, room, first), room) == ReservationModel::PiggyBack,
        reservation(room_left(join_begun(model, room, first), room), room)
            == ReservationModel::PiggyBack,
        waiters_of(join_begun(join_begun(model, room, first), room, second), room).last() == second,
{
}

/// Joining, leaving and joining again before the session is built leaves the
/// room joined, and the second caller is told so.
pub proof fn lemma_join_leave_join_nets_to_joined<S>(
    model: AppModel<S>,
    room: Seq<char>,
    first: u64,
    second: u64,
    session: S,
)
    requires
        joins_are_consistent(model),
        rooms_are_distinct(model.sessions),
        reservation(model, room) == ReservationModel::Owner,
    ensures
        ({
            let begun = join_begun(model, room, first);
            let left = room_left(begun, room);
            let again = join_begun(left, room, second);
            let built = Ok::<S, String>(session);
            &&& reservation(left, room) == ReservationModel::PiggyBack
            &&& join_failure(again, room, built) is None
            &&& waiters_of(again, room) == seq![second]
            &&& session_of(join_ended(again, room, built).sessions, room) == Some(session)
        }),
{
    let again = join_begun(room_left(join_begun(model, room, first), room), room, second);
    lemma_insert_then_get(again.sessions, room, session, room);
    assert(!model.waiters.dom().contains(room));
    assert(waiters_of(again, room) =~= seq![second]);
}

/// A leave while the session is being built wins: the session is discarded,
/// every waiter is told that the join was cancelled, and the next join starts
/// afresh.
pub proof fn lemma_leave_during_join_wins<S>(
    model: AppModel<S>,
    room: Seq<char>,
    waiter: u64,
    session: S,
)
    requires
        reservation(model, room) == ReservationModel::Owner,
    ensures
        ({
            let left = room_left(join_begun(model, room, waiter), room);
            let built = Ok::<S, String>(session);
            let ended = join_ended(left, room, built);
            &&& join_failure(left, room, built) == Some("join cancelled by leave"@)
            &&& !holds_room(ended.sessions, room)
            &&& reservation(ended, room) == ReservationModel::Owner
            &&& !join_begun(ended, room, waiter).cancelled.contains(room)
        }),
{
}

/// However a join ended, no cancellation and no waiter of it is left behind: a
/// later join of the room is not affected by it.
pub proof fn lemma_ended_join_leaves_no_mark<S>(
    model: AppModel<S>,
    room: Seq<char>,
    built: Result<S, String>,
)
    ensures
        !join_ended(model, room, built).pending.contains(room),
        !join_ended(model, room, built).cancelled.contains(room),
        waiters_of(join_ended(model, room, built), room) == Seq::<u64>::empty(),
{
}

/// A waiter is never lost: until the join of its room ends, nothing removes it,
/// and when the join ends it is among those that are told.
pub proof fn lemma_waiters_are_kept<S>(
    model: AppModel<S>,
    room: Seq<char>,
    waiter: u64,
    other: Seq<char>,
    other_waiter: u64,
    built: Result<S, String>,
)
    requires
        waiters_of(model, room).contains(waiter),
    ensures
        waiters_of(join_begun(model, other, other_waiter), room).contains(waiter),
        waiters_of(room_left(model, other), room).contains(waiter),
        waiters_of(all_rooms_left(model), room).contains(waiter),
        other != room ==> waiters_of(join_ended(model, other, built), room).contains(waiter),
{
    let begun = join_begun(model, other, other_waiter);
    let at = choose|at: int|
        0 <= at < waiters_of(model, room).len() && waiters_of(model, room)[at] == waiter;
    assert(waiters_of(begun, room)[at] == waiter);
}

/// A room that was left is not joined any more, and no other room is affected.
pub proof fn lemma_leaving_is_local<S>(model: AppModel<S>, room: Seq<char>, other: Seq<char>)
    requires
        rooms_are_distinct(model.sessions),
    ensures
        !holds_room(room_left(model, room).sessions, room),
        other != room ==> {
            &&& session_of(room_left(model, room).sessions, other) == session_of(
                model.sessions,
                other,
            )
            &&& room_left(model, room).pending.contains(other) == model.pending.contains(other)
            &&& room_left(model, room).cancelled.contains(other) == model.cancelled.contains(other)
        },
{
    lemma_remove_then_get(model.sessions, room, other);
}

/// After everything was left no room is joined, and every join that was under
/// way ends as cancelled unless its room is joined again first.
pub proof fn lemma_leaving_everything_cancels_joins<S>(
    model: AppModel<S>,
    room: Seq<char>,
    session: S,
)
    ensures
        !holds_room(all_rooms_left(model).sessions, room),
        model.pending.contains(room) ==> join_failure(
            all_rooms_left(model),
            room,
            Ok::<S, String>(session),
        ) == Some("join cancelled by leave"@),
{
}

/// A join begins by what is there: a joined room needs nothing, a join under way
/// is waited for, and otherwise the caller builds the session.
pub proof fn lemma_joins_begin_by_what_is_there<S>(model: AppModel<S>, room: Seq<char>)
    ensures
        reservation(model, room) is AlreadyActive <==> holds_room(model.sessions, room),
        reservation(model, room) is PiggyBack <==> !holds_room(model.sessions, room)
            && model.pending.contains(room),
        reservation(model, room) is Owner <==> !holds_room(model.sessions, room)
            && !model.pending.contains(room),
{
}

/// Beginning a join joins nothing yet and concerns its room only. It marks the
/// join as under way; if one is under way already, the caller is put behind
/// those that wait and a cancellation is taken back; and a joined room is left
/// as it is.
pub proof fn lemma_beginning_a_join_concerns_its_room<S>(
    model: AppModel<S>,
    room: Seq<char>,
    waiter: u64,
    other: Seq<char>,
)
    ensures
        ({
            let after = join_begun(model, room, waiter);
            &&& after.sessions == model.sessions
            &&& after.self_id == model.self_id
            &&& after.config == model.config
            &&& other != room ==> {
                &&& after.pending.contains(other) == model.pending.contains(other)
                &&& after.cancelled.contains(other) == model.cancelled.contains(other)
                &&& waiters_of(after, other) == waiters_of(model, other)
            }
            &&& holds_room(model.sessions, room) ==> after == model
            &&& !holds_room(model.sessions, room) ==> {
                &&& after.pending.contains(room)
                &&& model.pending.contains(room) ==> {
                    &&& !after.cancelled.contains(room)
                    &&& waiters_of(after, room) == waiters_of(model, room).push(waiter)
                }
                &&& !model.pending.contains(room) ==> {
                    &&& after.cancelled == model.cancelled
                    &&& after.waiters == model.waiters
                }
            }
        }),
{
}

/// The end of a join concerns its room only. The room is joined with the session
/// that was built, unless none was built or the room was left meanwhile; in the
/// latter case the session is handed back to be torn down.
pub proof fn lemma_ending_a_join_concerns_its_room<S>(
    model: AppModel<S>,
    room: Seq<char>,
    session: S,
    reason: String,
    other: Seq<char>,
)
    requires
        rooms_are_distinct(model.sessions),
    ensures
        ({
            let after = join_ended(model, room, Ok::<S, String>(session));
            &&& other != room ==> {
                &&& session_of(after.sessions, other) == session_of(model.sessions, other)
                &&& after.pending.contains(other) == model.pending.contains(other)
                &&& after.cancelled.contains(other) == model.cancelled.contains(other)
                &&& waiters_of(after, other) == waiters_of(model, other)
            }
            &&& after.self_id == model.self_id
            &&& after.config == model.config
            &&& !model.cancelled.contains(room) ==> {
                &&& session_of(after.sessions, room) == Some(session)
                &&& join_failure(model, room, Ok::<S, String>(session)) is None
                &&& discarded_session(model, room, Ok::<S, String>(session)) is None
            }
            &&& model.cancelled.contains(room) ==> {
                &&& after.sessions == model.sessions
                &&& join_failure(model, room, Ok::<S, String>(session)) == Some(
                    "join cancelled by leave"@,
                )
                &&& discarded_session(model, room, Ok::<S, String>(session)) == Some(session)
            }
        }),
        ({
            let after = join_ended(model, room, Err::<S, String>(reason));
            &&& after == (AppModel { sessions: model.sessions, ..join_ended(
                model,
                room,
                Ok::<S, String>(session),
            ) })
            &&& join_failure(model, room, Err::<S, String>(reason)) == Some(reason@)
            &&& discarded_session(model, room, Err::<S, String>(reason)) is None
        }),
{
    lemma_insert_then_get(model.sessions, room, session, other);
}

/// Leaving a joined room leaves the joins under way alone; leaving a room whose
/// join is under way cancels that join and leaves the joined rooms alone; and
/// leaving any other room changes nothing.
pub proof fn lemma_leaving_changes_what_it_has_to<S>(
    model: AppModel<S>,
    room: Seq<char>,
    other: Seq<char>,
)
    ensures
        ({
            let after = room_left(model, room);
            &&& after.self_id == model.self_id
            &&& after.config == model.config
            &&& after.pending == model.pending
            &&& after.waiters == model.waiters
            &&& holds_room(model.sessions, room) ==> {
                &&& leave_outcome(model, room) is Left
                &&& after.cancelled == model.cancelled
                &&& after.sessions == without_room(model.sessions, room)
            }
            &&& !holds_room(model.sessions, room) ==> {
                &&& after.sessions == model.sessions
                &&& after.cancelled.contains(other) == (model.cancelled.contains(other) || (other
                    == room && model.pending.contains(room)))
                &&& leave_outcome(model, room) is JoinCancelled <==> model.pending.contains(room)
                &&& leave_outcome(model, room) is NotJoined <==> !model.pending.contains(room)
            }
        }),
{
}

/// Leaving everything leaves every joined room and cancels every join under way;
/// who waits for a join goes on to wait for its end.
pub proof fn lemma_leaving_everything_leaves_nothing_joined<S>(model: AppModel<S>, room: Seq<char>)
    ensures
        ({
            let after = all_rooms_left(model);
            &&& after.sessions.len() == 0
            &&& after.self_id == model.self_id
            &&& after.config == model.config
            &&& after.pending == model.pending
            &&& after.waiters == model.waiters
            &&& after.cancelled.contains(room) <==> model.cancelled.contains(room)
                || model.pending.contains(room)
        }),
{
}

/// The page is told of a joined room, of a failed join with the reason, and of a
/// room that was left, each time with the room's name.
pub proof fn lemma_page_is_told_about_rooms(room: Seq<char>, reason: Seq<char>)
    ensures
        join_end_event(None, room).kind == 8,
        join_end_event(None, room).payload.len() == 0,
        join_end_event(Some(reason), room).kind == 9,
        join_end_event(Some(reason), room).payload == encode_utf8(reason),
        left_event(room).kind == 10,
        left_event(room).payload.len() == 0,
        join_end_event(None, room).room == room,
        join_end_event(Some(reason), room).room == room,
        left_event(room).room == room,
        join_end_event(None, room).from.len() == 0,
        join_end_event(Some(reason), room).from.len() == 0,
        left_event(room).from.len() == 0,
        not_joined_text(room) == "Room not joined: "@ + room,
{
}

/// A room's transport starts without any connection and keeps to the limits and
/// the servers of the settings.
pub proof fn lemma_transports_follow_the_settings(
    model: TransportModel,
    room: Seq<char>,
    local_node: Seq<char>,
    config: Config,
)
    requires
        is_built_transport(model, room, local_node, config),
    ensures
        model.room == room,
        model.local_node == local_node,
        model.max_connections == config.limits.max_connection_count,
        model.max_message_bytes == config.limits.max_message_bytes,
        model.ice_servers.len() == config.ice_servers@.len(),
        forall|i: int|
            0 <= i < model.ice_servers.len() ==> (#[trigger] model.ice_servers[i]).urls@
                == config.ice_servers@[i].urls@ && model.ice_servers[i].username
                == config.ice_servers@[i].username && model.ice_servers[i].credential
                == config.ice_servers@[i].credential,
        model.peers.dom() == Set::<Seq<char>>::empty(),
        model.states.dom() == Set::<Seq<char>>::empty(),
        model.pending.dom() == Set::<Seq<char>>::empty(),
        model.tracks.dom() == Set::<Seq<char>>::empty(),
        !model.sweeper_started,
{
}

/// A room's signaler is of the kind that the settings ask for and starts without
/// a socket and outside of any room.
pub proof fn lemma_signalers_follow_the_settings(
    config: Config,
    local_node: Seq<char>,
    public_key: Seq<char>,
    discovery_subscription: Seq<char>,
    message_subscription: Seq<char>,
)
    ensures
        ({
            let built = built_signaler(
                config,
                local_node,
                public_key,
                discovery_subscription,
                message_subscription,
            );
            &&& built is WebSocket <==> config.signaling_mode == SignalingMode::WebSocket
            &&& built is Nostr <==> config.signaling_mode == SignalingMode::Nostr
            &&& built matches BootstrapModel::WebSocket(ws) ==> {
                &&& ws.url == config.signaling_url@
                &&& ws.socket is None
                &&& !ws.has_receiver
                &&& ws.epoch == 0
                &&& !ws.reset_inflight
                &&& !ws.has_hook
            }
            &&& built matches BootstrapModel::Nostr(nostr) ==> {
                &&& nostr.relays == texts_of(config.nostr->Some_0.relays@)
                &&& nostr.relay_list_url == config.nostr->Some_0.relay_list_url
                &&& nostr.ttl_seconds == config.nostr->Some_0.ttl_seconds
                &&& nostr.discovery_kind == config.nostr->Some_0.discovery_kind
                &&& nostr.message_kind == config.nostr->Some_0.message_kind
                &&& nostr.local_node == local_node
                &&& nostr.public_key == public_key
                &&& nostr.rotated_key is None
                &&& nostr.discovery_subscription == discovery_subscription
                &&& nostr.message_subscription == message_subscription
                &&& nostr.sockets.len() == 0
                &&& nostr.room is None
                &&& nostr.joined_at is None
                &&& nostr.requested == Set::<Seq<char>>::empty()
                &&& nostr.sessions.dom() == Set::<Seq<char>>::empty()
                &&& nostr.incoming.dom() == Set::<Seq<char>>::empty()
                &&& nostr.outgoing.dom() == Set::<Seq<char>>::empty()
            }
        }),
{
}

} // verus!
