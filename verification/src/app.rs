//! The client as the page sees it: rooms, messages and settings.

pub mod events;
pub mod nodes;
pub mod send;
pub mod state;

use vstd::prelude::*;

use crate::app::events::room_event;
use crate::app::state::{settings_passed_on, AppModel, AppState, Session};
use crate::config::{same_config, Config};
use crate::json::{json_member, optional_text, parse_member};
use crate::layers::wasm_l0::{
    self, all_rooms_left, join_begun, not_joined, not_joined_text, reservation, room_left,
    JoinReservation, Leave, LeftRoom, ReservationModel, WasmL0,
};
use crate::session_registry::{
    holds_room, lemma_place_is_unique, place_of, room_names, rooms_are_distinct, session_of,
};
use crate::text::texts_of;
use crate::types::NodeId;

verus! {

pub const EVENT_RAW: u32 = 0;

pub const EVENT_OVERLAY: u32 = 1;

pub const EVENT_NEIGHBORS: u32 = 2;

pub const EVENT_AOI_ENTERED: u32 = 3;

pub const EVENT_AOI_LEFT: u32 = 4;

pub const EVENT_PEER_CONNECTED: u32 = 5;

pub const EVENT_PEER_DISCONNECTED: u32 = 6;

pub const EVENT_AOI_NODES: u32 = 7;

pub const EVENT_ROOM_JOINED: u32 = 8;

pub const EVENT_ROOM_JOIN_FAILED: u32 = 9;

pub const EVENT_ROOM_LEFT: u32 = 10;

pub const MEDIA_EVENT_TRACK_ADDED: u32 = 100;

pub const MEDIA_EVENT_TRACK_REMOVED: u32 = 101;

/// Kind of the overlay messages that carry a position: three 32-bit numbers.
pub const MSG_TYPE_POSITION_SYNC_BIN: u32 = 200;

/// Whether `config` is `base` with the signaling server at `url`, or at its own
/// if there is no `url`.
pub open spec fn has_url_override(config: Config, base: Config, url: Option<Seq<char>>) -> bool {
    &&& config == Config { signaling_url: config.signaling_url, ..base }
    &&& config.signaling_url@ == match url {
        Some(url) => url,
        None => base.signaling_url@,
    }
}

/// The settings with the signaling server moved to `url`, if there is one.
pub fn override_signaling_url(config: Config, url: Option<String>) -> (result: Config)
    ensures
        has_url_override(result, config, optional_text(url)),
{
    let mut config = config;
    if let Some(url) = url {
        config.signaling_url = url;
    }
    config
}

/// The settings that a JSON text spells before the signaling server is moved:
/// complete ones, or else changed ones.
pub open spec fn settings_spelled(full: Option<Config>, updated: Option<Config>) -> Option<Config> {
    match full {
        Some(full) => Some(full),
        None => updated,
    }
}

/// The settings that are taken over.
pub open spec fn settings_accepted(config: Config, valid: bool) -> Option<Config> {
    if valid {
        Some(config)
    } else {
        None
    }
}

/// The client after it got a name and a signaling server.
pub open spec fn client_named<S>(model: AppModel<S>, id: Seq<char>, url: String) -> AppModel<S> {
    AppModel {
        self_id: id,
        config: Config { signaling_url: url, ..model.config },
        ..model
    }
}

/// The settings that a JSON text spells. `full` is what it spells as complete
/// settings, if it does, and `updated` is what the present settings become when
/// the text is read as a change of them, if it can be. A string under the key
/// "signalingUrl" moves the signaling server in either case.
pub fn config_from_json(data: &str, full: Option<Config>, updated: Option<Config>) -> (config:
    Option<Config>)
    ensures
        match (full, updated) {
            (Some(full), _) => config is Some && has_url_override(
                config->Some_0,
                full,
                json_member(data@, "signalingUrl"@),
            ),
            (None, Some(updated)) => config is Some && has_url_override(
                config->Some_0,
                updated,
                json_member(data@, "signalingUrl"@),
            ),
            (None, None) => config is None,
        },
        match settings_spelled(full, updated) {
            Some(base) => config is Some && has_url_override(
                config->Some_0,
                base,
                json_member(data@, "signalingUrl"@),
            ),
            None => config is None,
        },
{
    let config = match full {
        Some(config) => config,
        None => match updated {
            Some(config) => config,
            None => {
                return None;
            },
        },
    };
    Some(override_signaling_url(config, parse_member(data, "signalingUrl")))
}

/// The settings that a JSON text spells, if their signaling part holds together,
/// which `valid` says.
pub fn validated_config(config: Config, valid: bool) -> (accepted: Option<Config>)
    ensures
        accepted == (if valid {
            Some(config)
        } else {
            None
        }),
        accepted == settings_accepted(config, valid),
{
    if valid {
        Some(config)
    } else {
        None
    }
}

/// Gives the client its name and the address of its signaling server.
pub fn init<S>(state: &mut AppState<S>, id: String, url: String)
    ensures
        final(state)@ == (AppModel {
            self_id: id@,
            config: Config { signaling_url: url, ..old(state)@.config },
            ..old(state)@
        }),
        final(state)@ == client_named(old(state)@, id@, url),
{
    WasmL0::new().initialize(state, NodeId(id), url);
}

/// The model after the settings were replaced, if there are new ones: they are
/// used by later joins, and the engine of every joined room goes by them. Either
/// way the joined rooms and their order stay the same.
pub open spec fn config_replaced<H>(
    before: AppModel<Session<H>>,
    after: AppModel<Session<H>>,
    config: Option<Config>,
) -> bool {
    match config {
        Some(config) => {
            &&& after == AppModel { config, sessions: after.sessions, ..before }
            &&& settings_passed_on(before.sessions, after.sessions, config)
        },
        None => after == before,
    }
}

/// Gives the client its name and its settings, if there are settings. Returns
/// whether there are.
pub fn init_with_config<H>(
    state: &mut AppState<Session<H>>,
    id: String,
    config: Option<Config>,
) -> (taken: bool)
    ensures
        taken == config is Some,
        config_replaced(
            match config {
                Some(_) => AppModel { self_id: id@, ..old(state)@ },
                None => old(state)@,
            },
            final(state)@,
            config,
        ),
{
    match config {
        Some(config) => {
            let url = config.signaling_url.clone();
            let layer = WasmL0::new();
            layer.set_config(state, config);
            layer.initialize(state, NodeId(id), url);
            true
        },
        None => false,
    }
}

/// Replaces the settings, if there are any to replace them by. Returns whether
/// there are.
pub fn set_config<H>(state: &mut AppState<Session<H>>, config: Option<Config>) -> (taken: bool)
    ensures
        taken == config is Some,
        config_replaced(old(state)@, final(state)@, config),
{
    match config {
        Some(config) => {
            WasmL0::new().set_config(state, config);
            true
        },
        None => false,
    }
}

/// Settings reach every room: where there are new ones, they are those of the
/// client and of the engine of each joined room, and where there are none, all
/// settings stay as they were. A room is joined afterwards exactly if it was
/// before, and the host runs it as before.
pub proof fn lemma_config_reaches_every_room<H>(
    before: AppModel<Session<H>>,
    after: AppModel<Session<H>>,
    config: Option<Config>,
    room: Seq<char>,
)
    requires
        rooms_are_distinct(before.sessions),
        config_replaced(before, after, config),
    ensures
        rooms_are_distinct(after.sessions),
        holds_room(after.sessions, room) == holds_room(before.sessions, room),
        match (session_of(before.sessions, room), session_of(after.sessions, room)) {
            (Some(old_session), Some(new_session)) => {
                &&& new_session.host == old_session.host
                &&& match config {
                    Some(config) => same_config(new_session.config, config),
                    None => new_session == old_session,
                }
            },
            (None, None) => true,
            _ => false,
        },
        after.config == match config {
            Some(config) => config,
            None => before.config,
        },
{
    if config is Some {
        assert forall|i: int, j: int|
            #![trigger after.sessions[i], after.sessions[j]]
            0 <= i < j < after.sessions.len() implies after.sessions[i].0
            != after.sessions[j].0 by {
            assert(before.sessions[i].0 != before.sessions[j].0);
        }
        if holds_room(before.sessions, room) {
            let place = place_of(before.sessions, room);
            assert(after.sessions[place].0 == room);
            lemma_place_is_unique(after.sessions, room, place);
        } else if holds_room(after.sessions, room) {
            let place = place_of(after.sessions, room);
            assert(before.sessions[place].0 == room);
        }
    }
}

/// The settings.
pub fn get_config<S>(state: &AppState<S>) -> (config: &Config)
    ensures
        *config == state@.config,
{
    WasmL0::new().get_config(state)
}

/// The settings for a session that is about to be built: those of the client as
/// they are now.
pub fn join_config<S>(state: &AppState<S>) -> (config: Config)
    ensures
        same_config(config, state@.config),
{
    get_config(state).copy()
}

/// Begins a join; `waiter` stands for the caller.
pub fn join_room<S>(state: &mut AppState<S>, room_id: &str, waiter: u64) -> (result: JoinReservation)
    ensures
        final(state)@ == join_begun(old(state)@, room_id@, waiter),
        match reservation(old(state)@, room_id@) {
            ReservationModel::AlreadyActive => result is AlreadyActive && result->event@
                == room_event(EVENT_ROOM_JOINED, Seq::empty(), room_id@),
            ReservationModel::PiggyBack => result is PiggyBack,
            ReservationModel::Owner => result is Owner,
        },
{
    WasmL0::new().join_room(state, room_id, waiter)
}

/// Whether a room is joined, which is so from the end of its join until it is
/// left.
pub fn is_room_joined<S>(state: &AppState<S>, room_id: &str) -> (joined: bool)
    ensures
        joined == holds_room(state@.sessions, room_id@),
{
    state.session_exists(room_id)
}

/// Leaves every room.
pub fn leave_room<S>(state: &mut AppState<S>) -> (left: Vec<LeftRoom<S>>)
    ensures
        final(state)@ == all_rooms_left(old(state)@),
        left@.len() == old(state)@.sessions.len(),
        forall|i: int|
            0 <= i < left@.len() ==> (#[trigger] left@[i]).session == old(state)@.sessions[i].1
                && left@[i].event@ == room_event(
                EVENT_ROOM_LEFT,
                Seq::empty(),
                old(state)@.sessions[i].0,
            ),
{
    WasmL0::new().leave_room(state)
}

/// Leaves one room.
pub fn leave_room_id<S>(state: &mut AppState<S>, room_id: &str) -> (result: Result<Leave<S>, String>)
    ensures
        final(state)@ == room_left(old(state)@, room_id@),
        match session_of(old(state)@.sessions, room_id@) {
            Some(session) => {
                &&& result is Ok && result->Ok_0 is Left
                &&& result->Ok_0->session == session
                &&& result->Ok_0->event@ == room_event(EVENT_ROOM_LEFT, Seq::empty(), room_id@)
            },
            None => if old(state)@.pending.contains(room_id@) {
                result is Ok && result->Ok_0 is JoinCancelled
            } else {
                result is Err && result->Err_0@ == not_joined_text(room_id@)
            },
        },
{
    wasm_l0::leave_room_id(state, room_id)
}

/// The session of a room for a call that names the room; an error if the room is
/// not joined.
pub fn session_in_room<'a, S>(state: &'a AppState<S>, room_id: &str) -> (result: Result<
    &'a S,
    String,
>)
    ensures
        match session_of(state@.sessions, room_id@) {
            Some(session) => result is Ok && *(result->Ok_0) == session,
            None => result is Err && result->Err_0@ == not_joined_text(room_id@),
        },
{
    match state.session(room_id) {
        Some(session) => Ok(session),
        None => Err(not_joined(room_id)),
    }
}

/// The joined rooms, in join order.
pub fn joined_rooms<S>(state: &AppState<S>) -> (rooms: Vec<String>)
    ensures
        texts_of(rooms@) == state@.sessions.map_values(|entry: (Seq<char>, S)| entry.0),
        texts_of(rooms@) == room_names(state@.sessions),
{
    let sessions = state.sessions.iter_in_join_order();
    let mut rooms: Vec<String> = Vec::new();
    let mut i: usize = 0;
    while i < sessions.len()
        invariant
            i <= sessions@.len(),
            rooms@.len() == i,
            sessions@.len() == state@.sessions.len(),
            forall|j: int|
                0 <= j < sessions@.len() ==> state@.sessions[j] == ((#[trigger] sessions@[j]).0@, *(
                sessions@[j].1)),
            forall|j: int| 0 <= j < i ==> (#[trigger] rooms@[j])@ == state@.sessions[j].0,
        decreases sessions@.len() - i,
    {
        rooms.push(sessions[i].0.clone());
        assert(state@.sessions[i as int].0 == sessions@[i as int].0@);
        i = i + 1;
    }
    assert(texts_of(rooms@) =~= state@.sessions.map_values(|entry: (Seq<char>, S)| entry.0));
    rooms
}

/// The rooms that a local media track concerns: all joined ones, in join order.
/// With no room joined there is no transport to hold a track.
pub fn media_rooms<S>(state: &AppState<S>) -> (rooms: Result<Vec<String>, String>)
    ensures
        state@.sessions.len() == 0 ==> rooms is Err && rooms->Err_0@
            == "WebRTC transport is not initialized"@,
        state@.sessions.len() > 0 ==> rooms is Ok && texts_of(rooms->Ok_0@)
            == state@.sessions.map_values(|entry: (Seq<char>, S)| entry.0),
        rooms is Ok <==> room_names(state@.sessions).len() > 0,
        rooms is Ok ==> texts_of(rooms->Ok_0@) == room_names(state@.sessions),
{
    let rooms = joined_rooms(state);
    assert(texts_of(rooms@).len() == rooms@.len());
    if rooms.len() == 0 {
        return Err("WebRTC transport is not initialized".to_string());
    }
    Ok(rooms)
}

/// Moving the signaling server changes its address and no other setting, and
/// without an address nothing changes.
pub proof fn lemma_only_the_address_is_overridden(config: Config, base: Config, url: Seq<char>)
    ensures
        has_url_override(config, base, Some(url)) || has_url_override(config, base, None) ==> {
            &&& config.signaling_mode == base.signaling_mode
            &&& config.nostr == base.nostr
            &&& config.ice_servers == base.ice_servers
            &&& config.limits == base.limits
            &&& config.storage == base.storage
        },
        has_url_override(config, base, Some(url)) ==> config.signaling_url@ == url,
        has_url_override(config, base, None) ==> config.signaling_url@ == base.signaling_url@,
        has_url_override(base, base, None),
        has_url_override(base, base, Some(base.signaling_url@)),
{
}

/// Complete settings go before changed ones, changed ones before none, and only
/// settings that hold together are taken over.
pub proof fn lemma_complete_settings_come_first(
    full: Config,
    updated: Config,
    other: Option<Config>,
)
    ensures
        settings_spelled(Some(full), other) == Some(full),
        settings_spelled(None, Some(updated)) == Some(updated),
        settings_spelled(None, None) is None,
        settings_accepted(full, true) == Some(full),
        settings_accepted(full, false) is None,
{
}

/// Giving the client a name and a server changes neither its rooms nor any other
/// setting, and replacing the settings changes neither its name nor the joins
/// under way.
pub proof fn lemma_settings_do_not_touch_rooms<H>(
    before: AppModel<Session<H>>,
    after: AppModel<Session<H>>,
    config: Option<Config>,
    id: Seq<char>,
    url: String,
)
    requires
        config_replaced(before, after, config),
    ensures
        after.self_id == before.self_id,
        after.pending == before.pending,
        after.cancelled == before.cancelled,
        after.waiters == before.waiters,
        after.sessions.len() == before.sessions.len(),
        config is None ==> after == before,
        config is Some ==> after.config == config->Some_0,
        ({
            let named = client_named(before, id, url);
            &&& named.self_id == id
            &&& named.config.signaling_url == url
            &&& named.config.signaling_mode == before.config.signaling_mode
            &&& named.config.nostr == before.config.nostr
            &&& named.config.ice_servers == before.config.ice_servers
            &&& named.config.limits == before.config.limits
            &&& named.config.storage == before.config.storage
            &&& named.sessions == before.sessions
            &&& named.pending == before.pending
            &&& named.cancelled == before.cancelled
            &&& named.waiters == before.waiters
        }),
{
}

} // verus!
