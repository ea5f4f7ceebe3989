//! What the client remembers between calls: its name, its settings, the joined
//! rooms, and the joins that are under way.

use vstd::prelude::*;

use crate::config::{same_config, Config};
use crate::session_registry::{
    holds_room, join_order_of, rooms_are_distinct, session_of, with_session, without_room,
    SessionRegistry,
};
use crate::table::{NameSet, Table};
use crate::types::NodeId;

verus! {

/// A joined room: what the host runs for it, and the settings that its engine
/// goes by.
pub struct Session<H> {
    pub host: H,
    pub config: Config,
}

/// Whether the sessions `after` are those `before` with new settings: the same
/// rooms in the same order, each run as before.
pub open spec fn settings_passed_on<H>(
    before: Seq<(Seq<char>, Session<H>)>,
    after: Seq<(Seq<char>, Session<H>)>,
    config: Config,
) -> bool {
    &&& after.len() == before.len()
    &&& forall|i: int|
        0 <= i < after.len() ==> (#[trigger] after[i]).0 == before[i].0 && after[i].1.host
            == before[i].1.host && same_config(after[i].1.config, config)
}

/// State of the client. A session is whatever stands for a joined room; a
/// waiter is the number under which the host keeps a caller that waits for a
/// join which another call started.
pub struct AppState<S> {
    pub self_id: NodeId,
    pub base_config: Config,
    pub sessions: SessionRegistry<S>,
    /// Rooms whose session is being built.
    pub pending_joins: NameSet,
    /// Rooms that were left while their session was being built.
    pub cancelled_pending: NameSet,
    pub join_waiters: Table<String, Vec<u64>>,
}

/// What an [`AppState`] holds.
#[verifier::ext_equal]
pub struct AppModel<S> {
    pub self_id: Seq<char>,
    pub config: Config,
    pub sessions: Seq<(Seq<char>, S)>,
    pub pending: Set<Seq<char>>,
    pub cancelled: Set<Seq<char>>,
    pub waiters: Map<Seq<char>, Seq<u64>>,
}

impl<S> View for AppState<S> {
    type V = AppModel<S>;

    open spec fn view(&self) -> AppModel<S> {
        AppModel {
            self_id: self.self_id@,
            config: self.base_config,
            sessions: self.sessions@,
            pending: self.pending_joins@,
            cancelled: self.cancelled_pending@,
            waiters: self.join_waiters@.map_values(|waiters: Vec<u64>| waiters@),
        }
    }
}

/// The callers that wait for a room's join, in the order in which they came.
pub open spec fn waiters_of<S>(model: AppModel<S>, room: Seq<char>) -> Seq<u64> {
    if model.waiters.dom().contains(room) {
        model.waiters[room]
    } else {
        Seq::empty()
    }
}

/// The model with one more caller waiting for a room.
pub open spec fn with_waiter<S>(model: AppModel<S>, room: Seq<char>, waiter: u64) -> AppModel<S> {
    AppModel {
        waiters: model.waiters.insert(room, waiters_of(model, room).push(waiter)),
        ..model
    }
}

/// What holds between any two calls: only a join that is under way can be
/// cancelled or waited for.
pub open spec fn joins_are_consistent<S>(model: AppModel<S>) -> bool {
    &&& model.cancelled.subset_of(model.pending)
    &&& model.waiters.dom().subset_of(model.pending)
}

impl<S> AppState<S> {
    /// A client that has no name of its own yet and is in no room.
    pub fn new(base_config: Config) -> (state: Self)
        ensures
            state@.self_id == "local"@,
            state@.config == base_config,
            state@.sessions == Seq::<(Seq<char>, S)>::empty(),
            state@.pending == Set::<Seq<char>>::empty(),
            state@.cancelled == Set::<Seq<char>>::empty(),
            state@.waiters == Map::<Seq<char>, Seq<u64>>::empty(),
            joins_are_consistent(state@),
    {
        let state = AppState {
            self_id: NodeId("local".to_string()),
            base_config,
            sessions: SessionRegistry::new(),
            pending_joins: NameSet::new(),
            cancelled_pending: NameSet::new(),
            join_waiters: Table::new(),
        };
        assert(state@.waiters =~= Map::empty());
        state
    }

    pub fn self_id(&self) -> (id: NodeId)
        ensures
            id@ == self@.self_id,
    {
        self.self_id.clone()
    }

    pub fn set_self_id(&mut self, id: NodeId)
        ensures
            final(self)@ == (AppModel { self_id: id@, ..old(self)@ }),
    {
        self.self_id = id;
    }

    pub fn base_config(&self) -> (config: &Config)
        ensures
            *config == self@.config,
    {
        &self.base_config
    }

    pub fn set_base_config(&mut self, config: Config)
        ensures
            final(self)@ == (AppModel { config, ..old(self)@ }),
    {
        self.base_config = config;
    }

    pub fn session_exists(&self, room_id: &str) -> (joined: bool)
        ensures
            joined == holds_room(self@.sessions, room_id@),
    {
        self.sessions.contains(room_id)
    }

    /// The session of a room.
    pub fn session(&self, room_id: &str) -> (session: Option<&S>)
        ensures
            match session {
                Some(found) => session_of(self@.sessions, room_id@) == Some(*found),
                None => session_of(self@.sessions, room_id@) is None,
            },
    {
        self.sessions.get(room_id)
    }

    pub fn insert_session(&mut self, room_id: String, session: S)
        ensures
            final(self)@ == (AppModel {
                sessions: with_session(old(self)@.sessions, room_id@, session),
                ..old(self)@
            }),
    {
        let _ = self.sessions.insert(room_id, session);
    }

    pub fn remove_session(&mut self, room_id: &str) -> (session: Option<S>)
        ensures
            final(self)@ == (AppModel {
                sessions: without_room(old(self)@.sessions, room_id@),
                ..old(self)@
            }),
            session == session_of(old(self)@.sessions, room_id@),
    {
        self.sessions.remove(room_id)
    }

    pub fn drain_all_sessions(&mut self) -> (sessions: Vec<(String, S)>)
        ensures
            final(self)@ == (AppModel { sessions: Seq::empty(), ..old(self)@ }),
            join_order_of(sessions@) == old(self)@.sessions,
            rooms_are_distinct(join_order_of(sessions@)),
    {
        self.sessions.drain_all()
    }

    /// Notes that a room's session is being built. Returns `false`, and changes
    /// nothing, if one is being built already.
    pub fn mark_join_pending(&mut self, room_id: &str) -> (marked: bool)
        ensures
            marked == !old(self)@.pending.contains(room_id@),
            final(self)@ == (AppModel {
                pending: old(self)@.pending.insert(room_id@),
                ..old(self)@
            }),
            !marked ==> final(self)@ == old(self)@,
    {
        let marked = self.pending_joins.insert(room_id.to_string());
        assert(!marked ==> self@ =~= old(self)@);
        marked
    }

    pub fn clear_join_pending(&mut self, room_id: &str)
        ensures
            final(self)@ == (AppModel {
                pending: old(self)@.pending.remove(room_id@),
                ..old(self)@
            }),
    {
        let _ = self.pending_joins.remove(&room_id.to_string());
    }

    /// Cancels a room's join if it is under way, and says whether it is.
    pub fn cancel_pending_join(&mut self, room_id: &str) -> (is_pending: bool)
        ensures
            is_pending == old(self)@.pending.contains(room_id@),
            final(self)@ == (if is_pending {
                AppModel { cancelled: old(self)@.cancelled.insert(room_id@), ..old(self)@ }
            } else {
                old(self)@
            }),
    {
        let name = room_id.to_string();
        let is_pending = self.pending_joins.contains(&name);
        if is_pending {
            let _ = self.cancelled_pending.insert(name);
        }
        is_pending
    }

    /// Cancels every join that is under way.
    pub fn cancel_all_pending_joins(&mut self)
        ensures
            final(self)@ == (AppModel {
                cancelled: old(self)@.cancelled.union(old(self)@.pending),
                ..old(self)@
            }),
    {
        let rooms = self.pending_joins.to_list();
        let ghost names = crate::text::texts_of(rooms@);
        let mut i: usize = 0;
        while i < rooms.len()
            invariant
                i <= rooms@.len(),
                names == crate::text::texts_of(rooms@),
                self@ == (AppModel {
                    cancelled: old(self)@.cancelled.union(names.take(i as int).to_set()),
                    ..old(self)@
                }),
            decreases rooms@.len() - i,
        {
            let _ = self.cancelled_pending.insert(rooms[i].clone());
            proof {
                let more = names.take(i + 1);
                let some = names.take(i as int);
                assert(more =~= some.push(names[i as int]));
                assert(more.to_set() =~= some.to_set().insert(names[i as int])) by {
                    assert forall|name: Seq<char>| more.to_set().contains(name) implies some.to_set().insert(
                        names[i as int],
                    ).contains(name) by {
                        let at = choose|at: int| 0 <= at < more.len() && more[at] == name;
                        if at < i {
                            assert(some[at] == name);
                        }
                    }
                    assert forall|name: Seq<char>|
                        some.to_set().insert(names[i as int]).contains(name) implies more.to_set().contains(
                    name) by {
                        if name == names[i as int] {
                            assert(more[i as int] == name);
                        } else {
                            let at = choose|at: int| 0 <= at < some.len() && some[at] == name;
                            assert(more[at] == name);
                        }
                    }
                }
                assert(self@ =~= (AppModel {
                    cancelled: old(self)@.cancelled.union(more.to_set()),
                    ..old(self)@
                }));
            }
            i = i + 1;
        }
        assert(names.take(i as int) =~= names);
    }

    /// Takes a room's cancellation back, and says whether there was one.
    pub fn clear_cancelled_pending(&mut self, room_id: &str) -> (was_cancelled: bool)
        ensures
            was_cancelled == old(self)@.cancelled.contains(room_id@),
            final(self)@ == (AppModel {
                cancelled: old(self)@.cancelled.remove(room_id@),
                ..old(self)@
            }),
    {
        self.cancelled_pending.remove(&room_id.to_string())
    }

    /// Adds a caller to those that wait for a room's join.
    pub fn register_join_waiter(&mut self, room_id: &str, waiter: u64)
        ensures
            final(self)@ == with_waiter(old(self)@, room_id@, waiter),
    {
        let name = room_id.to_string();
        let mut waiters = match self.join_waiters.remove(&name) {
            Some(waiters) => waiters,
            None => Vec::new(),
        };
        waiters.push(waiter);
        let _ = self.join_waiters.insert(name, waiters);
        assert(self@ =~= with_waiter(old(self)@, room_id@, waiter));
    }

    /// Hands out the callers that wait for a room's join and forgets them: each
    /// is to be told how the join ended.
    pub fn drain_join_waiters(&mut self, room_id: &str) -> (waiters: Vec<u64>)
        ensures
            waiters@ == waiters_of(old(self)@, room_id@),
            final(self)@ == (AppModel {
                waiters: old(self)@.waiters.remove(room_id@),
                ..old(self)@
            }),
    {
        let waiters = match self.join_waiters.remove(&room_id.to_string()) {
            Some(waiters) => waiters,
            None => Vec::new(),
        };
        assert(waiters@ =~= waiters_of(old(self)@, room_id@));
        assert(self@ =~= (AppModel {
            waiters: old(self)@.waiters.remove(room_id@),
            ..old(self)@
        }));
        waiters
    }
}

impl<H> AppState<Session<H>> {
    /// Gives every session's engine the same settings.
    pub fn set_session_configs(&mut self, config: &Config)
        ensures
            final(self)@ == (AppModel { sessions: final(self)@.sessions, ..old(self)@ }),
            settings_passed_on(old(self)@.sessions, final(self)@.sessions, *config),
    {
        let mut rest = self.drain_all_sessions();
        let ghost before = join_order_of(rest@);
        let ghost mut done: int = 0;
        while rest.len() > 0
            invariant
                before == old(self)@.sessions,
                rooms_are_distinct(before),
                0 <= done <= before.len(),
                join_order_of(rest@) == before.skip(done),
                self@ == (AppModel { sessions: self@.sessions, ..old(self)@ }),
                settings_passed_on(before.take(done), self@.sessions, *config),
            decreases rest@.len(),
        {
            let ghost sessions = self@.sessions;
            let ghost left = join_order_of(rest@);
            assert(left.len() == rest@.len());
            assert(before.skip(done).len() == before.len() - done);
            let (room_id, session) = rest.remove(0);
            proof {
                assert(left[0] == before[done]);
                assert(left[0] == (room_id@, session));
                assert(join_order_of(rest@) =~= left.drop_first());
                assert(left.drop_first() =~= before.skip(done + 1));
                assert forall|i: int| 0 <= i < sessions.len() implies (#[trigger] sessions[i]).0
                    != room_id@ by {
                    assert(sessions[i].0 == before.take(done)[i].0);
                    assert(before[i].0 != before[done].0);
                }
            }
            self.insert_session(room_id, Session { host: session.host, config: config.copy() });
            proof {
                assert forall|i: int| 0 <= i < self@.sessions.len() implies (
                #[trigger] self@.sessions[i]).0 == before.take(done + 1)[i].0
                    && self@.sessions[i].1.host == before.take(done + 1)[i].1.host && same_config(
                    self@.sessions[i].1.config,
                    *config,
                ) by {
                    if i < done {
                        assert(self@.sessions[i] == sessions[i]);
                        assert(before.take(done)[i] == before.take(done + 1)[i]);
                    }
                }
                done = done + 1;
            }
        }
        assert(join_order_of(rest@).len() == 0);
        assert(before.skip(done).len() == before.len() - done);
        assert(before.take(done) =~= before);
    }
}

/// A caller that waits for a room comes after those that wait already; nothing
/// else changes, and nobody else waits for the room.
pub proof fn lemma_waiters_queue_up<S>(
    model: AppModel<S>,
    room: Seq<char>,
    waiter: u64,
    other: Seq<char>,
)
    ensures
        ({
            let after = with_waiter(model, room, waiter);
            &&& waiters_of(after, room) == waiters_of(model, room).push(waiter)
            &&& other != room ==> waiters_of(after, other) == waiters_of(model, other)
            &&& after.self_id == model.self_id
            &&& after.config == model.config
            &&& after.sessions == model.sessions
            &&& after.pending == model.pending
            &&& after.cancelled == model.cancelled
        }),
        model.waiters.dom().contains(room) ==> waiters_of(model, room) == model.waiters[room],
        !model.waiters.dom().contains(room) ==> waiters_of(model, room).len() == 0,
{
}

/// Where joins are consistent, a room whose join is not under way is neither
/// cancelled nor waited for.
pub proof fn lemma_only_joins_under_way_are_waited_for<S>(model: AppModel<S>, room: Seq<char>)
    requires
        joins_are_consistent(model),
        !model.pending.contains(room),
    ensures
        !model.cancelled.contains(room),
        waiters_of(model, room).len() == 0,
{
}

/// New settings reach every session and leave the rooms, their order and what
/// the host runs for them alone.
pub proof fn lemma_settings_reach_every_session<H>(
    before: Seq<(Seq<char>, Session<H>)>,
    after: Seq<(Seq<char>, Session<H>)>,
    config: Config,
    i: int,
)
    requires
        settings_passed_on(before, after, config),
        0 <= i < before.len(),
    ensures
        after.len() == before.len(),
        after[i].0 == before[i].0,
        after[i].1.host == before[i].1.host,
        same_config(after[i].1.config, config),
{
}

} // verus!
