//! Which rooms are joined, in the order in which they were joined.

use vstd::prelude::*;

use crate::text::same_text;

verus! {

/// Whether a room is joined.
pub open spec fn holds_room<T>(order: Seq<(Seq<char>, T)>, room: Seq<char>) -> bool {
    exists|i: int| 0 <= i < order.len() && (#[trigger] order[i]).0 == room
}

/// The place of a room in the join order.
pub open spec fn place_of<T>(order: Seq<(Seq<char>, T)>, room: Seq<char>) -> int {
    choose|i: int| 0 <= i < order.len() && (#[trigger] order[i]).0 == room
}

/// The session of a room, if the room is joined.
pub open spec fn session_of<T>(order: Seq<(Seq<char>, T)>, room: Seq<char>) -> Option<T> {
    if holds_room(order, room) {
        Some(order[place_of(order, room)].1)
    } else {
        None
    }
}

/// The join order after a room gets a session. A room that is joined keeps its
/// place.
pub open spec fn with_session<T>(
    order: Seq<(Seq<char>, T)>,
    room: Seq<char>,
    session: T,
) -> Seq<(Seq<char>, T)> {
    if holds_room(order, room) {
        order.update(place_of(order, room), (room, session))
    } else {
        order.push((room, session))
    }
}

/// The join order without a room.
pub open spec fn without_room<T>(order: Seq<(Seq<char>, T)>, room: Seq<char>) -> Seq<
    (Seq<char>, T),
> {
    if holds_room(order, room) {
        order.remove(place_of(order, room))
    } else {
        order
    }
}

/// Whether every room occurs once.
pub open spec fn rooms_are_distinct<T>(order: Seq<(Seq<char>, T)>) -> bool {
    forall|i: int, j: int|
        #![trigger order[i], order[j]]
        0 <= i < j < order.len() ==> order[i].0 != order[j].0
}

/// What a list of named sessions stands for.
pub open spec fn join_order_of<T>(sessions: Seq<(String, T)>) -> Seq<(Seq<char>, T)> {
    sessions.map_values(|entry: (String, T)| (entry.0@, entry.1))
}

/// The names of the joined rooms, in join order.
pub open spec fn room_names<T>(order: Seq<(Seq<char>, T)>) -> Seq<Seq<char>> {
    order.map_values(|entry: (Seq<char>, T)| entry.0)
}

/// The sessions of the joined rooms, oldest first.
pub struct SessionRegistry<T> {
    sessions: Vec<(String, T)>,
}

impl<T> View for SessionRegistry<T> {
    type V = Seq<(Seq<char>, T)>;

    closed spec fn view(&self) -> Seq<(Seq<char>, T)> {
        join_order_of(self.sessions@)
    }
}

impl<T> Default for SessionRegistry<T> {
    fn default() -> (registry: Self)
        ensures
            registry@ == Seq::<(Seq<char>, T)>::empty(),
    {
        SessionRegistry::new()
    }
}

impl<T> SessionRegistry<T> {
    #[verifier::type_invariant]
    spec fn consistent(self) -> bool {
        rooms_are_distinct(join_order_of(self.sessions@))
    }

    pub fn new() -> (registry: Self)
        ensures
            registry@ == Seq::<(Seq<char>, T)>::empty(),
    {
        let registry = SessionRegistry { sessions: Vec::new() };
        assert(registry@ =~= Seq::empty());
        registry
    }

    fn position(&self, room_id: &str) -> (found: Option<usize>)
        ensures
            match found {
                Some(i) => i < self@.len() && self@[i as int].0 == room_id@ && holds_room(
                    self@,
                    room_id@,
                ) && place_of(self@, room_id@) == i,
                None => !holds_room(self@, room_id@),
            },
    {
        proof {
            use_type_invariant(self);
        }
        let mut i: usize = 0;
        while i < self.sessions.len()
            invariant
                i <= self.sessions@.len(),
                rooms_are_distinct(self@),
                forall|j: int| 0 <= j < i ==> (#[trigger] self@[j]).0 != room_id@,
            decreases self.sessions@.len() - i,
        {
            if same_text(self.sessions[i].0.as_str(), room_id) {
                proof {
                    assert(self@[i as int].0 == room_id@);
                    let place = place_of(self@, room_id@);
                    assert(self@[place].0 == room_id@);
                }
                return Some(i);
            }
            assert(self@[i as int].0 != room_id@);
            i = i + 1;
        }
        None
    }

    pub fn contains(&self, room_id: &str) -> (joined: bool)
        ensures
            joined == holds_room(self@, room_id@),
    {
        self.position(room_id).is_some()
    }

    pub fn get(&self, room_id: &str) -> (session: Option<&T>)
        ensures
            match session {
                Some(found) => session_of(self@, room_id@) == Some(*found),
                None => session_of(self@, room_id@) is None,
            },
    {
        match self.position(room_id) {
            Some(i) => Some(&self.sessions[i].1),
            None => None,
        }
    }

    /// Stores the session of a room and returns the one it replaces. A new room
    /// comes last in the join order; a room that is joined keeps its place.
    pub fn insert(&mut self, room_id: String, session: T) -> (previous: Option<T>)
        ensures
            final(self)@ == with_session(old(self)@, room_id@, session),
            previous == session_of(old(self)@, room_id@),
    {
        proof {
            use_type_invariant(&*self);
        }
        let place = self.position(room_id.as_str());
        let ghost before = self@;
        let mut sessions: Vec<(String, T)> = Vec::new();
        std::mem::swap(&mut sessions, &mut self.sessions);
        match place {
            Some(i) => {
                let previous = sessions.remove(i);
                sessions.insert(i, (previous.0, session));
                proof {
                    assert(join_order_of(sessions@) =~= with_session(before, room_id@, session));
                    assert forall|a: int, b: int|
                        #![trigger join_order_of(sessions@)[a], join_order_of(sessions@)[b]]
                        0 <= a < b < sessions@.len() implies join_order_of(sessions@)[a].0
                        != join_order_of(sessions@)[b].0 by {
                        assert(before[a].0 != before[b].0);
                    }
                }
                self.sessions = sessions;
                Some(previous.1)
            },
            None => {
                sessions.push((room_id, session));
                proof {
                    assert(join_order_of(sessions@) =~= with_session(before, room_id@, session));
                    assert forall|a: int, b: int|
                        #![trigger join_order_of(sessions@)[a], join_order_of(sessions@)[b]]
                        0 <= a < b < sessions@.len() implies join_order_of(sessions@)[a].0
                        != join_order_of(sessions@)[b].0 by {
                        if b < before.len() {
                            assert(before[a].0 != before[b].0);
                        } else {
                            assert(before[a].0 != room_id@);
                        }
                    }
                }
                self.sessions = sessions;
                None
            },
        }
    }

    /// Takes the session of a room out; the other rooms keep their order.
    pub fn remove(&mut self, room_id: &str) -> (session: Option<T>)
        ensures
            final(self)@ == without_room(old(self)@, room_id@),
            session == session_of(old(self)@, room_id@),
    {
        proof {
            use_type_invariant(&*self);
        }
        let ghost before = self@;
        match self.position(room_id) {
            Some(i) => {
                let mut sessions: Vec<(String, T)> = Vec::new();
                std::mem::swap(&mut sessions, &mut self.sessions);
                let removed = sessions.remove(i);
                proof {
                    assert(join_order_of(sessions@) =~= before.remove(i as int));
                    assert forall|a: int, b: int|
                        #![trigger join_order_of(sessions@)[a], join_order_of(sessions@)[b]]
                        0 <= a < b < sessions@.len() implies join_order_of(sessions@)[a].0
                        != join_order_of(sessions@)[b].0 by {
                        let oa = if a < i { a } else { a + 1 };
                        let ob = if b < i { b } else { b + 1 };
                        assert(before[oa].0 != before[ob].0);
                    }
                }
                self.sessions = sessions;
                Some(removed.1)
            },
            None => None,
        }
    }

    /// Takes every session out, oldest first. Each room comes once.
    pub fn drain_all(&mut self) -> (sessions: Vec<(String, T)>)
        ensures
            join_order_of(sessions@) == old(self)@,
            rooms_are_distinct(join_order_of(sessions@)),
            final(self)@ == Seq::<(Seq<char>, T)>::empty(),
    {
        proof {
            use_type_invariant(&*self);
        }
        let mut sessions: Vec<(String, T)> = Vec::new();
        std::mem::swap(&mut sessions, &mut self.sessions);
        assert(self@ =~= Seq::empty());
        sessions
    }

    /// The room that was joined first.
    pub fn first(&self) -> (oldest: Option<(&String, &T)>)
        ensures
            match oldest {
                Some((room, session)) => self@.len() > 0 && self@[0] == (room@, *session),
                None => self@.len() == 0,
            },
    {
        if self.sessions.len() == 0 {
            return None;
        }
        let entry = &self.sessions[0];
        Some((&entry.0, &entry.1))
    }

    /// The sessions, oldest first.
    pub fn iter_in_join_order(&self) -> (sessions: Vec<(&String, &T)>)
        ensures
            sessions@.len() == self@.len(),
            forall|i: int|
                0 <= i < sessions@.len() ==> self@[i] == ((#[trigger] sessions@[i]).0@, *(
                sessions@[i].1)),
    {
        let mut sessions: Vec<(&String, &T)> = Vec::new();
        let mut i: usize = 0;
        while i < self.sessions.len()
            invariant
                i <= self.sessions@.len(),
                sessions@.len() == i,
                forall|j: int|
                    0 <= j < i ==> self@[j] == ((#[trigger] sessions@[j]).0@, *(sessions@[j].1)),
            decreases self.sessions@.len() - i,
        {
            let entry = &self.sessions[i];
            sessions.push((&entry.0, &entry.1));
            i = i + 1;
        }
        sessions
    }

    pub fn len(&self) -> (count: usize)
        ensures
            count == self@.len(),
    {
        self.sessions.len()
    }

    pub fn is_empty(&self) -> (empty: bool)
        ensures
            empty == (self@.len() == 0),
    {
        self.sessions.len() == 0
    }
}

/// A room has one place in the join order.
pub proof fn lemma_place_is_unique<T>(order: Seq<(Seq<char>, T)>, room: Seq<char>, i: int)
    requires
        rooms_are_distinct(order),
        0 <= i < order.len(),
        order[i].0 == room,
    ensures
        holds_room(order, room),
        place_of(order, room) == i,
{
    let place = place_of(order, room);
    assert(order[place].0 == room);
}

/// A session that was stored is found, and no other room is affected.
pub proof fn lemma_insert_then_get<T>(
    order: Seq<(Seq<char>, T)>,
    room: Seq<char>,
    session: T,
    other: Seq<char>,
)
    requires
        rooms_are_distinct(order),
    ensures
        rooms_are_distinct(with_session(order, room, session)),
        session_of(with_session(order, room, session), room) == Some(session),
        other != room ==> session_of(with_session(order, room, session), other) == session_of(
            order,
            other,
        ),
{
    let next = with_session(order, room, session);
    let at = if holds_room(order, room) {
        place_of(order, room)
    } else {
        order.len() as int
    };
    assert forall|i: int, j: int|
        #![trigger next[i], next[j]]
        0 <= i < j < next.len() implies next[i].0 != next[j].0 by {
        if holds_room(order, room) {
            assert(order[i].0 != order[j].0);
        } else {
            assert(order[i].0 != room);
            if j < order.len() {
                assert(order[i].0 != order[j].0);
            }
        }
    }
    assert(next[at] == (room, session));
    lemma_place_is_unique(next, room, at);
    if other != room {
        if holds_room(order, other) {
            let i = place_of(order, other);
            assert(next[i] == order[i]);
            lemma_place_is_unique(next, other, i);
        } else if holds_room(next, other) {
            let i = place_of(next, other);
            assert(i != at);
            assert(order[i] == next[i]);
        }
    }
}

/// A room that was left is gone, and no other room is affected.
pub proof fn lemma_remove_then_get<T>(
    order: Seq<(Seq<char>, T)>,
    room: Seq<char>,
    other: Seq<char>,
)
    requires
        rooms_are_distinct(order),
    ensures
        rooms_are_distinct(without_room(order, room)),
        session_of(without_room(order, room), room) is None,
        other != room ==> session_of(without_room(order, room), other) == session_of(order, other),
{
    let next = without_room(order, room);
    if holds_room(order, room) {
        let at = place_of(order, room);
        assert forall|i: int, j: int|
            #![trigger next[i], next[j]]
            0 <= i < j < next.len() implies next[i].0 != next[j].0 by {
            let oi = if i < at { i } else { i + 1 };
            let oj = if j < at { j } else { j + 1 };
            assert(next[i] == order[oi] && next[j] == order[oj]);
            assert(order[oi].0 != order[oj].0);
        }
        if holds_room(next, room) {
            let i = place_of(next, room);
            let oi = if i < at { i } else { i + 1 };
            assert(next[i] == order[oi]);
            assert(order[oi].0 == room && order[at].0 == room);
        }
        if other != room {
            if holds_room(order, other) {
                let i = place_of(order, other);
                let ni = if i < at { i } else { i - 1 };
                assert(next[ni] == order[i]);
                lemma_place_is_unique(next, other, ni);
            } else if holds_room(next, other) {
                let i = place_of(next, other);
                let oi = if i < at { i } else { i + 1 };
                assert(next[i] == order[oi]);
            }
        }
    }
}

/// A room is joined exactly if it stands in the join order.
pub proof fn lemma_joined_rooms_are_those_in_the_order<T>(
    order: Seq<(Seq<char>, T)>,
    room: Seq<char>,
    session: T,
    i: int,
)
    requires
        0 <= i < order.len(),
    ensures
        holds_room(order, order[i].0),
        rooms_are_distinct(order) ==> session_of(order, order[i].0) == Some(order[i].1),
        holds_room(order.push((room, session)), room),
        !holds_room(Seq::<(Seq<char>, T)>::empty(), room),
        !holds_room(order, room) ==> order[i].0 != room && session_of(order, room) is None,
{
    assert(order.push((room, session))[order.len() as int].0 == room);
    if rooms_are_distinct(order) {
        lemma_place_is_unique(order, order[i].0, i);
    }
}

/// Rooms keep their places: a new room comes last, a room that gets another
/// session stays where it is, and a room that is left only makes the later ones
/// move up.
pub proof fn lemma_join_order_is_kept<T>(
    order: Seq<(Seq<char>, T)>,
    room: Seq<char>,
    session: T,
    at: int,
)
    requires
        rooms_are_distinct(order),
    ensures
        !holds_room(order, room) ==> {
            &&& with_session(order, room, session) == order.push((room, session))
            &&& without_room(order, room) == order
        },
        0 <= at < order.len() && order[at].0 == room ==> {
            &&& with_session(order, room, session) == order.update(at, (room, session))
            &&& without_room(order, room) == order.take(at) + order.skip(at + 1)
        },
{
    if 0 <= at < order.len() && order[at].0 == room {
        lemma_place_is_unique(order, room, at);
        assert(without_room(order, room) =~= order.take(at) + order.skip(at + 1));
    }
}

/// Every joined room is named, in join order, and nothing else is.
pub proof fn lemma_every_joined_room_is_named<T>(order: Seq<(Seq<char>, T)>, i: int)
    requires
        0 <= i < order.len(),
    ensures
        room_names(order).len() == order.len(),
        room_names(order)[i] == order[i].0,
{
}

} // verus!
