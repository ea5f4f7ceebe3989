//! Which rooms carry a message, and in which order messages go out.

use std::collections::VecDeque;

use vstd::prelude::*;

use crate::types::{DeliveryMethod, NodeId};

verus! {

pub const DELIVERY_RELIABLE: u32 = 0;

pub const DELIVERY_UNRELIABLE_ORDERED: u32 = 1;

pub const DELIVERY_UNRELIABLE: u32 = 2;

/// The guarantee that a number stands for, if it is one of the documented ones.
pub open spec fn delivery_method(number: u32) -> Option<DeliveryMethod> {
    if number == DELIVERY_RELIABLE {
        Some(DeliveryMethod::ReliableOrdered)
    } else if number == DELIVERY_UNRELIABLE_ORDERED {
        Some(DeliveryMethod::UnreliableOrdered)
    } else if number == DELIVERY_UNRELIABLE {
        Some(DeliveryMethod::Unreliable)
    } else {
        None
    }
}

/// The guarantee that a number stands for, if it is one of the documented ones.
pub fn delivery_from(method: u32) -> (delivery: Option<DeliveryMethod>)
    ensures
        delivery == delivery_method(method),
{
    if method == DELIVERY_RELIABLE {
        Some(DeliveryMethod::ReliableOrdered)
    } else if method == DELIVERY_UNRELIABLE_ORDERED {
        Some(DeliveryMethod::UnreliableOrdered)
    } else if method == DELIVERY_UNRELIABLE {
        Some(DeliveryMethod::Unreliable)
    } else {
        None
    }
}

/// What a room's engine says about a message that is to be sent.
#[derive(Debug, Clone, Copy, PartialEq, Eq)]
pub struct SessionRoute {
    /// Whether the room has the target among its nodes or in its routing table.
    pub knows_target: bool,
    /// Whether the engine runs.
    pub running: bool,
}

/// Whether the room at a place runs.
pub open spec fn runs_at(routes: Seq<SessionRoute>) -> spec_fn(usize) -> bool {
    |place: usize| routes[place as int].running
}

/// The places of all rooms, in join order.
pub open spec fn all_places(routes: Seq<SessionRoute>) -> Seq<usize> {
    Seq::new(routes.len(), |i: int| i as usize)
}

/// The places of the running rooms, in join order.
pub open spec fn running_places(routes: Seq<SessionRoute>) -> Seq<usize> {
    all_places(routes).filter(runs_at(routes))
}

/// Whether `place` is that of the first room that knows the target.
pub open spec fn first_that_knows(routes: Seq<SessionRoute>, place: int) -> bool {
    &&& 0 <= place < routes.len()
    &&& routes[place].knows_target
    &&& forall|i: int| 0 <= i < place ==> !(#[trigger] routes[i]).knows_target
}

/// Whether some room knows the target.
pub open spec fn is_known(routes: Seq<SessionRoute>) -> bool {
    exists|i: int| 0 <= i < routes.len() && (#[trigger] routes[i]).knows_target
}

/// Whether `place` is that of the room that carries a message to one node: the
/// first that knows it, or else the first of all.
pub open spec fn carries_unicast(routes: Seq<SessionRoute>, place: int) -> bool {
    if is_known(routes) {
        first_that_knows(routes, place)
    } else {
        place == 0 && routes.len() > 0
    }
}

/// Picks the rooms, by their places in the join order, that carry a message: all
/// running ones if it goes to every node, and otherwise the one that is chosen
/// for the target, provided that it runs.
pub fn send_message(target: &NodeId, routes: &[SessionRoute]) -> (places: Vec<usize>)
    ensures
        target@.len() == 0 ==> places@ == running_places(routes@),
        target@.len() > 0 ==> if routes@.len() == 0 {
            places@.len() == 0
        } else {
            exists|place: int|
                {
                    &&& #[trigger] carries_unicast(routes@, place)
                    &&& places@ == (if routes@[place].running {
                        seq![place as usize]
                    } else {
                        Seq::empty()
                    })
                }
        },
{
    let mut places: Vec<usize> = Vec::new();
    if target.is_broadcast() {
        let ghost all = all_places(routes@);
        let ghost runs = runs_at(routes@);
        let mut i: usize = 0;
        proof {
            reveal(Seq::filter);
            assert(all.take(0) =~= Seq::empty());
        }
        while i < routes.len()
            invariant
                i <= routes@.len(),
                all == all_places(routes@),
                runs == runs_at(routes@),
                places@ == all.take(i as int).filter(runs),
            decreases routes@.len() - i,
        {
            if routes[i].running {
                places.push(i);
            }
            proof {
                reveal(Seq::filter);
                assert(all.take(i + 1).drop_last() =~= all.take(i as int));
                assert(all.take(i + 1).last() == i);
            }
            i = i + 1;
        }
        assert(all.take(i as int) =~= all);
        return places;
    }
    let mut i: usize = 0;
    while i < routes.len()
        invariant
            i <= routes@.len(),
            target@.len() > 0,
            places@.len() == 0,
            forall|j: int| 0 <= j < i ==> !(#[trigger] routes@[j]).knows_target,
        decreases routes@.len() - i,
    {
        if routes[i].knows_target {
            assert(carries_unicast(routes@, i as int));
            if routes[i].running {
                places.push(i);
                assert(places@ =~= seq![i]);
            } else {
                assert(places@ =~= Seq::empty());
            }
            return places;
        }
        i = i + 1;
    }
    if routes.len() > 0 {
        assert(carries_unicast(routes@, 0));
        if routes[0].running {
            places.push(0);
            assert(places@ =~= seq![0usize]);
        } else {
            assert(places@ =~= Seq::empty());
        }
    }
    places
}

/// Whether a room knows a node: it has the node in its store, or it runs and its
/// overlay has a route to it.
pub open spec fn knows_node(in_store: bool, running: bool, has_route: bool) -> bool {
    in_store || (running && has_route)
}

/// Whether a room knows a node: it has the node in its store, or it runs and its
/// overlay has a route to it.
pub fn session_knows_target(in_store: bool, running: bool, has_route: bool) -> (knows: bool)
    ensures
        knows == (in_store || (running && has_route)),
        knows == knows_node(in_store, running, has_route),
{
    in_store || (running && has_route)
}

/// The nodes that are told a new position: all connected ones, if the room runs
/// and has an overlay.
pub open spec fn told_position(
    running: bool,
    has_overlay: bool,
    connected: Seq<NodeId>,
) -> Seq<NodeId> {
    if running && has_overlay {
        connected
    } else {
        Seq::empty()
    }
}

/// The nodes that are told a new position: all connected ones, if the room runs
/// and has an overlay.
pub fn position_targets(running: bool, has_overlay: bool, connected: Vec<NodeId>) -> (targets: Vec<
    NodeId,
>)
    ensures
        targets@ == (if running && has_overlay {
            connected@
        } else {
            Seq::empty()
        }),
        targets@ == told_position(running, has_overlay, connected@),
{
    if running && has_overlay {
        connected
    } else {
        let none: Vec<NodeId> = Vec::new();
        assert(none@ =~= Seq::empty());
        none
    }
}

/// Which transport of a room a message goes out on.
#[derive(Debug, Clone, Copy, PartialEq, Eq, Structural)]
pub enum SendRoute {
    /// The room has no overlay: the message goes out as it is.
    Plain,
    /// The overlay puts the message into an envelope; the envelope goes out on
    /// the network transport, which adds none.
    Enveloped,
}

/// The transport that a message goes out on.
pub open spec fn route_taken(has_overlay: bool) -> SendRoute {
    if has_overlay {
        SendRoute::Enveloped
    } else {
        SendRoute::Plain
    }
}

/// Chooses the transport. Either way a message gets at most one envelope.
pub fn send_route(has_overlay: bool) -> (route: SendRoute)
    ensures
        route == (if has_overlay {
            SendRoute::Enveloped
        } else {
            SendRoute::Plain
        }),
        route == route_taken(has_overlay),
{
    if has_overlay {
        SendRoute::Enveloped
    } else {
        SendRoute::Plain
    }
}

/// Messages that wait to go out, one at a time and in the order of the calls.
pub struct SendScheduler<J> {
    queue: VecDeque<J>,
    draining: bool,
}

/// What a [`SendScheduler`] holds.
#[verifier::ext_equal]
pub struct SchedulerModel<J> {
    /// Waiting messages, oldest first.
    pub queue: Seq<J>,
    /// Whether somebody is sending them.
    pub draining: bool,
}

/// No message waits unless somebody is sending.
pub open spec fn nothing_is_stranded<J>(model: SchedulerModel<J>) -> bool {
    model.queue.len() > 0 ==> model.draining
}

/// The messages after one more was to be sent.
pub open spec fn enqueued<J>(model: SchedulerModel<J>, job: J) -> SchedulerModel<J> {
    SchedulerModel { queue: model.queue.push(job), draining: true }
}

/// The messages after the next one was asked for.
pub open spec fn advanced<J>(model: SchedulerModel<J>) -> SchedulerModel<J> {
    if model.queue.len() > 0 {
        SchedulerModel { queue: model.queue.drop_first(), ..model }
    } else {
        SchedulerModel { draining: false, ..model }
    }
}

impl<J> View for SendScheduler<J> {
    type V = SchedulerModel<J>;

    closed spec fn view(&self) -> SchedulerModel<J> {
        SchedulerModel { queue: self.queue@, draining: self.draining }
    }
}

impl<J> SendScheduler<J> {
    pub fn new() -> (scheduler: Self)
        ensures
            scheduler@ == (SchedulerModel { queue: Seq::<J>::empty(), draining: false }),
            nothing_is_stranded(scheduler@),
    {
        let scheduler = SendScheduler { queue: VecDeque::new(), draining: false };
        assert(scheduler@.queue =~= Seq::empty());
        scheduler
    }

    /// Lets a message wait for its turn. Returns whether the caller has to start
    /// sending; nobody else does so then.
    pub fn enqueue_send(&mut self, job: J) -> (start: bool)
        ensures
            start == !old(self)@.draining,
            final(self)@ == (SchedulerModel {
                queue: old(self)@.queue.push(job),
                draining: true,
            }),
            final(self)@ == enqueued(old(self)@, job),
            nothing_is_stranded(final(self)@),
    {
        self.queue.push_back(job);
        let start = !self.draining;
        self.draining = true;
        start
    }

    /// The next message to send. The caller sends it to the end before it asks
    /// for another one, and stops when there is none.
    pub fn next_send(&mut self) -> (job: Option<J>)
        ensures
            match job {
                Some(job) => {
                    &&& old(self)@.queue.len() > 0
                    &&& job == old(self)@.queue[0]
                    &&& final(self)@ == (SchedulerModel {
                        queue: old(self)@.queue.drop_first(),
                        ..old(self)@
                    })
                },
                None => {
                    &&& old(self)@.queue.len() == 0
                    &&& final(self)@ == (SchedulerModel { draining: false, ..old(self)@ })
                },
            },
            final(self)@ == advanced(old(self)@),
            nothing_is_stranded(old(self)@) ==> nothing_is_stranded(final(self)@),
    {
        let job = self.queue.pop_front();
        match job {
            Some(job) => {
                assert(self@.queue =~= old(self)@.queue.drop_first());
                Some(job)
            },
            None => {
                self.draining = false;
                None
            },
        }
    }
}

/// A message goes out when all those before it have gone out and no later one
/// has: the one at place `n` is next after `n` were taken.
pub proof fn lemma_messages_go_out_in_order<J>(model: SchedulerModel<J>, later: J, n: nat)
    requires
        n < model.queue.len(),
    ensures
        model.queue.push(later).skip(n as int)[0] == model.queue[n as int],
        model.queue.push(later).skip(model.queue.len() as int) == seq![later],
{
    assert(model.queue.push(later).skip(model.queue.len() as int) =~= seq![later]);
}

/// The three documented numbers stand for the three guarantees, and no other
/// number stands for any.
pub proof fn lemma_documented_numbers_are_read(number: u32)
    ensures
        delivery_method(number) == Some(DeliveryMethod::ReliableOrdered) <==> number == 0,
        delivery_method(number) == Some(DeliveryMethod::UnreliableOrdered) <==> number == 1,
        delivery_method(number) == Some(DeliveryMethod::Unreliable) <==> number == 2,
        delivery_method(number) is None <==> number > 2,
{
}

proof fn lemma_running_among_first(routes: Seq<SessionRoute>, n: int)
    requires
        0 <= n <= routes.len() <= usize::MAX,
    ensures
        ({
            let places = all_places(routes).take(n).filter(runs_at(routes));
            &&& forall|place: usize| #[trigger]
                places.contains(place) <==> place < n && routes[place as int].running
            &&& forall|i: int, j: int|
                #![trigger places[i], places[j]]
                0 <= i < j < places.len() ==> places[i] < places[j]
        }),
    decreases n,
{
    reveal(Seq::filter);
    let runs = runs_at(routes);
    let places = all_places(routes).take(n).filter(runs);
    if n > 0 {
        lemma_running_among_first(routes, n - 1);
        let before = all_places(routes).take(n - 1).filter(runs);
        let last = (n - 1) as usize;
        assert(all_places(routes).take(n).drop_last() =~= all_places(routes).take(n - 1));
        assert(all_places(routes).take(n).last() == last);
        assert forall|place: usize| #[trigger] places.contains(place) <==> place < n
            && routes[place as int].running by {
            if routes[n - 1].running {
                assert(places == before.push(last));
                assert(places[before.len() as int] == last);
                if places.contains(place) {
                    let i = choose|i: int| 0 <= i < places.len() && places[i] == place;
                    if i < before.len() {
                        assert(before[i] == place);
                        assert(before.contains(place));
                    }
                }
                if before.contains(place) {
                    let i = choose|i: int| 0 <= i < before.len() && before[i] == place;
                    assert(places[i] == place);
                }
                if place < n - 1 && routes[place as int].running {
                    assert(before.contains(place));
                }
            } else {
                assert(places == before);
                assert(before.contains(place) <==> place < n - 1 && routes[place as int].running);
            }
        }
        assert forall|i: int, j: int|
            #![trigger places[i], places[j]]
            0 <= i < j < places.len() implies places[i] < places[j] by {
            if routes[n - 1].running {
                assert(before[i] == places[i]);
                assert(before.contains(before[i]));
                if j < before.len() {
                    assert(before[j] == places[j]);
                }
            }
        }
    }
}

/// A message to everybody goes through every running room once, oldest first,
/// and through no other.
pub proof fn lemma_broadcasts_take_every_running_room(routes: Seq<SessionRoute>)
    requires
        routes.len() <= usize::MAX,
    ensures
        forall|place: usize| #[trigger]
            running_places(routes).contains(place) <==> place < routes.len()
                && routes[place as int].running,
        forall|i: int, j: int|
            #![trigger running_places(routes)[i], running_places(routes)[j]]
            0 <= i < j < running_places(routes).len() ==> running_places(routes)[i]
                < running_places(routes)[j],
{
    lemma_running_among_first(routes, routes.len() as int);
    assert(all_places(routes).take(routes.len() as int) =~= all_places(routes));
}

/// A message to one node goes through the oldest room that knows the node; where
/// none does, it goes through the oldest room. There is one such room as soon as
/// a room is joined.
pub proof fn lemma_unicast_takes_the_oldest_room_that_knows(
    routes: Seq<SessionRoute>,
    place: int,
    other: int,
)
    requires
        carries_unicast(routes, place),
        0 <= other < routes.len(),
    ensures
        0 <= place < routes.len(),
        routes[other].knows_target ==> routes[place].knows_target && place <= other,
        !routes[place].knows_target ==> place == 0 && !routes[other].knows_target,
        carries_unicast(routes, other) ==> other == place,
{
}

/// A room that knows the node and has none before it that does carries the
/// message, and so does the oldest room where no room knows the node.
pub proof fn lemma_unicast_finds_its_room(routes: Seq<SessionRoute>, place: int)
    requires
        0 <= place < routes.len(),
    ensures
        routes[place].knows_target && (forall|i: int|
            0 <= i < place ==> !(#[trigger] routes[i]).knows_target) ==> carries_unicast(
            routes,
            place,
        ),
        (forall|i: int| 0 <= i < routes.len() ==> !(#[trigger] routes[i]).knows_target)
            ==> carries_unicast(routes, 0),
{
}

/// A node in a room's store is known whether or not the room runs; a route to it
/// counts in a running room only.
pub proof fn lemma_stored_nodes_are_known(running: bool, has_route: bool)
    ensures
        knows_node(true, running, has_route),
        knows_node(false, true, has_route) == has_route,
        !knows_node(false, false, has_route),
{
}

/// A position goes to all connected nodes of a room that runs with an overlay
/// and to nobody otherwise.
pub proof fn lemma_positions_need_a_running_overlay(
    running: bool,
    has_overlay: bool,
    connected: Seq<NodeId>,
)
    ensures
        told_position(true, true, connected) == connected,
        told_position(false, has_overlay, connected).len() == 0,
        told_position(running, false, connected).len() == 0,
{
}

/// A message is put into an envelope exactly if there is an overlay to open it.
pub proof fn lemma_envelopes_need_an_overlay(has_overlay: bool)
    ensures
        route_taken(has_overlay) == SendRoute::Enveloped <==> has_overlay,
        route_taken(has_overlay) == SendRoute::Plain <==> !has_overlay,
{
}

/// A message that is to be sent joins the end of the queue, and whoever sends
/// takes the oldest one and goes on until none is left.
pub proof fn lemma_nothing_is_overtaken<J>(model: SchedulerModel<J>, job: J)
    ensures
        enqueued(model, job).draining,
        enqueued(model, job).queue.len() == model.queue.len() + 1,
        enqueued(model, job).queue.last() == job,
        forall|i: int| 0 <= i < model.queue.len() ==> enqueued(model, job).queue[i] == model.queue[i],
        advanced(enqueued(model, job)).draining,
        model.queue.len() > 0 ==> {
            &&& advanced(enqueued(model, job)) == enqueued(
                SchedulerModel { queue: advanced(model).queue, draining: true },
                job,
            )
            &&& advanced(model).queue.len() == model.queue.len() - 1
            &&& advanced(model).draining == model.draining
            &&& forall|i: int|
                0 < i < model.queue.len() ==> advanced(model).queue[i - 1] == #[trigger] model.queue[i]
        },
        model.queue.len() == 0 ==> {
            &&& !advanced(model).draining
            &&& advanced(model).queue.len() == 0
            &&& advanced(enqueued(model, job)).queue.len() == 0
        },
{
    if model.queue.len() > 0 {
        assert(model.queue.push(job).drop_first() =~= model.queue.drop_first().push(job));
    }
}

} // verus!
