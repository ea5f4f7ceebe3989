//! Keeping the connections to the relays alive.

use vstd::prelude::*;

use crate::signaling::epoch::{advance, next_epoch};
use crate::signaling::nostr::{NostrModel, WasmNostrSignaler};

verus! {

/// Whether a task that began in `epoch` for `room` goes on.
pub open spec fn keepalive_goes_on(model: NostrModel, epoch: u64, room: Seq<char>) -> bool {
    model.keepalive_epoch == epoch && model.room == Some(room)
}

/// The model after a task began or the last one was called off.
pub open spec fn keepalive_renewed(model: NostrModel) -> NostrModel {
    NostrModel { keepalive_epoch: next_epoch(model.keepalive_epoch), ..model }
}

impl WasmNostrSignaler {
    /// Begins to send the subscriptions again and again; an earlier such task
    /// ends by it.
    pub fn spawn_relay_keepalive(&mut self) -> (epoch: u64)
        ensures
            epoch == next_epoch(old(self)@.keepalive_epoch),
            final(self)@ == (NostrModel { keepalive_epoch: epoch, ..old(self)@ }),
            final(self)@ == keepalive_renewed(old(self)@),
    {
        self.keepalive_epoch = advance(self.keepalive_epoch);
        self.keepalive_epoch
    }

    pub fn cancel_relay_keepalive(&mut self)
        ensures
            final(self)@ == (NostrModel {
                keepalive_epoch: next_epoch(old(self)@.keepalive_epoch),
                ..old(self)@
            }),
            final(self)@ == keepalive_renewed(old(self)@),
    {
        let _ = self.spawn_relay_keepalive();
    }

    /// Whether a task that began in `epoch` goes on.
    pub fn relay_keepalive_due(&self, epoch: u64, room_id: &str) -> (due: bool)
        ensures
            due == (self@.keepalive_epoch == epoch && self@.room == Some(room_id@)),
            due == keepalive_goes_on(self@, epoch, room_id@),
    {
        self.keepalive_epoch == epoch && self.room_is_current(room_id)
    }
}

/// A task goes on in its room until another one begins or it is called off, and
/// in no other room; it touches nothing but its own epoch.
pub proof fn lemma_keepalive_ends_with_its_room(model: NostrModel, room: Seq<char>, other: Seq<char>)
    requires
        model.room == Some(room),
        model.keepalive_epoch < u64::MAX,
    ensures
        keepalive_goes_on(model, model.keepalive_epoch, room),
        other != room ==> !keepalive_goes_on(model, model.keepalive_epoch, other),
        !keepalive_goes_on(keepalive_renewed(model), model.keepalive_epoch, room),
        keepalive_goes_on(keepalive_renewed(model), (model.keepalive_epoch + 1) as u64, room),
        !keepalive_goes_on(NostrModel { room: None, ..model }, model.keepalive_epoch, room),
        keepalive_renewed(model) == (NostrModel {
            keepalive_epoch: (model.keepalive_epoch + 1) as u64,
            ..model
        }),
{
}

} // verus!
