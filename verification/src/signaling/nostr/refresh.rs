//! Announcing the client in its room again and again.

use vstd::prelude::*;

use crate::arith::saturating_product;
use crate::signaling::epoch::{advance, next_epoch};
use crate::signaling::nostr::{NostrModel, WasmNostrSignaler};

verus! {

/// The shortest time between two announcements.
pub const MIN_DISCOVERY_REFRESH_DELAY_MS: u64 = 500;

/// The time between two announcements before it is varied: half the time for
/// which an announcement counts, but not less than the shortest.
pub open spec fn base_delay(ttl_seconds: u64) -> int {
    if 500 * ttl_seconds > u64::MAX {
        u64::MAX as int
    } else if 500 * ttl_seconds < MIN_DISCOVERY_REFRESH_DELAY_MS {
        MIN_DISCOVERY_REFRESH_DELAY_MS as int
    } else {
        500 * ttl_seconds
    }
}

/// The time between two announcements before it is varied.
pub fn base_discovery_refresh_delay_ms(ttl_seconds: u64) -> (delay: u64)
    ensures
        delay == base_delay(ttl_seconds),
{
    let half: u64 = saturating_product(ttl_seconds, 500);
    if half < MIN_DISCOVERY_REFRESH_DELAY_MS {
        MIN_DISCOVERY_REFRESH_DELAY_MS
    } else {
        half
    }
}

/// A time between two announcements, after it was varied, as the host's timer
/// takes it.
pub open spec fn bounded_delay(millis: u64) -> int {
    if millis < MIN_DISCOVERY_REFRESH_DELAY_MS {
        MIN_DISCOVERY_REFRESH_DELAY_MS as int
    } else if millis > u32::MAX {
        u32::MAX as int
    } else {
        millis as int
    }
}

/// Whether an announcing that began in `epoch` for `room` goes on.
pub open spec fn refresh_goes_on(model: NostrModel, epoch: u64, room: Seq<char>) -> bool {
    model.refresh_epoch == epoch && model.room == Some(room)
}

/// The model after an announcing began or the last one was called off.
pub open spec fn refresh_renewed(model: NostrModel) -> NostrModel {
    NostrModel { refresh_epoch: next_epoch(model.refresh_epoch), ..model }
}

/// A time between two announcements, after it was varied, as the host's timer
/// takes it.
pub fn bounded_refresh_delay_ms(millis: u64) -> (delay: u32)
    ensures
        delay == (if millis < MIN_DISCOVERY_REFRESH_DELAY_MS {
            MIN_DISCOVERY_REFRESH_DELAY_MS as int
        } else if millis > u32::MAX {
            u32::MAX as int
        } else {
            millis as int
        }),
        delay == bounded_delay(millis),
{
    if millis < MIN_DISCOVERY_REFRESH_DELAY_MS {
        500
    } else if millis > 4294967295 {
        4294967295
    } else {
        millis as u32
    }
}

impl WasmNostrSignaler {
    /// Begins to announce the client; an earlier announcing ends by it.
    pub fn spawn_discovery_refresh(&mut self) -> (epoch: u64)
        ensures
            epoch == next_epoch(old(self)@.refresh_epoch),
            final(self)@ == (NostrModel { refresh_epoch: epoch, ..old(self)@ }),
            final(self)@ == refresh_renewed(old(self)@),
    {
        self.refresh_epoch = advance(self.refresh_epoch);
        self.refresh_epoch
    }

    pub fn cancel_discovery_refresh(&mut self)
        ensures
            final(self)@ == (NostrModel {
                refresh_epoch: next_epoch(old(self)@.refresh_epoch),
                ..old(self)@
            }),
            final(self)@ == refresh_renewed(old(self)@),
    {
        let _ = self.spawn_discovery_refresh();
    }

    /// Whether an announcing that began in `epoch` goes on.
    pub fn discovery_refresh_due(&self, epoch: u64, room_id: &str) -> (due: bool)
        ensures
            due == (self@.refresh_epoch == epoch && self@.room == Some(room_id@)),
            due == refresh_goes_on(self@, epoch, room_id@),
    {
        self.refresh_epoch == epoch && self.room_is_current(room_id)
    }
}

/// A client is announced again before its announcement lapses, for every
/// lifetime of at least a second.
pub proof fn lemma_refresh_outpaces_expiry(ttl_seconds: u64)
    requires
        1 <= ttl_seconds,
    ensures
        base_delay(ttl_seconds) < 1000 * ttl_seconds,
        base_delay(ttl_seconds) >= MIN_DISCOVERY_REFRESH_DELAY_MS,
{
}

/// A client is announced twice in the lifetime of an announcement, as far as the
/// time can be counted, and never more often than twice a second.
pub proof fn lemma_announcements_come_twice_per_lifetime(ttl_seconds: u64, millis: u64)
    ensures
        base_delay(ttl_seconds) >= 500,
        1 <= ttl_seconds && 1000 * ttl_seconds <= u64::MAX ==> 2 * base_delay(ttl_seconds) == 1000
            * ttl_seconds,
        ttl_seconds == 0 ==> base_delay(ttl_seconds) == 500,
        base_delay(ttl_seconds) <= u64::MAX,
        500 <= bounded_delay(millis) <= 4294967295,
        500 <= millis <= 4294967295 ==> bounded_delay(millis) == millis,
        millis < 500 ==> bounded_delay(millis) == 500,
        millis > 4294967295 ==> bounded_delay(millis) == 4294967295,
{
}

/// An announcing goes on in its room until another one begins or it is called
/// off, and in no other room; it touches nothing but its own epoch.
pub proof fn lemma_announcing_ends_with_its_room(model: NostrModel, room: Seq<char>, other: Seq<char>)
    requires
        model.room == Some(room),
        model.refresh_epoch < u64::MAX,
    ensures
        refresh_goes_on(model, model.refresh_epoch, room),
        other != room ==> !refresh_goes_on(model, model.refresh_epoch, other),
        !refresh_goes_on(refresh_renewed(model), model.refresh_epoch, room),
        refresh_goes_on(refresh_renewed(model), (model.refresh_epoch + 1) as u64, room),
        !refresh_goes_on(NostrModel { room: None, ..model }, model.refresh_epoch, room),
        refresh_renewed(model) == (NostrModel {
            refresh_epoch: (model.refresh_epoch + 1) as u64,
            ..model
        }),
{
}

} // verus!
