//! Connections to the relays.

use vstd::prelude::*;

use crate::signaling::epoch::{advance, next_epoch};
use crate::signaling::nostr::{NostrModel, WasmNostrSignaler, RELAY_IDLE_THRESHOLD_MS};

verus! {

/// How long opening the first connection may take.
pub const CONNECT_TIMEOUT_MS: u32 = 15000;

/// Whether a connection that was silent for `elapsed_ms` has been so for too
/// long.
pub open spec fn is_idle(elapsed_ms: u128, threshold_ms: u32) -> bool {
    elapsed_ms >= threshold_ms
}

/// Whether a connection that was silent for `elapsed_ms` has been so for too
/// long.
pub fn is_relay_idle(elapsed_ms: u128, threshold_ms: u32) -> (idle: bool)
    ensures
        idle == (elapsed_ms >= threshold_ms),
        idle == is_idle(elapsed_ms, threshold_ms),
{
    elapsed_ms >= threshold_ms as u128
}

/// What to do when a relay's socket has opened.
#[derive(Debug)]
pub enum RelayOpened {
    /// A later epoch has begun; the one who waits is told so.
    Stale,
    /// Subscribe to the room and announce the client in it.
    Subscribe { room: String },
    /// There is no room yet.
    Ready,
}

/// What to do when a relay's socket has closed.
#[derive(Debug, Clone, Copy, PartialEq, Eq, Structural)]
pub enum RelayClosed {
    /// Tell the one who waits for the socket that it closed before opening.
    ReportFailure,
    /// A later epoch has begun.
    Ignore,
    Reconnect,
}

/// What to do about a connection that may have gone silent.
#[derive(Debug, Clone, Copy, PartialEq, Eq, Structural)]
pub enum WatchdogStep {
    /// Nobody needs the connection watched any more.
    Stop,
    /// Look again after the next interval.
    Watch,
    /// Close the connection, so that it is opened anew.
    Close,
}

/// Being another socket than `ws`.
pub open spec fn other_than(ws: u64) -> spec_fn(u64) -> bool {
    |socket: u64| socket != ws
}

/// The sockets without one of them.
pub open spec fn without_handle(sockets: Seq<u64>, ws: u64) -> Seq<u64> {
    sockets.filter(other_than(ws))
}

/// What waiting for the relays came to.
#[derive(Debug, Clone, Copy, PartialEq, Eq, Structural)]
pub enum RelaysOpened {
    AtLeastOne,
    NotAny,
    TimedOut,
}

/// Why a connect failed; nothing if it did not.
pub open spec fn connect_failure(opened: RelaysOpened) -> Option<Seq<char>> {
    match opened {
        RelaysOpened::AtLeastOne => None,
        RelaysOpened::NotAny => Some("WasmNostrSignaler: failed to connect to any relay"@),
        RelaysOpened::TimedOut => Some("WasmNostrSignaler: relay connection timed out"@),
    }
}

/// What to do when a socket closes that never opened if `waiting`.
pub open spec fn relay_end(model: NostrModel, epoch: u64, waiting: bool) -> RelayClosed {
    if waiting {
        RelayClosed::ReportFailure
    } else if model.reconnect_epoch != epoch {
        RelayClosed::Ignore
    } else {
        RelayClosed::Reconnect
    }
}

/// The model without one of its sockets.
pub open spec fn socket_dropped(model: NostrModel, ws: u64) -> NostrModel {
    NostrModel { sockets: without_handle(model.sockets, ws), ..model }
}

/// The model after a socket closed.
pub open spec fn relay_ended(model: NostrModel, epoch: u64, ws: u64, waiting: bool) -> NostrModel {
    if relay_end(model, epoch, waiting) == RelayClosed::Ignore {
        model
    } else {
        socket_dropped(model, ws)
    }
}

/// The model after a socket failed.
pub open spec fn relay_error_noted(model: NostrModel, ws: u64, waiting: bool) -> NostrModel {
    if waiting {
        socket_dropped(model, ws)
    } else {
        model
    }
}

/// The three things to do when a socket has opened.
pub enum OpenedModel {
    Stale,
    Subscribe { room: Seq<char> },
    Ready,
}

/// What to do when a socket has opened that was meant for `epoch`.
pub open spec fn relay_start(model: NostrModel, epoch: u64) -> OpenedModel {
    if model.reconnect_epoch != epoch {
        OpenedModel::Stale
    } else {
        match model.room {
            Some(room) => OpenedModel::Subscribe { room },
            None => OpenedModel::Ready,
        }
    }
}

/// What to do about a connection that was silent for `elapsed_ms`.
pub open spec fn watch(
    model: NostrModel,
    epoch: u64,
    open: bool,
    elapsed_ms: u128,
) -> WatchdogStep {
    if model.reconnect_epoch != epoch || !open {
        WatchdogStep::Stop
    } else if is_idle(elapsed_ms, RELAY_IDLE_THRESHOLD_MS) {
        WatchdogStep::Close
    } else {
        WatchdogStep::Watch
    }
}

/// Ends a connect: one open relay is enough.
pub fn finish_connect(opened: RelaysOpened) -> (result: Result<(), String>)
    ensures
        match opened {
            RelaysOpened::AtLeastOne => result is Ok,
            RelaysOpened::NotAny => result is Err && result->Err_0@
                == "WasmNostrSignaler: failed to connect to any relay"@,
            RelaysOpened::TimedOut => result is Err && result->Err_0@
                == "WasmNostrSignaler: relay connection timed out"@,
        },
        match connect_failure(opened) {
            Some(reason) => result is Err && result->Err_0@ == reason,
            None => result is Ok,
        },
{
    match opened {
        RelaysOpened::AtLeastOne => Ok(()),
        RelaysOpened::NotAny => Err(
            "WasmNostrSignaler: failed to connect to any relay".to_string(),
        ),
        RelaysOpened::TimedOut => Err(
            "WasmNostrSignaler: relay connection timed out".to_string(),
        ),
    }
}

impl WasmNostrSignaler {
    pub fn next_reconnect_epoch(&mut self) -> (epoch: u64)
        ensures
            epoch == next_epoch(old(self)@.reconnect_epoch),
            final(self)@ == (NostrModel { reconnect_epoch: epoch, ..old(self)@ }),
    {
        self.reconnect_epoch = advance(self.reconnect_epoch);
        self.reconnect_epoch
    }

    pub fn reconnect_epoch_matches(&self, expected_epoch: u64) -> (matches: bool)
        ensures
            matches == (self@.reconnect_epoch == expected_epoch),
    {
        self.reconnect_epoch == expected_epoch
    }

    /// Begins to connect: earlier sockets are forgotten, and whatever was
    /// started for them is superseded.
    pub fn connect(&mut self) -> (epoch: u64)
        ensures
            epoch == next_epoch(next_epoch(old(self)@.reconnect_epoch)),
            final(self)@ == (NostrModel {
                reconnect_epoch: epoch,
                sockets: Seq::empty(),
                ..old(self)@
            }),
    {
        let _ = self.next_reconnect_epoch();
        self.sockets = Vec::new();
        assert(self@.sockets =~= Seq::empty());
        self.next_reconnect_epoch()
    }

    /// Whether a socket may still be opened for an epoch.
    pub fn check_epoch(&self, epoch: u64) -> (result: Result<(), String>)
        ensures
            result is Ok <==> self@.reconnect_epoch == epoch,
            result is Err ==> result->Err_0@ == "WasmNostrSignaler: stale reconnect epoch"@,
    {
        if self.reconnect_epoch_matches(epoch) {
            Ok(())
        } else {
            Err("WasmNostrSignaler: stale reconnect epoch".to_string())
        }
    }

    /// Takes a socket that is being opened.
    pub fn socket_created(&mut self, ws: u64)
        ensures
            final(self)@ == (NostrModel {
                sockets: old(self)@.sockets.push(ws),
                ..old(self)@
            }),
    {
        self.sockets.push(ws);
    }

    pub fn remove_socket(&mut self, ws: u64)
        ensures
            final(self)@ == (NostrModel {
                sockets: without_handle(old(self)@.sockets, ws),
                ..old(self)@
            }),
    {
        let ghost others = other_than(ws);
        let mut kept: Vec<u64> = Vec::new();
        let mut i: usize = 0;
        proof {
            reveal(Seq::filter);
            assert(self.sockets@.take(0) =~= Seq::empty());
        }
        while i < self.sockets.len()
            invariant
                i <= self.sockets@.len(),
                self@ == old(self)@,
                others == other_than(ws),
                kept@ == self.sockets@.take(i as int).filter(others),
            decreases self.sockets@.len() - i,
        {
            if self.sockets[i] != ws {
                kept.push(self.sockets[i]);
            }
            proof {
                reveal(Seq::filter);
                assert(self.sockets@.take(i + 1).drop_last() =~= self.sockets@.take(i as int));
                assert(self.sockets@.take(i + 1).last() == self.sockets@[i as int]);
            }
            i = i + 1;
        }
        assert(self.sockets@.take(i as int) =~= self.sockets@);
        self.sockets = kept;
        assert(self@.sockets =~= without_handle(old(self)@.sockets, ws));
    }

    /// Handles the opening of a socket.
    pub fn relay_opened(&self, epoch: u64) -> (reaction: RelayOpened)
        ensures
            if self@.reconnect_epoch != epoch {
                reaction is Stale
            } else {
                match self@.room {
                    Some(room) => reaction is Subscribe && reaction->room@ == room,
                    None => reaction is Ready,
                }
            },
            match relay_start(self@, epoch) {
                OpenedModel::Stale => reaction is Stale,
                OpenedModel::Subscribe { room } => reaction is Subscribe && reaction->room@ == room,
                OpenedModel::Ready => reaction is Ready,
            },
    {
        if !self.reconnect_epoch_matches(epoch) {
            return RelayOpened::Stale;
        }
        match &self.room_id {
            Some(room) => RelayOpened::Subscribe { room: room.clone() },
            None => RelayOpened::Ready,
        }
    }

    /// Handles an error of a socket; `waiting` says whether it never opened.
    /// Returns whether the socket is to be closed and the one who waits told.
    pub fn relay_failed(&mut self, ws: u64, waiting: bool) -> (report: bool)
        ensures
            report == waiting,
            final(self)@ == (if waiting {
                NostrModel { sockets: without_handle(old(self)@.sockets, ws), ..old(self)@ }
            } else {
                old(self)@
            }),
            final(self)@ == relay_error_noted(old(self)@, ws, waiting),
    {
        if waiting {
            self.remove_socket(ws);
        }
        waiting
    }

    /// Handles the end of a socket; `waiting` says whether it never opened.
    pub fn relay_closed(&mut self, epoch: u64, ws: u64, waiting: bool) -> (reaction: RelayClosed)
        ensures
            reaction == (if waiting {
                RelayClosed::ReportFailure
            } else if old(self)@.reconnect_epoch != epoch {
                RelayClosed::Ignore
            } else {
                RelayClosed::Reconnect
            }),
            final(self)@ == (if reaction == RelayClosed::Ignore {
                old(self)@
            } else {
                NostrModel { sockets: without_handle(old(self)@.sockets, ws), ..old(self)@ }
            }),
            reaction == relay_end(old(self)@, epoch, waiting),
            final(self)@ == relay_ended(old(self)@, epoch, ws, waiting),
    {
        if waiting {
            self.remove_socket(ws);
            return RelayClosed::ReportFailure;
        }
        if !self.reconnect_epoch_matches(epoch) {
            return RelayClosed::Ignore;
        }
        self.remove_socket(ws);
        RelayClosed::Reconnect
    }

    /// Looks after a connection that was silent for `elapsed_ms`.
    pub fn watch_relay(&self, epoch: u64, open: bool, elapsed_ms: u128) -> (step: WatchdogStep)
        ensures
            step == (if self@.reconnect_epoch != epoch || !open {
                WatchdogStep::Stop
            } else if elapsed_ms >= RELAY_IDLE_THRESHOLD_MS {
                WatchdogStep::Close
            } else {
                WatchdogStep::Watch
            }),
            step == watch(self@, epoch, open, elapsed_ms),
    {
        if !self.reconnect_epoch_matches(epoch) || !open {
            return WatchdogStep::Stop;
        }
        if is_relay_idle(elapsed_ms, RELAY_IDLE_THRESHOLD_MS) {
            WatchdogStep::Close
        } else {
            WatchdogStep::Watch
        }
    }
}

/// A socket that was removed is gone, and all others are still there.
pub proof fn lemma_only_the_removed_socket_is_gone(sockets: Seq<u64>, ws: u64, other: u64)
    ensures
        !without_handle(sockets, ws).contains(ws),
        other != ws ==> (without_handle(sockets, ws).contains(other) == sockets.contains(other)),
{
    broadcast use vstd::seq_lib::group_filter_ensures;

    let kept = without_handle(sockets, ws);
    if kept.contains(ws) {
        let i = choose|i: int| 0 <= i < kept.len() && kept[i] == ws;
        assert(other_than(ws)(kept[i]));
    }
    if kept.contains(other) {
        sockets.lemma_filter_contains_rev(other_than(ws), other);
    }
    if other != ws && sockets.contains(other) {
        let i = choose|i: int| 0 <= i < sockets.len() && sockets[i] == other;
        assert(other_than(ws)(sockets[i]));
        assert(kept.contains(sockets[i]));
    }
}

} // verus!
