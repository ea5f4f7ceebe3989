//! Signaling over a WebSocket server.

use vstd::prelude::*;

use crate::signaling::epoch::{advance, next_epoch};
use crate::text::join_text;
use crate::types::{ErrorModel, MessageContent, MistError, SignalingData, SignalingType};

verus! {

/// How long opening a connection may take.
pub const CONNECT_TIMEOUT_MS: u32 = 15000;

/// What is handed on of a message from the server.
pub open spec fn forwarded_data(data: SignalingData) -> Option<MessageContent> {
    if data.signaling_type == SignalingType::Rejoin {
        None
    } else {
        Some(MessageContent::Data(data))
    }
}

/// What to do with a message from the server: messages that are only ever made
/// up locally are dropped. Nothing protects this channel, so that a server could
/// otherwise make the client tear down any of its connections.
pub fn forward_incoming_signaling_data(data: SignalingData) -> (forwarded: Option<MessageContent>)
    ensures
        data.signaling_type == SignalingType::Rejoin <==> forwarded is None,
        forwarded is Some ==> forwarded->Some_0 == MessageContent::Data(data),
        forwarded == forwarded_data(data),
{
    if data.signaling_type.is_local_only() {
        return None;
    }
    Some(MessageContent::Data(data))
}

/// State of the connection to the signaling server. The host keeps its sockets
/// under numbers.
pub struct WasmWebSocketSignaler {
    pub url: String,
    pub socket: Option<u64>,
    /// Whether somebody takes incoming messages.
    pub has_receiver: bool,
    pub session_epoch: u64,
    pub reset_inflight: bool,
    /// Whether somebody wants to know when a lost session is back.
    pub has_hook: bool,
}

/// What a [`WasmWebSocketSignaler`] holds.
#[verifier::ext_equal]
pub struct WsModel {
    pub url: Seq<char>,
    pub socket: Option<u64>,
    pub has_receiver: bool,
    pub epoch: u64,
    pub reset_inflight: bool,
    pub has_hook: bool,
}

impl View for WasmWebSocketSignaler {
    type V = WsModel;

    open spec fn view(&self) -> WsModel {
        WsModel {
            url: self.url@,
            socket: self.socket,
            has_receiver: self.has_receiver,
            epoch: self.session_epoch,
            reset_inflight: self.reset_inflight,
            has_hook: self.has_hook,
        }
    }
}

/// A socket to close and the epoch in which a new one is to be opened.
#[derive(Debug, Clone, Copy, PartialEq, Eq, Structural)]
pub struct Reopen {
    pub close: Option<u64>,
    pub epoch: u64,
}

/// What came of opening a socket.
#[derive(Debug)]
pub enum OpenResult {
    Opened,
    Failed(String),
    WaiterDropped,
    TimedOut,
}

/// What opening a socket ends with.
#[derive(Debug)]
pub struct OpenEnd {
    pub outcome: Result<(), String>,
    /// Whether the socket is to be closed and its callbacks removed.
    pub discard: bool,
    /// Whether to tell that a lost session is back.
    pub call_hook: bool,
}

/// Why opening failed; nothing if it did not.
pub open spec fn open_failure(result: OpenResult) -> Option<Seq<char>> {
    match result {
        OpenResult::Opened => None,
        OpenResult::Failed(message) => Some("WasmWebSocketSignaler: "@ + message@),
        OpenResult::WaiterDropped => Some(
            "WasmWebSocketSignaler: websocket open waiter was canceled"@,
        ),
        OpenResult::TimedOut => Some("WasmWebSocketSignaler: websocket connection timed out"@),
    }
}

/// The model without the socket `ws`.
pub open spec fn without_socket(model: WsModel, ws: u64) -> WsModel {
    if model.socket == Some(ws) {
        WsModel { socket: None, ..model }
    } else {
        model
    }
}

/// What to do when a socket closes.
#[derive(Debug, Clone, Copy, PartialEq, Eq, Structural)]
pub enum SocketClosed {
    /// Tell the one who waits for the socket that it closed before opening.
    ReportFailure,
    /// A later epoch has begun.
    Ignore,
    Reconnect,
}

/// How a reset begins.
#[derive(Debug, Clone, Copy, PartialEq, Eq, Structural)]
pub enum ResetStart {
    /// Another reset is under way, or nobody takes incoming messages.
    Nothing,
    Reopen(Reopen),
}

/// What to do with an outgoing message.
#[derive(Debug, Clone, Copy, PartialEq, Eq, Structural)]
pub enum WsSend {
    Nothing,
    Send { socket: u64 },
}

/// What to do with an outgoing message, where `open` says whether the socket is
/// open.
pub open spec fn ws_send(model: WsModel, msg: MessageContent, open: bool) -> Result<
    WsSend,
    ErrorModel,
> {
    match msg {
        MessageContent::Data(data) => if data.signaling_type == SignalingType::Rejoin {
            Ok(WsSend::Nothing)
        } else if model.socket is Some && open {
            Ok(WsSend::Send { socket: model.socket->Some_0 })
        } else {
            Err(ErrorModel::Signaling("WasmWebSocketSignaler: websocket is not open"@))
        },
        _ => if model.socket is Some && open {
            Err(ErrorModel::Signaling("WasmWebSocketSignaler: unsupported message type"@))
        } else {
            Err(ErrorModel::Signaling("WasmWebSocketSignaler: websocket is not open"@))
        },
    }
}

/// The model after a connection began.
pub open spec fn ws_connecting(model: WsModel) -> WsModel {
    WsModel { has_receiver: true, epoch: next_epoch(model.epoch), socket: None, ..model }
}

/// The socket to close and the epoch of the next one.
pub open spec fn reopening(model: WsModel) -> Reopen {
    Reopen { close: model.socket, epoch: next_epoch(model.epoch) }
}

/// Whether a socket whose opening ended is given up; `failed` says whether it did
/// not open.
pub open spec fn is_given_up(model: WsModel, epoch: u64, failed: bool) -> bool {
    failed || model.epoch != epoch
}

/// The model after the opening of a socket ended.
pub open spec fn ws_open_ended(model: WsModel, epoch: u64, ws: u64, failed: bool) -> WsModel {
    if is_given_up(model, epoch, failed) {
        without_socket(model, ws)
    } else {
        model
    }
}

/// Whether to tell that a lost session is back.
pub open spec fn tells_return(model: WsModel, epoch: u64, failed: bool, notify: bool) -> bool {
    !is_given_up(model, epoch, failed) && notify && model.has_hook
}

/// What to do when a socket closes that never opened if `waiting`.
pub open spec fn socket_end(model: WsModel, epoch: u64, waiting: bool) -> SocketClosed {
    if waiting {
        SocketClosed::ReportFailure
    } else if model.epoch != epoch {
        SocketClosed::Ignore
    } else {
        SocketClosed::Reconnect
    }
}

/// The model after a socket closed.
pub open spec fn ws_socket_ended(model: WsModel, epoch: u64, ws: u64, waiting: bool) -> WsModel {
    if socket_end(model, epoch, waiting) == SocketClosed::Reconnect {
        without_socket(model, ws)
    } else {
        model
    }
}

/// How a reset begins.
pub open spec fn reset_start(model: WsModel) -> ResetStart {
    if model.reset_inflight || !model.has_receiver {
        ResetStart::Nothing
    } else {
        ResetStart::Reopen(reopening(model))
    }
}

/// The model after a reset began.
pub open spec fn reset_begun(model: WsModel) -> WsModel {
    if model.reset_inflight || !model.has_receiver {
        model
    } else {
        WsModel { socket: None, epoch: next_epoch(model.epoch), reset_inflight: true, ..model }
    }
}

/// The model after a reset ended.
pub open spec fn reset_ended(model: WsModel) -> WsModel {
    WsModel { reset_inflight: false, ..model }
}

/// Why a reset failed; nothing if it did not.
pub open spec fn reset_failure(opened: Result<(), Seq<char>>) -> Option<ErrorModel> {
    match opened {
        Ok(_) => None,
        Err(reason) => Some(
            ErrorModel::Network("WasmWebSocketSignaler: reset reconnect failed: "@ + reason),
        ),
    }
}

/// The model after the session ended.
pub open spec fn ws_closed(model: WsModel) -> WsModel {
    WsModel { has_receiver: false, epoch: next_epoch(model.epoch), socket: None, ..model }
}

/// A signaler that has not been used yet.
pub open spec fn fresh_ws(url: Seq<char>) -> WsModel {
    WsModel {
        url,
        socket: None,
        has_receiver: false,
        epoch: 0,
        reset_inflight: false,
        has_hook: false,
    }
}

impl WasmWebSocketSignaler {
    pub fn new(url: &str) -> (signaler: Self)
        ensures
            signaler@ == fresh_ws(url@),
    {
        WasmWebSocketSignaler {
            url: url.to_string(),
            socket: None,
            has_receiver: false,
            session_epoch: 0,
            reset_inflight: false,
            has_hook: false,
        }
    }

    fn next_epoch(&mut self) -> (epoch: u64)
        ensures
            epoch == next_epoch(old(self)@.epoch),
            final(self)@ == (WsModel { epoch, ..old(self)@ }),
    {
        self.session_epoch = advance(self.session_epoch);
        self.session_epoch
    }

    pub fn is_epoch_current(&self, epoch: u64) -> (current: bool)
        ensures
            current == (self@.epoch == epoch),
    {
        self.session_epoch == epoch
    }

    fn take_socket(&mut self) -> (socket: Option<u64>)
        ensures
            socket == old(self)@.socket,
            final(self)@ == (WsModel { socket: None, ..old(self)@ }),
    {
        let socket = self.socket;
        self.socket = None;
        socket
    }

    /// Begins a connection; the one that is there is closed.
    pub fn connect(&mut self) -> (plan: Reopen)
        ensures
            plan == (Reopen {
                close: old(self)@.socket,
                epoch: next_epoch(old(self)@.epoch),
            }),
            final(self)@ == (WsModel {
                has_receiver: true,
                epoch: plan.epoch,
                socket: None,
                ..old(self)@
            }),
            plan == reopening(old(self)@),
            final(self)@ == ws_connecting(old(self)@),
    {
        self.has_receiver = true;
        let epoch: u64 = self.next_epoch();
        let close = self.take_socket();
        Reopen { close, epoch }
    }

    /// Whether a socket may still be opened for an epoch.
    pub fn check_epoch(&self, epoch: u64) -> (result: Result<(), String>)
        ensures
            result is Ok <==> self@.epoch == epoch,
            result is Err ==> result->Err_0@ == "WasmWebSocketSignaler: stale reconnect epoch"@,
    {
        if self.is_epoch_current(epoch) {
            Ok(())
        } else {
            Err("WasmWebSocketSignaler: stale reconnect epoch".to_string())
        }
    }

    /// Takes a socket that is being opened.
    pub fn socket_created(&mut self, ws: u64)
        ensures
            final(self)@ == (WsModel { socket: Some(ws), ..old(self)@ }),
    {
        self.socket = Some(ws);
    }

    pub fn clear_socket_if_same(&mut self, ws: u64)
        ensures
            final(self)@ == without_socket(old(self)@, ws),
    {
        if self.socket == Some(ws) {
            self.socket = None;
        }
    }

    /// Ends the opening of a socket. A socket that did not open, or that opened
    /// in a later epoch than it was meant for, is given up.
    pub fn finish_open(
        &mut self,
        epoch: u64,
        ws: u64,
        notify_reestablished: bool,
        result: OpenResult,
    ) -> (end: OpenEnd)
        ensures
            match open_failure(result) {
                Some(reason) => end.outcome is Err && end.outcome->Err_0@ == reason,
                None => end.outcome is Ok,
            },
            end.discard == (open_failure(result) is Some || old(self)@.epoch != epoch),
            end.call_hook == (!end.discard && notify_reestablished && old(self)@.has_hook),
            final(self)@ == (if end.discard {
                without_socket(old(self)@, ws)
            } else {
                old(self)@
            }),
            end.discard == is_given_up(old(self)@, epoch, open_failure(result) is Some),
            end.call_hook == tells_return(
                old(self)@,
                epoch,
                open_failure(result) is Some,
                notify_reestablished,
            ),
            final(self)@ == ws_open_ended(old(self)@, epoch, ws, open_failure(result) is Some),
    {
        let outcome: Result<(), String> = match result {
            OpenResult::Opened => Ok(()),
            OpenResult::Failed(message) => Err(
                join_text("WasmWebSocketSignaler: ", message.as_str()),
            ),
            OpenResult::WaiterDropped => Err(
                "WasmWebSocketSignaler: websocket open waiter was canceled".to_string(),
            ),
            OpenResult::TimedOut => Err(
                "WasmWebSocketSignaler: websocket connection timed out".to_string(),
            ),
        };
        let discard = outcome.is_err() || !self.is_epoch_current(epoch);
        if discard {
            self.clear_socket_if_same(ws);
        }
        OpenEnd { outcome, discard, call_hook: !discard && notify_reestablished && self.has_hook }
    }

    /// Handles the end of a socket; `waiting` says whether it never opened.
    pub fn socket_closed(&mut self, epoch: u64, ws: u64, waiting: bool) -> (reaction: SocketClosed)
        ensures
            reaction == (if waiting {
                SocketClosed::ReportFailure
            } else if old(self)@.epoch != epoch {
                SocketClosed::Ignore
            } else {
                SocketClosed::Reconnect
            }),
            final(self)@ == (if reaction == SocketClosed::Reconnect {
                without_socket(old(self)@, ws)
            } else {
                old(self)@
            }),
            reaction == socket_end(old(self)@, epoch, waiting),
            final(self)@ == ws_socket_ended(old(self)@, epoch, ws, waiting),
    {
        if waiting {
            return SocketClosed::ReportFailure;
        }
        if !self.is_epoch_current(epoch) {
            return SocketClosed::Ignore;
        }
        self.clear_socket_if_same(ws);
        SocketClosed::Reconnect
    }

    /// Begins a reset of the session: the socket is closed and a new one opened,
    /// unless that is under way already.
    pub fn reset_session(&mut self) -> (start: ResetStart)
        ensures
            if old(self)@.reset_inflight || !old(self)@.has_receiver {
                start == ResetStart::Nothing && final(self)@ == old(self)@
            } else {
                &&& start == ResetStart::Reopen(
                    Reopen { close: old(self)@.socket, epoch: next_epoch(old(self)@.epoch) },
                )
                &&& final(self)@ == (WsModel {
                    socket: None,
                    epoch: next_epoch(old(self)@.epoch),
                    reset_inflight: true,
                    ..old(self)@
                })
            },
            start == reset_start(old(self)@),
            final(self)@ == reset_begun(old(self)@),
    {
        if self.reset_inflight || !self.has_receiver {
            return ResetStart::Nothing;
        }
        self.reset_inflight = true;
        let epoch: u64 = self.next_epoch();
        let close = self.take_socket();
        ResetStart::Reopen(Reopen { close, epoch })
    }

    /// Ends a reset. Where the new socket did not open, reconnecting goes on in
    /// the background and the reset is an error.
    pub fn finish_reset(&mut self, opened: Result<(), String>) -> (result: Result<(), MistError>)
        ensures
            final(self)@ == (WsModel { reset_inflight: false, ..old(self)@ }),
            opened is Ok <==> result is Ok,
            opened is Err ==> result->Err_0@ == ErrorModel::Network(
                "WasmWebSocketSignaler: reset reconnect failed: "@ + opened->Err_0@,
            ),
            final(self)@ == reset_ended(old(self)@),
            match reset_failure(
                match opened {
                    Ok(_) => Ok(()),
                    Err(reason) => Err(reason@),
                },
            ) {
                Some(error) => result is Err && result->Err_0@ == error,
                None => result is Ok,
            },
    {
        self.reset_inflight = false;
        match opened {
            Ok(()) => Ok(()),
            Err(reason) => Err(
                MistError::Network(
                    join_text(
                        "WasmWebSocketSignaler: reset reconnect failed: ",
                        reason.as_str(),
                    ),
                ),
            ),
        }
    }

    /// Decides what becomes of an outgoing message; `open` says whether the
    /// socket is open. Messages that are only ever made up locally are not sent.
    pub fn send_signaling(&self, msg: &MessageContent, open: bool) -> (result: Result<
        WsSend,
        MistError,
    >)
        ensures
            match ws_send(self@, *msg, open) {
                Ok(send) => result is Ok && result->Ok_0 == send,
                Err(error) => result is Err && result->Err_0@ == error,
            },
    {
        if let MessageContent::Data(data) = msg {
            if data.signaling_type.is_local_only() {
                return Ok(WsSend::Nothing);
            }
        }
        let socket: u64 = match self.socket {
            Some(socket) if open => socket,
            _ => {
                return Err(
                    MistError::Signaling(
                        "WasmWebSocketSignaler: websocket is not open".to_string(),
                    ),
                );
            },
        };
        match msg {
            MessageContent::Data(_) => Ok(WsSend::Send { socket }),
            _ => Err(
                MistError::Signaling(
                    "WasmWebSocketSignaler: unsupported message type".to_string(),
                ),
            ),
        }
    }

    pub fn set_on_session_reestablished(&mut self)
        ensures
            final(self)@ == (WsModel { has_hook: true, ..old(self)@ }),
    {
        self.has_hook = true;
    }

    /// Ends the session and returns the socket that is to be closed.
    pub fn close(&mut self) -> (socket: Option<u64>)
        ensures
            socket == old(self)@.socket,
            final(self)@ == (WsModel {
                has_receiver: false,
                epoch: next_epoch(old(self)@.epoch),
                socket: None,
                ..old(self)@
            }),
            final(self)@ == ws_closed(old(self)@),
    {
        self.has_receiver = false;
        let _ = self.next_epoch();
        self.take_socket()
    }
}

/// Whatever was started in a session is superseded by a new connection, a reset
/// or the end of the session.
pub proof fn lemma_new_session_supersedes(model: WsModel)
    requires
        model.epoch < u64::MAX,
    ensures
        next_epoch(model.epoch) != model.epoch,
{
}

/// A message that is only ever made up locally is never sent, whatever the state
/// of the socket.
pub proof fn lemma_local_messages_are_not_sent(model: WsModel, data: SignalingData, open: bool)
    requires
        data.signaling_type == SignalingType::Rejoin,
    ensures
        ws_send(model, MessageContent::Data(data), open) == Ok::<WsSend, ErrorModel>(
            WsSend::Nothing,
        ),
{
}

/// Everything from the server is handed on as it came, except for news that are
/// only ever made up locally.
pub proof fn lemma_server_messages_are_handed_on(data: SignalingData)
    ensures
        data.signaling_type == SignalingType::Rejoin ==> forwarded_data(data) is None,
        data.signaling_type != SignalingType::Rejoin ==> forwarded_data(data) == Some(
            MessageContent::Data(data),
        ),
{
}

/// A connection begins with somebody who takes messages and without a socket,
/// and the session ends with neither; both supersede what was started before and
/// hand the socket out that was there. Nothing else changes.
pub proof fn lemma_sessions_begin_and_end_without_a_socket(model: WsModel)
    ensures
        ws_connecting(model).has_receiver,
        !ws_closed(model).has_receiver,
        ws_connecting(model).socket is None,
        ws_closed(model).socket is None,
        reopening(model).close == model.socket,
        reopening(model).epoch == ws_connecting(model).epoch,
        model.epoch < u64::MAX ==> ws_connecting(model).epoch == model.epoch + 1
            && ws_closed(model).epoch == model.epoch + 1,
        ws_connecting(model).url == model.url,
        ws_closed(model).url == model.url,
        ws_connecting(model).has_hook == model.has_hook,
        ws_closed(model).has_hook == model.has_hook,
        ws_connecting(model).reset_inflight == model.reset_inflight,
        ws_closed(model).reset_inflight == model.reset_inflight,
{
}

/// Giving a socket up forgets that socket and no other, and changes nothing
/// else.
pub proof fn lemma_only_the_given_socket_is_forgotten(model: WsModel, ws: u64)
    ensures
        model.socket == Some(ws) ==> without_socket(model, ws).socket is None,
        model.socket != Some(ws) ==> without_socket(model, ws) == model,
        without_socket(model, ws).url == model.url,
        without_socket(model, ws).has_receiver == model.has_receiver,
        without_socket(model, ws).epoch == model.epoch,
        without_socket(model, ws).reset_inflight == model.reset_inflight,
        without_socket(model, ws).has_hook == model.has_hook,
{
}

/// A socket that opened in its epoch is kept; one that did not open, or opened
/// too late, is given up. That a session is back is told only of a socket that
/// is kept, where it was asked for and somebody wants to know.
pub proof fn lemma_late_sockets_are_given_up(
    model: WsModel,
    epoch: u64,
    ws: u64,
    failed: bool,
    notify: bool,
)
    ensures
        !is_given_up(model, model.epoch, false),
        is_given_up(model, epoch, true),
        epoch != model.epoch ==> is_given_up(model, epoch, failed),
        ws_open_ended(model, model.epoch, ws, false) == model,
        ws_open_ended(model, epoch, ws, true) == without_socket(model, ws),
        epoch != model.epoch ==> ws_open_ended(model, epoch, ws, failed) == without_socket(model, ws),
        tells_return(model, model.epoch, false, true) == model.has_hook,
        !tells_return(model, epoch, failed, false),
        !tells_return(model, epoch, true, notify),
        epoch != model.epoch ==> !tells_return(model, epoch, failed, notify),
{
}

/// A socket did not fail exactly if it opened, and a failure says what it was.
pub proof fn lemma_failures_are_explained(result: OpenResult)
    ensures
        open_failure(result) is None <==> result is Opened,
        result matches OpenResult::Failed(message) ==> open_failure(result) == Some(
            "WasmWebSocketSignaler: "@ + message@,
        ),
        result is WaiterDropped ==> open_failure(result) == Some(
            "WasmWebSocketSignaler: websocket open waiter was canceled"@,
        ),
        result is TimedOut ==> open_failure(result) == Some(
            "WasmWebSocketSignaler: websocket connection timed out"@,
        ),
{
}

/// A socket that closes before it opened is reported to the one who waits; one
/// that closes in its epoch is forgotten and opened anew; and one that closes in
/// a later epoch does not matter.
pub proof fn lemma_lost_sockets_are_opened_anew(model: WsModel, epoch: u64, ws: u64)
    ensures
        socket_end(model, epoch, true) == SocketClosed::ReportFailure,
        socket_end(model, model.epoch, false) == SocketClosed::Reconnect,
        epoch != model.epoch ==> socket_end(model, epoch, false) == SocketClosed::Ignore,
        ws_socket_ended(model, epoch, ws, true) == model,
        ws_socket_ended(model, model.epoch, ws, false) == without_socket(model, ws),
        epoch != model.epoch ==> ws_socket_ended(model, epoch, ws, false) == model,
{
}

/// A reset closes the socket and opens another in the next epoch. Until it has
/// ended a second one does nothing, and so does one that nobody would take
/// messages after.
pub proof fn lemma_resets_do_not_overlap(model: WsModel)
    ensures
        !model.has_receiver ==> reset_start(model) == ResetStart::Nothing && reset_begun(model)
            == model,
        model.reset_inflight ==> reset_start(model) == ResetStart::Nothing && reset_begun(model)
            == model,
        model.has_receiver && !model.reset_inflight ==> {
            &&& reset_start(model) is Reopen
            &&& reset_start(model)->Reopen_0.close == model.socket
            &&& reset_start(model)->Reopen_0.epoch == reset_begun(model).epoch
            &&& model.epoch < u64::MAX ==> reset_begun(model).epoch == model.epoch + 1
            &&& reset_begun(model).socket is None
            &&& reset_begun(model).has_receiver
            &&& reset_begun(model).url == model.url
            &&& reset_begun(model).has_hook == model.has_hook
            &&& reset_start(reset_begun(model)) == ResetStart::Nothing
            &&& reset_start(reset_ended(reset_begun(model))) is Reopen
        },
        reset_ended(model).socket == model.socket,
        reset_ended(model).epoch == model.epoch,
        reset_ended(model).has_receiver == model.has_receiver,
        reset_ended(model).has_hook == model.has_hook,
        reset_ended(model).url == model.url,
{
}

/// A reset fails exactly if its socket did not open, and says why it did not.
pub proof fn lemma_resets_fail_with_their_socket(reason: Seq<char>)
    ensures
        reset_failure(Ok(())) is None,
        reset_failure(Err(reason)) == Some(
            ErrorModel::Network("WasmWebSocketSignaler: reset reconnect failed: "@ + reason),
        ),
{
}

/// A message that may be sent goes out on the socket, if that is open, and is an
/// error if it is not; whatever is no signaling message is never sent.
pub proof fn lemma_messages_need_an_open_socket(
    model: WsModel,
    data: SignalingData,
    other: MessageContent,
    open: bool,
)
    requires
        data.signaling_type != SignalingType::Rejoin,
        !(other is Data),
    ensures
        model.socket is Some ==> ws_send(model, MessageContent::Data(data), true) == Ok::<
            WsSend,
            ErrorModel,
        >(WsSend::Send { socket: model.socket->Some_0 }),
        ws_send(model, MessageContent::Data(data), false) is Err,
        model.socket is None ==> ws_send(model, MessageContent::Data(data), open) is Err,
        ws_send(model, other, open) is Err,
        model.socket is Some ==> ws_send(model, other, true)->Err_0 == ErrorModel::Signaling(
            "WasmWebSocketSignaler: unsupported message type"@,
        ),
        ws_send(model, MessageContent::Data(data), false)->Err_0 == ErrorModel::Signaling(
            "WasmWebSocketSignaler: websocket is not open"@,
        ),
{
}

} // verus!
