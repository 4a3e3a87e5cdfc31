//! The session controller: the per-connection protocol state machine, the
//! event dispatcher, and the glue that turns a wire payload into a decision
//! — control verb, empty message, or a command for the executor — and a
//! command's result back into a wire payload.

use vstd::prelude::*;
use crate::codec;
use crate::codec::inflate_of;
use crate::command;
use crate::command::MessageClass;
use crate::command::is_kill_message;
use crate::command::is_utf8;
use crate::command::is_quit_message;
use crate::command::is_empty_message;
use crate::command::tokens_of;
use crate::command::spawn_failed_text;
use crate::errors::ExecError;
use crate::errors::TransportError;
use crate::registry::LISTENER_TOKEN;
use crate::registry::Registry;
use crate::registry::SessionState;
use crate::registry::only_removed;
use crate::registry::registry_unchanged;

verus! {

/// Why the process exits.  The numeric codes are a contract with existing
/// deployments: each reason has its own code, and none of them is zero.
#[derive(Clone, Copy, Debug, PartialEq, Eq, Structural)]
pub enum ExitReason {
    /// the bind/connect address did not parse
    AddressParse,
    /// the listening port is already bound
    PortBound,
    /// the connection was reset by the peer
    ConnectionReset,
    /// the `kill` verb was received: deliberate whole-process termination
    KillVerb,
    /// no port was configured
    MissingPort,
    /// no callback address was configured
    MissingCallbackAddress,
    /// the outbound connection could not be made
    ConnectFailed,
    /// any other fatal start-up failure
    OtherFailure,
}

pub open spec fn exit_code_spec(reason: ExitReason) -> i32 {
    match reason {
        ExitReason::AddressParse => 8,
        ExitReason::PortBound => 98,
        ExitReason::ConnectionReset => 104,
        ExitReason::KillVerb => 9,
        ExitReason::MissingPort => 6,
        ExitReason::MissingCallbackAddress => 7,
        ExitReason::ConnectFailed => 10,
        ExitReason::OtherFailure => 2,
    }
}

/// The process exit code for a reason: fixed, and never zero.
pub fn exit_code(reason: ExitReason) -> (c: i32)
    ensures
        c == exit_code_spec(reason),
        c != 0,
{
    match reason {
        ExitReason::AddressParse => 8,
        ExitReason::PortBound => 98,
        ExitReason::ConnectionReset => 104,
        ExitReason::KillVerb => 9,
        ExitReason::MissingPort => 6,
        ExitReason::MissingCallbackAddress => 7,
        ExitReason::ConnectFailed => 10,
        ExitReason::OtherFailure => 2,
    }
}

/// Distinct reasons carry distinct exit codes: a caller can tell from the
/// code alone why the process ended.
pub proof fn lemma_exit_codes_distinct(a: ExitReason, b: ExitReason)
    requires
        a != b,
    ensures
        exit_code_spec(a) != exit_code_spec(b),
{
}

/// Where a readiness event is routed: the listening socket accepts, a live
/// session's socket is read, an event for a retired token is ignored.
#[derive(Clone, Copy, Debug, PartialEq, Eq, Structural)]
pub enum EventTarget {
    Listener,
    Session(u64),
    Stale(u64),
}

/// Resolves a readiness event's token against the registry.
pub fn resolve_event(reg: &Registry, token: u64) -> (t: EventTarget)
    ensures
        token == LISTENER_TOKEN ==> t == EventTarget::Listener,
        token != LISTENER_TOKEN && reg.is_live(token) ==> t == EventTarget::Session(token),
        token != LISTENER_TOKEN && !reg.is_live(token) ==> t == EventTarget::Stale(token),
{
    if token == LISTENER_TOKEN {
        EventTarget::Listener
    } else if reg.contains(token) {
        EventTarget::Session(token)
    } else {
        EventTarget::Stale(token)
    }
}

/// What the event loop must do after the controller has handled one event.
pub enum SessionAction {
    /// nothing: wait for the next readiness event
    Idle,
    /// block on the next framed read for this session
    ReadMessage,
    /// terminate the entire local process with this exit code
    TerminateProcess { code: i32 },
    /// shut the session's socket down in both directions and retire it
    DropSession,
    /// run token 0 as a child process with the remaining tokens as arguments
    RunCommand { tokens: Vec<Vec<u8>> },
    /// compress the pending result and write it back
    SendReply,
}

/// What the reactor delivers to one session's state machine.
pub enum SessionEvent {
    /// the session's socket was registered for read-readiness
    Registered,
    /// a full message arrived, was decompressed and classified
    Arrived { class: MessageClass },
    /// the executor finished and its result is pending
    ResultReady,
    /// the pending reply was fully written
    ReplyWritten,
    /// a read or write on the session's socket failed
    TransportFailed { error: TransportError },
}

/// One step of the per-session state machine.  `Closed` is terminal: no
/// event causes further I/O.  A would-block failure changes nothing; a
/// reset, like any other transport failure, closes this session only.  The
/// `kill` verb is the one event that reaches beyond the session and ends
/// the whole process.
pub fn session_step(state: SessionState, event: SessionEvent) -> (r: (SessionState, SessionAction))
    ensures
        ({
            let (next, action) = r;
            match event {
                SessionEvent::Registered => next == (if state == SessionState::Established {
                    SessionState::AwaitingMessage
                } else {
                    state
                }) && (action matches SessionAction::ReadMessage <==> state
                    == SessionState::Established) && (state != SessionState::Established
                    ==> action is Idle),
                SessionEvent::Arrived { class } => if state == SessionState::AwaitingMessage {
                    match class {
                        MessageClass::Kill => next == SessionState::Closed && (action matches
                            SessionAction::TerminateProcess { code } && code == exit_code_spec(
                            ExitReason::KillVerb,
                        )),
                        MessageClass::Quit => next == SessionState::Closed && action
                            is DropSession,
                        MessageClass::Empty => next == SessionState::AwaitingMessage && action
                            is ReadMessage,
                        MessageClass::Command { tokens } => next == SessionState::Dispatching
                            && (action matches SessionAction::RunCommand { tokens: t } && t@
                            == tokens@),
                    }
                } else {
                    next == state && action is Idle
                },
                SessionEvent::ResultReady => if state == SessionState::Dispatching {
                    next == SessionState::Replying && action is SendReply
                } else {
                    next == state && action is Idle
                },
                SessionEvent::ReplyWritten => if state == SessionState::Replying {
                    next == SessionState::AwaitingMessage && action is ReadMessage
                } else {
                    next == state && action is Idle
                },
                SessionEvent::TransportFailed { error } => if error == TransportError::WouldBlock {
                    next == state && action is Idle
                } else if state == SessionState::Closed {
                    next == SessionState::Closed && action is Idle
                } else {
                    next == SessionState::Closed && action is DropSession
                },
            }
        }),
{
    match event {
        SessionEvent::Registered => {
            if state == SessionState::Established {
                (SessionState::AwaitingMessage, SessionAction::ReadMessage)
            } else {
                (state, SessionAction::Idle)
            }
        },
        SessionEvent::Arrived { class } => {
            if state == SessionState::AwaitingMessage {
                match class {
                    MessageClass::Kill => (
                        SessionState::Closed,
                        SessionAction::TerminateProcess { code: exit_code(ExitReason::KillVerb) },
                    ),
                    MessageClass::Quit => (SessionState::Closed, SessionAction::DropSession),
                    MessageClass::Empty => (SessionState::AwaitingMessage, SessionAction::ReadMessage),
                    MessageClass::Command { tokens } => (
                        SessionState::Dispatching,
                        SessionAction::RunCommand { tokens },
                    ),
                }
            } else {
                (state, SessionAction::Idle)
            }
        },
        SessionEvent::ResultReady => {
            if state == SessionState::Dispatching {
                (SessionState::Replying, SessionAction::SendReply)
            } else {
                (state, SessionAction::Idle)
            }
        },
        SessionEvent::ReplyWritten => {
            if state == SessionState::Replying {
                (SessionState::AwaitingMessage, SessionAction::ReadMessage)
            } else {
                (state, SessionAction::Idle)
            }
        },
        SessionEvent::TransportFailed { error } => {
            if error == TransportError::WouldBlock {
                (state, SessionAction::Idle)
            } else if state == SessionState::Closed {
                (SessionState::Closed, SessionAction::Idle)
            } else {
                (SessionState::Closed, SessionAction::DropSession)
            }
        },
    }
}

/// What the event loop must do with one fully received wire payload.
pub enum MessageOutcome {
    /// the `kill` verb: terminate the entire local process
    Terminate { code: i32 },
    /// the `quit` / `exit` verb, or a corrupt payload: this session was
    /// retired; shut its socket down
    CloseSession,
    /// a whitespace-only message: no reply, keep waiting
    NoReply,
    /// a command: run token 0 with the remaining tokens as arguments
    Execute { tokens: Vec<Vec<u8>> },
}

/// Handles one complete inbound wire payload for the session under `token`:
/// decompresses it, checks that it is text, classifies it, and retires the
/// session when the message (or its corruption) demands it.  Every case of
/// the result is pinned to the decoded payload, and the registry is
/// touched exactly when the session closes.
pub fn handle_wire_message(reg: &mut Registry, token: u64, wire: &Vec<u8>) -> (out: MessageOutcome)
    requires
        old(reg).wf(),
    ensures
        final(reg).wf(),
        match inflate_of(wire@) {
            Option::None => out is CloseSession && only_removed(*old(reg), *final(reg), token),
            Option::Some(msg) => if !is_utf8(msg) {
                out is CloseSession && only_removed(*old(reg), *final(reg), token)
            } else {
                &&& (out is Terminate) == is_kill_message(msg)
                &&& (out matches MessageOutcome::Terminate { code } ==> code == exit_code_spec(
                    ExitReason::KillVerb,
                ))
                &&& is_kill_message(msg) ==> registry_unchanged(*old(reg), *final(reg))
                &&& (out is CloseSession) == is_quit_message(msg)
                &&& is_quit_message(msg) ==> only_removed(*old(reg), *final(reg), token)
                &&& (out is NoReply) == is_empty_message(msg)
                &&& is_empty_message(msg) ==> registry_unchanged(*old(reg), *final(reg))
                &&& (out is Execute) == (!is_kill_message(msg) && !is_quit_message(msg)
                    && !is_empty_message(msg))
                &&& (out matches MessageOutcome::Execute { tokens } ==> tokens@.map_values(
                    |t: Vec<u8>| t@,
                ) == tokens_of(msg) && tokens@.len() > 0 && registry_unchanged(
                    *old(reg),
                    *final(reg),
                ))
            },
        },
{
    match codec::decompress(wire) {
        Err(_) => {
            reg.remove(token);
            MessageOutcome::CloseSession
        },
        Ok(msg) => {
            match command::classify_message(&msg) {
                MessageClass::Kill => MessageOutcome::Terminate {
                    code: exit_code(ExitReason::KillVerb),
                },
                MessageClass::Quit => {
                    reg.remove(token);
                    MessageOutcome::CloseSession
                },
                MessageClass::Empty => MessageOutcome::NoReply,
                MessageClass::Command { tokens } => MessageOutcome::Execute { tokens },
            }
        },
    }
}

/// What the event loop does after a transport failure on a session's
/// socket: wait (would-block is transient) or retire the session (a reset,
/// like any other failure, is terminal for the session and only for it).
#[derive(Clone, Copy, Debug, PartialEq, Eq, Structural)]
pub enum ErrorDisposition {
    Wait,
    Drop,
}

/// Applies the transport failure classification to the registry.
pub fn handle_transport_error(reg: &mut Registry, token: u64, error: TransportError) -> (d:
    ErrorDisposition)
    requires
        old(reg).wf(),
    ensures
        final(reg).wf(),
        error == TransportError::WouldBlock ==> d == ErrorDisposition::Wait && registry_unchanged(
            *old(reg),
            *final(reg),
        ),
        error != TransportError::WouldBlock ==> d == ErrorDisposition::Drop && only_removed(
            *old(reg),
            *final(reg),
            token,
        ),
{
    match error {
        TransportError::WouldBlock => ErrorDisposition::Wait,
        _ => {
            reg.remove(token);
            ErrorDisposition::Drop
        },
    }
}

/// The exit code the peer role uses when an unrecoverable transport
/// failure ends its process: the reset code for a reset, the raw OS code
/// otherwise.
pub fn peer_disconnect_code(error: TransportError) -> (c: i32)
    requires
        error != TransportError::WouldBlock,
    ensures
        error == TransportError::Reset ==> c == exit_code_spec(ExitReason::ConnectionReset),
        forall|n: i32| error == TransportError::Other(n) ==> c == n,
{
    match error {
        TransportError::Reset => exit_code(ExitReason::ConnectionReset),
        TransportError::Other(n) => n,
        TransportError::WouldBlock => exit_code(ExitReason::OtherFailure),
    }
}

/// A completed command: the exit status is the success signal, and the
/// captured bytes are standard output on success, standard error on
/// failure — never both.
pub struct CommandResult {
    pub success: bool,
    pub output: Vec<u8>,
}

/// Builds the result of a finished child process from its exit status and
/// its two captured streams.
pub fn select_output(success: bool, stdout: Vec<u8>, stderr: Vec<u8>) -> (r: CommandResult)
    ensures
        r.success == success,
        r.output@ == if success {
            stdout@
        } else {
            stderr@
        },
{
    if success {
        CommandResult { success, output: stdout }
    } else {
        CommandResult { success, output: stderr }
    }
}

/// Compresses a command result for the wire.
pub fn build_reply(result: &CommandResult) -> (r: Vec<u8>)
    ensures
        inflate_of(r@) == Some(result.output@),
{
    codec::compress(&result.output)
}

/// The wire reply when the executable could not be started: the fixed
/// text, compressed.  The session stays open; nothing here touches it.
pub fn build_spawn_failed_reply() -> (r: Vec<u8>)
    ensures
        inflate_of(r@) == Some(spawn_failed_text()),
{
    let text = command::spawn_failed_message();
    codec::compress(&text)
}

/// Turns the executor's raw observation into the error taxonomy: a process
/// that could not even start is `SpawnFailed`; one that ran and reported
/// failure is no channel error at all — its standard error travels in the
/// result.
pub fn exec_outcome(spawned: bool, success: bool, stdout: Vec<u8>, stderr: Vec<u8>) -> (r: Result<
    CommandResult,
    ExecError,
>)
    ensures
        spawned ==> (r matches Ok(res) && res.success == success && res.output@ == (if success {
            stdout@
        } else {
            stderr@
        })),
        !spawned ==> r == Err::<CommandResult, _>(ExecError::SpawnFailed),
{
    if spawned {
        Ok(select_output(success, stdout, stderr))
    } else {
        Err(ExecError::SpawnFailed)
    }
}

/// The wire reply for an execution outcome.  A spawn failure is
/// recoverable: it becomes the fixed user-visible text and the session
/// continues.
pub fn reply_for(outcome: &Result<CommandResult, ExecError>) -> (r: Vec<u8>)
    ensures
        inflate_of(r@) == Some(
            match outcome {
                Ok(res) => res.output@,
                Err(_) => spawn_failed_text(),
            },
        ),
{
    match outcome {
        Ok(res) => build_reply(res),
        Err(_) => build_spawn_failed_reply(),
    }
}

} // verus!
