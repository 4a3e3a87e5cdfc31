//! The error taxonomy of the channel: transport failures classified by kind,
//! codec failures, executor failures and protocol-level conditions.

use vstd::prelude::*;

verus! {

/// A failure reported by the stream transport.  `Reset` is terminal for the
/// session; `WouldBlock` is transient (wait for the next readiness event);
/// `Other` carries the OS error code and is fatal for the session only.
#[derive(Clone, Copy, Debug, PartialEq, Eq, Structural)]
pub enum TransportError {
    Reset,
    WouldBlock,
    Other(i32),
}

/// A failure of the compression codec: the received bytes are not a valid
/// compressed stream (corrupt or truncated).
#[derive(Clone, Copy, Debug, PartialEq, Eq, Structural)]
pub enum CodecError {
    Corrupt,
}

/// A failure of the command executor.  `SpawnFailed` means the child process
/// could not even be started; it is recoverable, becoming a fixed
/// user-visible reply.  `NonZeroExit` means the process ran and reported
/// failure; the session treats that as an ordinary result whose bytes are
/// the captured standard error, not as a channel error.
#[derive(Clone, Copy, Debug, PartialEq, Eq, Structural)]
pub enum ExecError {
    SpawnFailed,
    NonZeroExit,
}

/// A protocol-level condition: a message that trims to nothing.  It is
/// silently absorbed — the session produces no reply, never reaches the
/// executor, and keeps waiting.
#[derive(Clone, Copy, Debug, PartialEq, Eq, Structural)]
pub enum ProtocolError {
    EmptyMessage,
}

} // verus!
