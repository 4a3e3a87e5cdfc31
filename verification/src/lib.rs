//! A minimal remote-command-execution channel: a listener relays typed
//! commands to a connected peer, the peer executes them and returns their
//! output.  Every message on the wire is a zlib-compressed payload framed by
//! a fixed-size-chunk read convention.  This crate holds the verified core:
//! the compression codec, the chunk framer, the command classifier, the
//! connection registry and the per-session protocol state machine.  Socket
//! and process I/O live outside, feeding the core plain values.

pub mod errors;
pub mod codec;
pub mod framer;
pub mod command;
pub mod registry;
pub mod controller;
pub mod config;
