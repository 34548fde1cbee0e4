//! Forwarding between a local socket and a stream of the tunnel.

use vstd::prelude::*;

use crate::duration::Duration;
use crate::error::IoError;

verus! {

/// How a forwarder works.
#[derive(Debug, Clone, Copy, PartialEq, Eq, Structural)]
pub struct ForwarderConfig {
    pub buffer_size: usize,
    pub timeout: Option<Duration>,
}

impl Default for ForwarderConfig {
    fn default() -> (r: Self)
        ensures
            r.buffer_size == 65536,
            r.timeout is None,
    {
        ForwarderConfig { buffer_size: 65536, timeout: None }
    }
}

/// What happens to a forwarder.
#[derive(Debug, PartialEq, Eq)]
pub enum ForwardEvent {
    /// The socket was read; nothing at its end.
    FromSocket(Result<Vec<u8>, IoError>),
    /// The stream was read; nothing at its end.
    FromStream(Result<Vec<u8>, IoError>),
    /// What was read could not be written to the other side.
    WriteFailed(IoError),
    /// Nothing was read for the timeout.
    TimedOut,
}

/// What a forwarder does.
#[derive(Debug, PartialEq, Eq)]
pub enum ForwardAction {
    /// Write this to the stream, then read both sides again.
    ToStream(Vec<u8>),
    /// Write this to the socket, then read both sides again.
    ToSocket(Vec<u8>),
    /// Read both sides again.
    Again,
    /// Stop, and say that the connection is closed.
    Close,
}

/// Runs a forwarder by one event: what one side sends goes to the other as it is; the end or failure
/// of either side, and a timeout where one is configured, closes the connection.
pub fn forwarder(config: &ForwarderConfig, event: ForwardEvent) -> (r: ForwardAction)
    ensures
        match event {
            ForwardEvent::FromSocket(Ok(data)) if data@.len() > 0 => r == ForwardAction::ToStream(
                data,
            ),
            ForwardEvent::FromStream(Ok(data)) if data@.len() > 0 => r == ForwardAction::ToSocket(
                data,
            ),
            ForwardEvent::TimedOut => if config.timeout is Some {
                r is Close
            } else {
                r is Again
            },
            _ => r is Close,
        },
{
    match event {
        ForwardEvent::FromSocket(Ok(data)) => if data.len() == 0 {
            ForwardAction::Close
        } else {
            ForwardAction::ToStream(data)
        },
        ForwardEvent::FromStream(Ok(data)) => if data.len() == 0 {
            ForwardAction::Close
        } else {
            ForwardAction::ToSocket(data)
        },
        ForwardEvent::TimedOut => if config.timeout.is_some() {
            ForwardAction::Close
        } else {
            ForwardAction::Again
        },
        _ => ForwardAction::Close,
    }
}

} // verus!
