use vstd::prelude::*;

use crate::error::Error;

verus! {

/// How a socket or link operation of a relay loop ended.
pub enum SocketOutcome<T> {
    /// It went through, with this result.
    Done(T),
    /// It timed out (the socket reported that it would block).
    TimedOut,
    /// It failed with another error, rendered as its `Debug` text.
    Failed(String),
}

/// What a relay loop does next.
pub enum RelayStep {
    /// Go on with the next round (the loop still stops once asked to).
    Continue,
    /// Hand this packet on to the other side of the relay, then go on.
    Forward(Vec<u8>),
    /// End the loop with this error; when `raise_stop` holds, also ask the
    /// other relay loop of the connection to stop.
    Stop { error: Error, raise_stop: bool },
}

/// Message of a client that stopped taking packets.
pub open spec fn push_timeout_message() -> Seq<char> {
    "ZMQ socket timeout"@
}

/// What the downlink loop does after waiting for a packet from the
/// Crazyflie: push the packet's bytes to the client; when none came in time,
/// push an empty keep-alive frame; when the link failed, end with that error.
pub fn after_receive(outcome: SocketOutcome<Vec<u8>>) -> (step: RelayStep)
    ensures
        match outcome {
            SocketOutcome::Done(packet) => step == RelayStep::Forward(packet),
            SocketOutcome::TimedOut => step matches RelayStep::Forward(frame) && frame@.len() == 0,
            SocketOutcome::Failed(detail) => step == RelayStep::Stop { error: Error::LinkError(detail), raise_stop: false },
        },
{
    match outcome {
        SocketOutcome::Done(packet) => RelayStep::Forward(packet),
        SocketOutcome::TimedOut => RelayStep::Forward(Vec::new()),
        SocketOutcome::Failed(detail) => RelayStep::Stop { error: Error::LinkError(detail), raise_stop: false },
    }
}

/// What the downlink loop does after pushing a frame to the client: go on;
/// on a timeout end with the timeout error and ask the whole connection to
/// stop; on another socket error end with that error.
pub fn after_push(outcome: SocketOutcome<()>) -> (step: RelayStep)
    ensures
        match outcome {
            SocketOutcome::Done(_) => step is Continue,
            SocketOutcome::TimedOut => step matches RelayStep::Stop { error: Error::ServerError(message), raise_stop }
                && raise_stop && message@ == push_timeout_message(),
            SocketOutcome::Failed(detail) => step == RelayStep::Stop { error: Error::SocketError(detail), raise_stop: false },
        },
{
    match outcome {
        SocketOutcome::Done(_) => RelayStep::Continue,
        SocketOutcome::TimedOut => RelayStep::Stop {
            error: Error::ServerError(String::from_str("ZMQ socket timeout")),
            raise_stop: true,
        },
        SocketOutcome::Failed(detail) => RelayStep::Stop { error: Error::SocketError(detail), raise_stop: false },
    }
}

/// What the uplink loop does after waiting for a packet from the client:
/// forward it to the Crazyflie; on a timeout wait again; on another socket
/// error end with that error.
pub fn after_pull(outcome: SocketOutcome<Vec<u8>>) -> (step: RelayStep)
    ensures
        match outcome {
            SocketOutcome::Done(packet) => step == RelayStep::Forward(packet),
            SocketOutcome::TimedOut => step is Continue,
            SocketOutcome::Failed(detail) => step == RelayStep::Stop { error: Error::SocketError(detail), raise_stop: false },
        },
{
    match outcome {
        SocketOutcome::Done(packet) => RelayStep::Forward(packet),
        SocketOutcome::TimedOut => RelayStep::Continue,
        SocketOutcome::Failed(detail) => RelayStep::Stop { error: Error::SocketError(detail), raise_stop: false },
    }
}

} // verus!
