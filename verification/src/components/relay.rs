//! The rule by which a process passes on what it receives.

use crate::channels::channel::SendError;
use vstd::prelude::*;

verus! {

/// What a relaying process has just learnt.
#[derive(Clone, Copy, Debug, PartialEq, Eq)]
pub enum RelayEvent {
    /// The process has started.
    Started,
    /// Its input has answered: a message, or the end of the sequence.
    Received(Option<u64>),
    /// Its output has answered the message that was sent last.
    Sent(Result<(), SendError<u64>>),
}

/// What a relaying process does next.
#[derive(Clone, Copy, Debug, PartialEq, Eq)]
pub enum RelayAction {
    /// Wait for the next message of the input.
    Receive,
    /// Send this message to the output and wait until it is through.
    Send(u64),
    /// End: the input has ended.
    Stop,
    /// Give up: the output has refused a message.
    Fail(SendError<u64>),
}

/// A relay receives, passes each message on unchanged, and receives
/// again; it stops when the input ends and gives up when the output
/// refuses.
pub open spec fn relay(event: RelayEvent) -> RelayAction {
    match event {
        RelayEvent::Started => RelayAction::Receive,
        RelayEvent::Received(Some(message)) => RelayAction::Send(message),
        RelayEvent::Received(None) => RelayAction::Stop,
        RelayEvent::Sent(Ok(())) => RelayAction::Receive,
        RelayEvent::Sent(Err(refusal)) => RelayAction::Fail(refusal),
    }
}

/// Decides the next action of a relay.
pub fn relay_step(event: RelayEvent) -> (action: RelayAction)
    ensures
        action == relay(event),
{
    match event {
        RelayEvent::Started => RelayAction::Receive,
        RelayEvent::Received(Some(message)) => RelayAction::Send(message),
        RelayEvent::Received(None) => RelayAction::Stop,
        RelayEvent::Sent(Ok(())) => RelayAction::Receive,
        RelayEvent::Sent(Err(refusal)) => RelayAction::Fail(refusal),
    }
}

} // verus!
