//! The consuming end of a channel.

use crate::channels::fabric::{Fabric, FabricState};
use crate::ports::Ports;
use crate::task::Poll;
use std::task::Waker;
use vstd::prelude::*;

verus! {

/// The outward mirror of a [`Receiver`]: names the same channel, for wiring.
#[derive(Clone, Copy, Debug, PartialEq, Eq)]
pub struct ReceiverHandle {
    channel: usize,
}

impl ReceiverHandle {
    /// The index of the channel that the receiver reads.
    pub closed spec fn channel_spec(&self) -> usize {
        self.channel
    }

    #[verifier::when_used_as_spec(channel_spec)]
    pub fn channel(&self) -> (id: usize)
        ensures
            id == self.channel_spec(),
    {
        self.channel
    }
}

/// The consuming end of one channel.
#[derive(Debug)]
pub struct Receiver {
    channel: usize,
}

impl Receiver {
    /// The index of the channel that the receiver reads.
    pub closed spec fn channel_spec(&self) -> usize {
        self.channel
    }

    #[verifier::when_used_as_spec(channel_spec)]
    pub fn channel(&self) -> (id: usize)
        ensures
            id == self.channel_spec(),
    {
        self.channel
    }

    /// Asks for the next message.
    pub fn poll_next(&self, fabric: &mut Fabric, waker: &Waker) -> (res: Poll<Option<u64>>)
        requires
            old(fabric)@.wf(),
            self.wired_in(old(fabric)@),
        ensures
            res == old(fabric)@.channels[self.channel() as int].receive_result(),
            final(fabric)@ == old(fabric)@.set_channel(
                self.channel(),
                old(fabric)@.channels[self.channel() as int].receive(),
            ),
            final(fabric)@.wf(),
    {
        let channel = fabric.channel_mut(self.channel);
        if !channel.is_closed() {
            if let Some(item) = channel.pop() {
                channel.wake_tx();
                Poll::Ready(Some(item))
            } else {
                channel.register_rx_waker(waker);
                if let Some(item) = channel.pop() {
                    channel.wake_tx();
                    Poll::Ready(Some(item))
                } else {
                    Poll::Pending
                }
            }
        } else {
            Poll::Ready(None)
        }
    }

    /// Whether the sequence has ended: every later poll answers the end.
    pub fn is_terminated(&self, fabric: &Fabric) -> (ended: bool)
        requires
            self.wired_in(fabric@),
        ensures
            ended == fabric@.channels[self.channel() as int].closed,
    {
        fabric.channel(self.channel).is_closed()
    }

    /// Gives the receiver up and closes its channel, so that producers
    /// learn that nothing will be consumed any more.
    pub fn close(self, fabric: &mut Fabric)
        requires
            old(fabric)@.wf(),
            self.wired_in(old(fabric)@),
        ensures
            final(fabric)@ == old(fabric)@.set_channel(
                self.channel(),
                old(fabric)@.channels[self.channel() as int].close(),
            ),
            final(fabric)@.wf(),
    {
        fabric.channel_mut(self.channel).close();
    }
}

impl Ports for Receiver {
    type Handle = ReceiverHandle;

    open spec fn wired_in(&self, fabric: FabricState) -> bool {
        fabric.has_channel(self.channel())
    }

    closed spec fn handle_spec(&self) -> ReceiverHandle {
        ReceiverHandle { channel: self.channel }
    }

    open spec fn after_create(before: FabricState) -> FabricState {
        before.open_channel()
    }

    closed spec fn handle_after_create(before: FabricState) -> ReceiverHandle {
        ReceiverHandle { channel: before.channels.len() as usize }
    }

    fn handle(&self) -> (handle: ReceiverHandle)
        ensures
            handle.channel() == self.channel(),
    {
        ReceiverHandle { channel: self.channel }
    }

    /// Opens a fresh channel and returns its consuming end.
    fn create(fabric: &mut Fabric) -> (ports: Receiver)
        ensures
            ports.channel() == old(fabric)@.channels.len(),
    {
        let channel: usize = fabric.open_channel();
        assert(fabric@.channels.take(old(fabric)@.channels.len() as int) =~= old(
            fabric,
        )@.channels);
        assert(fabric@.inboxes.take(old(fabric)@.inboxes.len() as int) =~= old(fabric)@.inboxes);
        Receiver { channel }
    }
}

/// The handle of a receiver names the receiver's channel.
pub proof fn lemma_handle_names_channel(receiver: Receiver)
    ensures
        receiver.handle_spec().channel() == receiver.channel(),
{
}

/// The handle of the receiver that `create` builds names the channel that
/// `create` opens: the first index that was free.
pub proof fn lemma_created_handle_names_new_channel(before: FabricState)
    requires
        before.wf(),
    ensures
        <Receiver as Ports>::handle_after_create(before).channel() == before.channels.len(),
        <Receiver as Ports>::after_create(before).has_channel(
            <Receiver as Ports>::handle_after_create(before).channel(),
        ),
{
}

} // verus!
