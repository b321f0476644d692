//! The bounded queue that carries messages from producers to one consumer.

use crate::task::{
    cell_new, cell_register, cell_wake, waker_armed, waker_clone, waker_wake, Poll,
};
use std::collections::VecDeque;
use std::task::Waker;
use vstd::prelude::*;

verus! {

/// `crossbeam_queue::ArrayQueue`: a bounded queue of fixed capacity.
#[verifier::external_type_specification]
#[verifier::external_body]
#[verifier::reject_recursive_types(T)]
pub struct ExArrayQueue<T>(crossbeam_queue::ArrayQueue<T>);

/// The messages a queue holds, oldest first.
pub uninterp spec fn queue_items(queue: crossbeam_queue::ArrayQueue<u64>) -> Seq<u64>;

/// The capacity a queue was made with.
pub uninterp spec fn queue_capacity(queue: crossbeam_queue::ArrayQueue<u64>) -> nat;

/// Why a message could not be sent.
#[derive(Debug, PartialEq, Eq)]
pub enum SendError<T> {
    /// The consumer is gone; no message will be accepted again.
    Closed,
    /// The channel is full; the message is handed back.
    Full(T),
}

impl<T: Clone> Clone for SendError<T> {
    fn clone(&self) -> (copy: Self)
        ensures
            match (*self, copy) {
                (SendError::Closed, SendError::Closed) => true,
                (SendError::Full(item), SendError::Full(copied)) => vstd::pervasive::cloned(
                    item,
                    copied,
                ),
                _ => false,
            },
    {
        match self {
            SendError::Closed => SendError::Closed,
            SendError::Full(item) => SendError::Full(item.clone()),
        }
    }
}

impl<T: Copy> Copy for SendError<T> {

}

impl<T> SendError<T> {
    /// The name of the error, without the message it may carry.
    pub fn label(&self) -> (label: &'static str)
        ensures
            label@ == if self is Closed {
                "Closed"@
            } else {
                "Full"@
            },
    {
        match self {
            SendError::Closed => "Closed",
            SendError::Full(_) => "Full",
        }
    }
}

/// The largest capacity a channel can be made with: its slots must fit in
/// the address space.
pub open spec fn max_capacity() -> nat {
    (usize::MAX / 32) as nat
}

/// `ArrayQueue::new`: an empty queue of the given capacity.
#[verifier::external_body]
fn queue_new(capacity: usize) -> (queue: crossbeam_queue::ArrayQueue<u64>)
    requires
        0 < capacity <= max_capacity(),
    ensures
        queue_items(queue) == Seq::<u64>::empty(),
        queue_capacity(queue) == capacity,
{
    crossbeam_queue::ArrayQueue::new(capacity)
}

/// `ArrayQueue::push`: appends the message if the queue holds fewer
/// messages than its capacity, and hands it back otherwise.
#[verifier::external_body]
fn queue_push(queue: &mut crossbeam_queue::ArrayQueue<u64>, item: u64) -> (res: Result<(), u64>)
    ensures
        match res {
            Ok(()) => {
                &&& queue_items(*old(queue)).len() < queue_capacity(*old(queue))
                &&& queue_items(*final(queue)) == queue_items(*old(queue)).push(item)
                &&& queue_capacity(*final(queue)) == queue_capacity(*old(queue))
            },
            Err(back) => {
                &&& queue_items(*old(queue)).len() >= queue_capacity(*old(queue))
                &&& back == item
                &&& queue_items(*final(queue)) == queue_items(*old(queue))
                &&& queue_capacity(*final(queue)) == queue_capacity(*old(queue))
            },
        },
{
    queue.push(item)
}

/// `ArrayQueue::pop`: removes and returns the oldest message, if any.
#[verifier::external_body]
fn queue_pop(queue: &mut crossbeam_queue::ArrayQueue<u64>) -> (res: Option<u64>)
    ensures
        match res {
            Some(item) => {
                &&& queue_items(*old(queue)).len() > 0
                &&& item == queue_items(*old(queue))[0]
                &&& queue_items(*final(queue)) == queue_items(*old(queue)).skip(1)
                &&& queue_capacity(*final(queue)) == queue_capacity(*old(queue))
            },
            None => {
                &&& queue_items(*old(queue)).len() == 0
                &&& queue_items(*final(queue)) == queue_items(*old(queue))
                &&& queue_capacity(*final(queue)) == queue_capacity(*old(queue))
            },
        },
{
    queue.pop()
}

/// `ArrayQueue::is_full`: whether the queue holds as many messages as its
/// capacity.
#[verifier::external_body]
fn queue_is_full(queue: &crossbeam_queue::ArrayQueue<u64>) -> (full: bool)
    ensures
        full == (queue_items(*queue).len() == queue_capacity(*queue)),
{
    queue.is_full()
}

/// What a channel holds, as a mathematical value.
#[verifier::ext_equal]
pub struct ChannelState {
    /// The queued messages, oldest first.
    pub items: Seq<u64>,
    /// How many messages the channel can hold.
    pub capacity: nat,
    /// Whether the consumer has gone.
    pub closed: bool,
    /// The wakers of the producers that wait for room, the one that has
    /// waited longest first.
    pub tx_wakers: Seq<Waker>,
    /// Whether the consumer waits for a message.
    pub rx_waiting: bool,
}

impl ChannelState {
    /// A channel never holds more than its capacity, which is at least one.
    pub open spec fn wf(self) -> bool {
        0 < self.capacity && self.items.len() <= self.capacity
    }

    /// A fresh channel: open, empty, nobody waiting.
    pub open spec fn fresh(capacity: nat) -> ChannelState {
        ChannelState {
            items: Seq::empty(),
            capacity,
            closed: false,
            tx_wakers: Seq::empty(),
            rx_waiting: false,
        }
    }

    pub open spec fn is_full(self) -> bool {
        self.items.len() == self.capacity
    }

    pub open spec fn close(self) -> ChannelState {
        ChannelState { closed: true, ..self }
    }

    /// What `push` answers: a closed channel refuses, a full one hands the
    /// message back.
    pub open spec fn push_result(self, item: u64) -> Result<(), SendError<u64>> {
        if self.closed {
            Err(SendError::Closed)
        } else if self.items.len() < self.capacity {
            Ok(())
        } else {
            Err(SendError::Full(item))
        }
    }

    /// The channel after `push`: the message goes to the back when it is
    /// accepted, and nothing changes otherwise.
    pub open spec fn push(self, item: u64) -> ChannelState {
        if self.push_result(item) is Ok {
            ChannelState { items: self.items.push(item), ..self }
        } else {
            self
        }
    }

    /// What `pop` answers: the oldest message, if there is one.
    pub open spec fn pop_result(self) -> Option<u64> {
        if self.items.len() > 0 {
            Some(self.items[0])
        } else {
            None
        }
    }

    /// The channel after `pop`.
    pub open spec fn pop(self) -> ChannelState {
        if self.items.len() > 0 {
            ChannelState { items: self.items.skip(1), ..self }
        } else {
            self
        }
    }

    /// A producer's waker joins the back of the list.
    pub open spec fn register_tx(self, waker: Waker) -> ChannelState {
        ChannelState { tx_wakers: self.tx_wakers.push(waker), ..self }
    }

    pub open spec fn register_rx(self) -> ChannelState {
        ChannelState { rx_waiting: true, ..self }
    }

    /// The producer that has waited longest leaves the list, if any
    /// waits.
    pub open spec fn wake_tx(self) -> ChannelState {
        if self.tx_wakers.len() > 0 {
            ChannelState { tx_wakers: self.tx_wakers.skip(1), ..self }
        } else {
            self
        }
    }

    pub open spec fn wake_rx(self) -> ChannelState {
        ChannelState { rx_waiting: false, ..self }
    }

    /// What one poll of the consumer answers: the end of the sequence once
    /// the channel is closed, else the oldest message, else nothing yet.
    pub open spec fn receive_result(self) -> Poll<Option<u64>> {
        if self.closed {
            Poll::Ready(None)
        } else if self.items.len() > 0 {
            Poll::Ready(Some(self.items[0]))
        } else {
            Poll::Pending
        }
    }

    /// The channel after one poll of the consumer: a message taken makes
    /// room and wakes one producer; an empty channel gets the consumer's
    /// waker.
    pub open spec fn receive(self) -> ChannelState {
        if self.closed {
            self
        } else if self.items.len() > 0 {
            self.pop().wake_tx()
        } else {
            self.register_rx()
        }
    }
}

/// A bounded first-in first-out queue of messages with a closed flag, one
/// slot for the consumer's waker and a list of producers' wakers.
pub struct Channel {
    closed: bool,
    tx_wakers: VecDeque<Waker>,
    rx_waker: futures::task::AtomicWaker,
    queue: crossbeam_queue::ArrayQueue<u64>,
}

impl View for Channel {
    type V = ChannelState;

    closed spec fn view(&self) -> ChannelState {
        ChannelState {
            items: queue_items(self.queue),
            capacity: queue_capacity(self.queue),
            closed: self.closed,
            tx_wakers: self.tx_wakers@,
            rx_waiting: waker_armed(self.rx_waker),
        }
    }
}

impl Channel {
    /// Makes an open, empty channel that holds up to `capacity` messages.
    pub fn with_capacity(capacity: usize) -> (channel: Channel)
        requires
            0 < capacity <= max_capacity(),
        ensures
            channel@ == ChannelState::fresh(capacity as nat),
            channel@.wf(),
    {
        Channel {
            closed: false,
            tx_wakers: VecDeque::new(),
            rx_waker: cell_new(),
            queue: queue_new(capacity),
        }
    }

    pub fn is_closed(&self) -> (closed: bool)
        ensures
            closed == self@.closed,
    {
        self.closed
    }

    /// Closes the channel for good.
    pub fn close(&mut self)
        ensures
            final(self)@ == old(self)@.close(),
    {
        self.closed = true;
    }

    pub fn is_full(&self) -> (full: bool)
        ensures
            full == self@.is_full(),
    {
        queue_is_full(&self.queue)
    }

    /// Adds a copy of a producer's waker to the back of the list of those
    /// waiting for room.
    pub fn register_tx_waker(&mut self, waker: &Waker)
        ensures
            exists|registered: Waker| final(self)@ == #[trigger] old(self)@.register_tx(registered),
    {
        let copy = waker_clone(waker);
        let ghost registered = copy;
        self.tx_wakers.push_back(copy);
        assert(self@ == old(self)@.register_tx(registered));
    }

    /// Puts the consumer's waker in its slot, replacing an earlier one.
    pub fn register_rx_waker(&mut self, waker: &Waker)
        ensures
            final(self)@ == old(self)@.register_rx(),
    {
        cell_register(&mut self.rx_waker, waker);
    }

    /// Wakes the consumer if it waits, and empties its slot.
    pub fn wake_rx(&mut self)
        ensures
            final(self)@ == old(self)@.wake_rx(),
    {
        cell_wake(&mut self.rx_waker);
    }

    /// Wakes the producer that has waited longest, if any waits, and
    /// takes it off the list.
    pub fn wake_tx(&mut self)
        ensures
            final(self)@ == old(self)@.wake_tx(),
    {
        if let Some(waker) = self.tx_wakers.pop_front() {
            assert(self.tx_wakers@ =~= old(self).tx_wakers@.skip(1));
            waker_wake(waker);
        }
    }

    /// Appends a message without waking anyone.
    pub fn push(&mut self, item: u64) -> (res: Result<(), SendError<u64>>)
        ensures
            res == old(self)@.push_result(item),
            final(self)@ == old(self)@.push(item),
    {
        if self.closed {
            return Err(SendError::Closed);
        }
        match queue_push(&mut self.queue, item) {
            Ok(()) => Ok(()),
            Err(back) => Err(SendError::Full(back)),
        }
    }

    /// Removes the oldest message.
    pub fn pop(&mut self) -> (res: Option<u64>)
        ensures
            res == old(self)@.pop_result(),
            final(self)@ == old(self)@.pop(),
    {
        queue_pop(&mut self.queue)
    }
}

/// One thing that a producer or the consumer can do to a channel.
pub enum ChannelOp {
    Push(u64),
    Pop,
    /// One poll of the consumer.
    Receive,
    Close,
    RegisterTx(Waker),
    RegisterRx,
    WakeTx,
    WakeRx,
}

impl ChannelState {
    /// The channel after `op`.
    pub open spec fn step(self, op: ChannelOp) -> ChannelState {
        match op {
            ChannelOp::Push(item) => self.push(item),
            ChannelOp::Pop => self.pop(),
            ChannelOp::Receive => self.receive(),
            ChannelOp::Close => self.close(),
            ChannelOp::RegisterTx(waker) => self.register_tx(waker),
            ChannelOp::RegisterRx => self.register_rx(),
            ChannelOp::WakeTx => self.wake_tx(),
            ChannelOp::WakeRx => self.wake_rx(),
        }
    }

    /// The channel after every one of `ops`, in order.
    pub open spec fn run(self, ops: Seq<ChannelOp>) -> ChannelState
        decreases ops.len(),
    {
        if ops.len() == 0 {
            self
        } else {
            self.step(ops[0]).run(ops.skip(1))
        }
    }

    /// The messages that the channel accepts in the course of `ops`, in
    /// order.
    pub open spec fn accepted(self, ops: Seq<ChannelOp>) -> Seq<u64>
        decreases ops.len(),
    {
        if ops.len() == 0 {
            Seq::empty()
        } else {
            let rest = self.step(ops[0]).accepted(ops.skip(1));
            match ops[0] {
                ChannelOp::Push(item) if self.push_result(item) is Ok => seq![item] + rest,
                _ => rest,
            }
        }
    }

    /// The messages that the channel hands out in the course of `ops`, in
    /// order.
    pub open spec fn delivered(self, ops: Seq<ChannelOp>) -> Seq<u64>
        decreases ops.len(),
    {
        if ops.len() == 0 {
            Seq::empty()
        } else {
            let rest = self.step(ops[0]).delivered(ops.skip(1));
            match ops[0] {
                ChannelOp::Pop if self.items.len() > 0 => seq![self.items[0]] + rest,
                ChannelOp::Receive if !self.closed && self.items.len() > 0 => seq![self.items[0]]
                    + rest,
                _ => rest,
            }
        }
    }
}

/// First in, first out: whatever is done to a channel, the messages it
/// held followed by those it accepted are the messages it handed out
/// followed by those it still holds. So what the consumer sees is always
/// the front of what was sent, in the order of sending, and once the
/// channel is drained it is all of it.
pub proof fn lemma_fifo(channel: ChannelState, ops: Seq<ChannelOp>)
    ensures
        channel.items + channel.accepted(ops) == channel.delivered(ops) + channel.run(ops).items,
        channel.items.len() == 0 && channel.run(ops).items.len() == 0 ==> channel.delivered(ops)
            == channel.accepted(ops),
    decreases ops.len(),
{
    if ops.len() == 0 {
        assert(channel.items + channel.accepted(ops) =~= channel.delivered(ops) + channel.run(
            ops,
        ).items);
    } else {
        let next = channel.step(ops[0]);
        let rest = ops.skip(1);
        lemma_fifo(next, rest);
        let tail = next.delivered(rest) + next.run(rest).items;
        assert(next.items + next.accepted(rest) == tail);
        match ops[0] {
            ChannelOp::Push(item) if channel.push_result(item) is Ok => {
                assert(channel.items + (seq![item] + next.accepted(rest)) =~= channel.items.push(
                    item,
                ) + next.accepted(rest));
            },
            ChannelOp::Pop if channel.items.len() > 0 => {
                assert(channel.items =~= seq![channel.items[0]] + channel.items.skip(1));
                assert((seq![channel.items[0]] + next.delivered(rest)) + next.run(rest).items
                    =~= seq![channel.items[0]] + tail);
                assert(channel.items + next.accepted(rest) =~= seq![channel.items[0]] + (
                next.items + next.accepted(rest)));
            },
            ChannelOp::Receive if !channel.closed && channel.items.len() > 0 => {
                assert(channel.items =~= seq![channel.items[0]] + channel.items.skip(1));
                assert((seq![channel.items[0]] + next.delivered(rest)) + next.run(rest).items
                    =~= seq![channel.items[0]] + tail);
                assert(channel.items + next.accepted(rest) =~= seq![channel.items[0]] + (
                next.items + next.accepted(rest)));
            },
            _ => {},
        }
    }
    if channel.items.len() == 0 && channel.run(ops).items.len() == 0 {
        assert(channel.items + channel.accepted(ops) =~= channel.accepted(ops));
        assert(channel.delivered(ops) + channel.run(ops).items =~= channel.delivered(ops));
    }
}

/// Bounded: whatever is done to a channel, it never holds more messages
/// than its capacity, and its capacity never changes.
pub proof fn lemma_bounded(channel: ChannelState, ops: Seq<ChannelOp>)
    requires
        channel.wf(),
    ensures
        channel.run(ops).wf(),
        channel.run(ops).items.len() <= channel.capacity,
        channel.run(ops).capacity == channel.capacity,
    decreases ops.len(),
{
    if ops.len() > 0 {
        lemma_bounded(channel.step(ops[0]), ops.skip(1));
    }
}

/// Room wakes a producer: a poll of the consumer that takes a message
/// from an open channel makes room for one more and takes the producer
/// that has waited longest off the list.
pub proof fn lemma_room_wakes_producer(channel: ChannelState)
    requires
        channel.wf(),
        !channel.closed,
        channel.items.len() > 0,
    ensures
        channel.receive_result() == Poll::Ready(Some(channel.items[0])),
        !channel.receive().is_full(),
        channel.receive().items == channel.items.skip(1),
        channel.receive().tx_wakers == if channel.tx_wakers.len() > 0 {
            channel.tx_wakers.skip(1)
        } else {
            channel.tx_wakers
        },
{
}

/// Closed for good: whatever is done to a closed channel, it stays closed
/// and accepts nothing.
pub proof fn lemma_closed_stays_closed(channel: ChannelState, ops: Seq<ChannelOp>)
    requires
        channel.closed,
    ensures
        channel.run(ops).closed,
        channel.accepted(ops) == Seq::<u64>::empty(),
    decreases ops.len(),
{
    if ops.len() > 0 {
        lemma_closed_stays_closed(channel.step(ops[0]), ops.skip(1));
    }
}

/// The end is final: once a poll of the consumer has answered the end of
/// the sequence, every later poll answers it too, whatever is done to the
/// channel in between.
pub proof fn lemma_end_is_final(channel: ChannelState, ops: Seq<ChannelOp>)
    requires
        channel.receive_result() == Poll::Ready(None::<u64>),
    ensures
        channel.receive() == channel,
        channel.run(ops).receive_result() == Poll::Ready(None::<u64>),
{
    lemma_closed_stays_closed(channel, ops);
}

} // verus!
