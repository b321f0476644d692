//! The producing end that feeds one channel, bound to it late.

use crate::channels::channel::SendError;
use crate::channels::fabric::{Fabric, FabricState};
use crate::channels::receiver::ReceiverHandle;
use crate::ports::Ports;
use crate::task::Poll;
use std::task::Waker;
use vstd::prelude::*;

verus! {

/// The target after the inbox has been read: the channel that was sent
/// last wins, and without news the target stays.
pub open spec fn latest_target(current: Option<usize>, pending: Seq<usize>) -> Option<usize> {
    if pending.len() > 0 {
        Some(pending.last())
    } else {
        current
    }
}

/// Whether a producer bound to `target` has to wait for room.
pub open spec fn must_wait(fabric: FabricState, target: Option<usize>) -> bool {
    target matches Some(channel) && fabric.channels[channel as int].is_full()
}

/// The fabric after a producer bound to `target` has asked whether it may
/// send: where it has to wait, `waker` joins the target's list.
pub open spec fn await_room(
    fabric: FabricState,
    target: Option<usize>,
    waker: Waker,
) -> FabricState {
    match target {
        Some(channel) if fabric.channels[channel as int].is_full() => fabric.set_channel(
            channel,
            fabric.channels[channel as int].register_tx(waker),
        ),
        _ => fabric,
    }
}

/// What sending `item` to `target` answers: an unbound producer accepts
/// the message and drops it.
pub open spec fn send_result(fabric: FabricState, target: Option<usize>, item: u64) -> Result<
    (),
    SendError<u64>,
> {
    match target {
        Some(channel) => fabric.channels[channel as int].push_result(item),
        None => Ok(()),
    }
}

/// The fabric after sending `item` to `target`.
pub open spec fn send(fabric: FabricState, target: Option<usize>, item: u64) -> FabricState {
    match target {
        Some(channel) => fabric.set_channel(channel, fabric.channels[channel as int].push(item)),
        None => fabric,
    }
}

/// The fabric after a producer bound to `target` has flushed: the
/// target's consumer is woken.
pub open spec fn flush(fabric: FabricState, target: Option<usize>) -> FabricState {
    match target {
        Some(channel) => fabric.set_channel(channel, fabric.channels[channel as int].wake_rx()),
        None => fabric,
    }
}

/// The outward mirror of a [`Sender`]: delivers a target to it.
#[derive(Clone, Copy, Debug, PartialEq, Eq)]
pub struct SenderHandle {
    inbox: usize,
}

impl SenderHandle {
    /// The index of the sender's control inbox.
    pub closed spec fn inbox_spec(&self) -> usize {
        self.inbox
    }

    #[verifier::when_used_as_spec(inbox_spec)]
    pub fn inbox(&self) -> (id: usize)
        ensures
            id == self.inbox_spec(),
    {
        self.inbox
    }

    /// Tells the sender to feed `rx`'s channel from its next readiness
    /// check on. A sender that is gone is told nothing.
    pub fn connect(&self, rx: &ReceiverHandle, fabric: &mut Fabric)
        requires
            old(fabric)@.wf(),
            old(fabric)@.has_inbox(self.inbox()),
            old(fabric)@.has_channel(rx.channel()),
        ensures
            final(fabric)@ == old(fabric)@.post(self.inbox(), rx.channel()),
            final(fabric)@.wf(),
    {
        fabric.post(self.inbox, rx.channel());
    }
}

/// The producing end that feeds at most one channel.
#[derive(Debug)]
pub struct Sender {
    inbox: usize,
    target: Option<usize>,
}

impl Sender {
    /// The index of the sender's control inbox.
    pub closed spec fn inbox_spec(&self) -> usize {
        self.inbox
    }

    #[verifier::when_used_as_spec(inbox_spec)]
    pub fn inbox(&self) -> (id: usize)
        ensures
            id == self.inbox_spec(),
    {
        self.inbox
    }

    /// The channel that the sender feeds, if it is bound.
    pub closed spec fn target_spec(&self) -> Option<usize> {
        self.target
    }

    #[verifier::when_used_as_spec(target_spec)]
    pub fn target(&self) -> (target: Option<usize>)
        ensures
            target == self.target_spec(),
    {
        self.target
    }

    /// Binds the sender to `rx`'s channel at once.
    pub fn connect(&mut self, rx: &ReceiverHandle)
        ensures
            final(self).inbox() == old(self).inbox(),
            final(self).target() == Some(rx.channel()),
    {
        self.target = Some(rx.channel());
    }

    /// Reads the control inbox, then asks whether a message may be sent.
    pub fn poll_ready(&mut self, fabric: &mut Fabric, waker: &Waker) -> (res: Poll<
        Result<(), SendError<u64>>,
    >)
        requires
            old(fabric)@.wf(),
            old(self).wired_in(old(fabric)@),
        ensures
            final(self).inbox() == old(self).inbox(),
            final(self).target() == latest_target(
                old(self).target(),
                old(fabric)@.inboxes[old(self).inbox() as int].pending,
            ),
            res == if must_wait(old(fabric)@, final(self).target()) {
                Poll::<Result<(), SendError<u64>>>::Pending
            } else {
                Poll::Ready(Ok(()))
            },
            exists|registered: Waker|
                final(fabric)@ == #[trigger] await_room(
                    old(fabric)@.drain(old(self).inbox()),
                    final(self).target(),
                    registered,
                ),
            final(fabric)@.wf(),
            final(self).wired_in(final(fabric)@),
    {
        let taken = fabric.drain(self.inbox);
        if taken.len() > 0 {
            self.target = Some(taken[taken.len() - 1]);
        }
        let ghost drained = fabric@;
        match self.target {
            Some(channel) => {
                if fabric.channel(channel).is_full() {
                    fabric.channel_mut(channel).register_tx_waker(waker);
                    proof {
                        let registered = choose|registered: Waker|
                            fabric@.channels[channel as int]
                                == #[trigger] drained.channels[channel as int].register_tx(
                                registered,
                            );
                        assert(fabric@ == await_room(drained, self.target(), registered));
                    }
                    Poll::Pending
                } else {
                    assert(fabric@ == await_room(drained, self.target(), *waker));
                    Poll::Ready(Ok(()))
                }
            },
            None => {
                assert(fabric@ == await_room(drained, self.target(), *waker));
                Poll::Ready(Ok(()))
            },
        }
    }

    /// Hands `item` to the target. Without a target the message is
    /// accepted and dropped.
    pub fn start_send(&mut self, fabric: &mut Fabric, item: u64) -> (res: Result<
        (),
        SendError<u64>,
    >)
        requires
            old(fabric)@.wf(),
            old(self).wired_in(old(fabric)@),
        ensures
            *final(self) == *old(self),
            res == send_result(old(fabric)@, old(self).target(), item),
            final(fabric)@ == send(old(fabric)@, old(self).target(), item),
            final(fabric)@.wf(),
    {
        match self.target {
            Some(channel) => fabric.channel_mut(channel).push(item),
            None => Ok(()),
        }
    }

    /// Wakes the target's consumer.
    pub fn poll_flush(&mut self, fabric: &mut Fabric) -> (res: Poll<Result<(), SendError<u64>>>)
        requires
            old(fabric)@.wf(),
            old(self).wired_in(old(fabric)@),
        ensures
            *final(self) == *old(self),
            res == Poll::Ready(Ok::<(), SendError<u64>>(())),
            final(fabric)@ == flush(old(fabric)@, old(self).target()),
            final(fabric)@.wf(),
    {
        match self.target {
            Some(channel) => {
                fabric.channel_mut(channel).wake_rx();
            },
            None => {},
        }
        Poll::Ready(Ok(()))
    }

    /// Wakes the target's consumer; the channel itself stays open.
    pub fn poll_close(&mut self, fabric: &mut Fabric) -> (res: Poll<Result<(), SendError<u64>>>)
        requires
            old(fabric)@.wf(),
            old(self).wired_in(old(fabric)@),
        ensures
            *final(self) == *old(self),
            res == Poll::Ready(Ok::<(), SendError<u64>>(())),
            final(fabric)@ == flush(old(fabric)@, old(self).target()),
            final(fabric)@.wf(),
    {
        match self.target {
            Some(channel) => {
                fabric.channel_mut(channel).wake_rx();
            },
            None => {},
        }
        Poll::Ready(Ok(()))
    }

    /// Gives the sender up: handles that connect later reach nobody.
    pub fn close(self, fabric: &mut Fabric)
        requires
            old(fabric)@.wf(),
            self.wired_in(old(fabric)@),
        ensures
            final(fabric)@ == old(fabric)@.retire(self.inbox()),
            final(fabric)@.wf(),
    {
        fabric.retire(self.inbox);
    }
}

impl Ports for Sender {
    type Handle = SenderHandle;

    open spec fn wired_in(&self, fabric: FabricState) -> bool {
        &&& fabric.has_inbox(self.inbox())
        &&& self.target() matches Some(channel) ==> fabric.has_channel(channel)
    }

    closed spec fn handle_spec(&self) -> SenderHandle {
        SenderHandle { inbox: self.inbox }
    }

    open spec fn after_create(before: FabricState) -> FabricState {
        before.open_inbox()
    }

    closed spec fn handle_after_create(before: FabricState) -> SenderHandle {
        SenderHandle { inbox: before.inboxes.len() as usize }
    }

    fn handle(&self) -> (handle: SenderHandle)
        ensures
            handle.inbox() == self.inbox(),
    {
        SenderHandle { inbox: self.inbox }
    }

    /// Opens a fresh control inbox and returns an unbound sender that
    /// reads it.
    fn create(fabric: &mut Fabric) -> (ports: Sender)
        ensures
            ports.inbox() == old(fabric)@.inboxes.len(),
            ports.target() == None::<usize>,
    {
        let inbox: usize = fabric.open_inbox();
        assert(fabric@.channels.take(old(fabric)@.channels.len() as int) =~= old(
            fabric,
        )@.channels);
        assert(fabric@.inboxes.take(old(fabric)@.inboxes.len() as int) =~= old(fabric)@.inboxes);
        Sender { inbox, target: None }
    }
}

/// A message that is sent and flushed wakes the consumer: whoever waited
/// at the target waits no more, whether or not the message was accepted.
pub proof fn lemma_flush_wakes_consumer(fabric: FabricState, channel: usize, item: u64)
    requires
        fabric.has_channel(channel),
    ensures
        !flush(send(fabric, Some(channel), item), Some(channel)).channels[channel as int].rx_waiting,
        flush(send(fabric, Some(channel), item), Some(channel)).channels[channel as int].items
            == fabric.channels[channel as int].push(item).items,
{
}

/// Most recent wins: a sender that is told of two channels before its
/// next readiness check is bound to the second afterwards, whatever it was
/// bound to before. What it then sends is answered by the second channel
/// alone, and no other channel gets a message.
pub proof fn lemma_most_recent_wins(
    fabric: FabricState,
    inbox: usize,
    current: Option<usize>,
    first: usize,
    second: usize,
    waker: Waker,
    item: u64,
)
    requires
        fabric.wf(),
        fabric.has_inbox(inbox),
        fabric.inboxes[inbox as int].live,
        fabric.has_channel(first),
        fabric.has_channel(second),
    ensures
        ({
            let told = fabric.post(inbox, first).post(inbox, second);
            let target = latest_target(current, told.inboxes[inbox as int].pending);
            let ready = await_room(told.drain(inbox), target, waker);
            let sent = send(ready, target, item);
            &&& target == Some(second)
            &&& send_result(ready, target, item) == fabric.channels[second as int].push_result(
                item,
            )
            &&& sent.channels[second as int].items == fabric.channels[second as int].push(
                item,
            ).items
            &&& forall|c: int|
                0 <= c < fabric.channels.len() && c != second ==> (#[trigger] sent.channels[c])
                    == fabric.channels[c]
        }),
{
}

/// Late binding: a sender without a target accepts a message and drops
/// it. Once it is told of a channel, its next readiness check binds it to
/// that channel, and the message it sends next goes to the back of that
/// channel, behind what the channel held, unless the channel is closed or
/// full.
pub proof fn lemma_late_binding(
    fabric: FabricState,
    inbox: usize,
    current: Option<usize>,
    late: usize,
    waker: Waker,
    item: u64,
)
    requires
        fabric.wf(),
        fabric.has_inbox(inbox),
        fabric.inboxes[inbox as int].live,
        fabric.has_channel(late),
    ensures
        send_result(fabric, None, item) == Ok::<(), SendError<u64>>(()),
        send(fabric, None, item) == fabric,
        ({
            let told = fabric.post(inbox, late);
            let target = latest_target(current, told.inboxes[inbox as int].pending);
            let ready = await_room(told.drain(inbox), target, waker);
            let before = fabric.channels[late as int];
            &&& target == Some(late)
            &&& send_result(ready, target, item) is Ok <==> !before.closed && !before.is_full()
            &&& send_result(ready, target, item) is Ok ==> send(
                ready,
                target,
                item,
            ).channels[late as int].items == before.items.push(item)
        }),
{
}

/// The handle of a sender names the sender's control inbox.
pub proof fn lemma_handle_names_inbox(sender: Sender)
    ensures
        sender.handle_spec().inbox() == sender.inbox(),
{
}

/// The handle of the sender that `create` builds names the inbox that
/// `create` opens: the first index that was free.
pub proof fn lemma_created_handle_names_new_inbox(before: FabricState)
    requires
        before.wf(),
    ensures
        <Sender as Ports>::handle_after_create(before).inbox() == before.inboxes.len(),
        <Sender as Ports>::after_create(before).has_inbox(
            <Sender as Ports>::handle_after_create(before).inbox(),
        ),
{
}

/// A sender and the receiver that it is wired to late.
pub struct LateWiring {
    /// The sender's control inbox.
    pub inbox: usize,
    /// The receiver's channel.
    pub rx: usize,
    /// The waker of the sender's task.
    pub waker: Waker,
}

/// One step in the life of a sender that is wired late.
pub enum LateOp {
    /// The process sends a message: a readiness check, then, unless the
    /// sender has to wait, the send and a flush.
    Emit(u64),
    /// The sender's handle is connected to the receiver.
    Connect,
    /// The consumer at the receiver polls once.
    Receive,
}

/// The fabric and the sender's target after `op`.
pub open spec fn late_step(
    fabric: FabricState,
    target: Option<usize>,
    wiring: LateWiring,
    op: LateOp,
) -> (FabricState, Option<usize>) {
    match op {
        LateOp::Emit(item) => {
            let bound = latest_target(target, fabric.inboxes[wiring.inbox as int].pending);
            let drained = fabric.drain(wiring.inbox);
            if must_wait(drained, bound) {
                (await_room(drained, bound, wiring.waker), bound)
            } else {
                (flush(send(drained, bound, item), bound), bound)
            }
        },
        LateOp::Connect => (fabric.post(wiring.inbox, wiring.rx), target),
        LateOp::Receive => (
            fabric.set_channel(wiring.rx, fabric.channels[wiring.rx as int].receive()),
            target,
        ),
    }
}

/// The fabric and the sender's target after every one of `ops`, in order.
pub open spec fn late_run(
    fabric: FabricState,
    target: Option<usize>,
    wiring: LateWiring,
    ops: Seq<LateOp>,
) -> (FabricState, Option<usize>)
    decreases ops.len(),
{
    if ops.len() == 0 {
        (fabric, target)
    } else {
        let next = late_step(fabric, target, wiring, ops[0]);
        late_run(next.0, next.1, wiring, ops.skip(1))
    }
}

/// No message is held up or refused in the course of `ops`: whenever the
/// sender emits while it is bound, its target has room and accepts.
pub open spec fn unhindered(
    fabric: FabricState,
    target: Option<usize>,
    wiring: LateWiring,
    ops: Seq<LateOp>,
) -> bool
    decreases ops.len(),
{
    if ops.len() == 0 {
        true
    } else {
        let next = late_step(fabric, target, wiring, ops[0]);
        &&& ops[0] matches LateOp::Emit(item) ==> {
            let bound = latest_target(target, fabric.inboxes[wiring.inbox as int].pending);
            let drained = fabric.drain(wiring.inbox);
            !must_wait(drained, bound) && send_result(drained, bound, item) is Ok
        }
        &&& unhindered(next.0, next.1, wiring, ops.skip(1))
    }
}

/// The messages that the process emits in the course of `ops`, in order.
pub open spec fn emitted(ops: Seq<LateOp>) -> Seq<u64>
    decreases ops.len(),
{
    if ops.len() == 0 {
        Seq::empty()
    } else {
        match ops[0] {
            LateOp::Emit(item) => seq![item] + emitted(ops.skip(1)),
            _ => emitted(ops.skip(1)),
        }
    }
}

/// How many messages the process emits before the first connect.
pub open spec fn lost(ops: Seq<LateOp>) -> nat
    decreases ops.len(),
{
    if ops.len() == 0 {
        0
    } else {
        match ops[0] {
            LateOp::Emit(_) => 1 + lost(ops.skip(1)),
            LateOp::Connect => 0,
            LateOp::Receive => lost(ops.skip(1)),
        }
    }
}

/// The messages that the process emits after the first connect, in order.
pub open spec fn heard(ops: Seq<LateOp>) -> Seq<u64>
    decreases ops.len(),
{
    if ops.len() == 0 {
        Seq::empty()
    } else {
        match ops[0] {
            LateOp::Connect => emitted(ops.skip(1)),
            _ => heard(ops.skip(1)),
        }
    }
}

/// The messages that the consumer at the receiver is handed in the course
/// of `ops`, in order.
pub open spec fn seen(
    fabric: FabricState,
    target: Option<usize>,
    wiring: LateWiring,
    ops: Seq<LateOp>,
) -> Seq<u64>
    decreases ops.len(),
{
    if ops.len() == 0 {
        Seq::empty()
    } else {
        let next = late_step(fabric, target, wiring, ops[0]);
        let rest = seen(next.0, next.1, wiring, ops.skip(1));
        let channel = fabric.channels[wiring.rx as int];
        match ops[0] {
            LateOp::Receive if !channel.closed && channel.items.len() > 0 => seq![
                channel.items[0],
            ] + rest,
            _ => rest,
        }
    }
}

/// What is emitted after the first connect is the end of what is emitted:
/// all of it but the messages that came before the connect.
pub proof fn lemma_heard_is_the_tail(ops: Seq<LateOp>)
    ensures
        lost(ops) <= emitted(ops).len(),
        heard(ops) == emitted(ops).skip(lost(ops) as int),
    decreases ops.len(),
{
    if ops.len() == 0 {
        assert(heard(ops) =~= emitted(ops).skip(0));
    } else {
        let rest = ops.skip(1);
        lemma_heard_is_the_tail(rest);
        match ops[0] {
            LateOp::Emit(item) => {
                assert((seq![item] + emitted(rest)).skip(1 + lost(rest) as int) =~= emitted(rest).skip(
                    lost(rest) as int,
                ));
            },
            LateOp::Connect => {
                assert(emitted(rest).skip(0) =~= emitted(rest));
            },
            LateOp::Receive => {},
        }
    }
}

/// A sender that is bound to the receiver, or will be at its next
/// readiness check, delivers all it emits: what the channel held followed
/// by what is emitted is what the consumer was handed followed by what
/// the channel still holds.
pub proof fn lemma_bound_sender_delivers(
    fabric: FabricState,
    target: Option<usize>,
    wiring: LateWiring,
    ops: Seq<LateOp>,
)
    requires
        fabric.has_inbox(wiring.inbox),
        fabric.has_channel(wiring.rx),
        latest_target(target, fabric.inboxes[wiring.inbox as int].pending) == Some(wiring.rx),
        forall|k: int|
            0 <= k < fabric.inboxes[wiring.inbox as int].pending.len()
                ==> #[trigger] fabric.inboxes[wiring.inbox as int].pending[k] == wiring.rx,
        unhindered(fabric, target, wiring, ops),
    ensures
        fabric.channels[wiring.rx as int].items + emitted(ops) == seen(
            fabric,
            target,
            wiring,
            ops,
        ) + late_run(fabric, target, wiring, ops).0.channels[wiring.rx as int].items,
    decreases ops.len(),
{
    let here = fabric.channels[wiring.rx as int];
    if ops.len() == 0 {
        assert(here.items + emitted(ops) =~= seen(fabric, target, wiring, ops) + here.items);
    } else {
        let next = late_step(fabric, target, wiring, ops[0]);
        let rest = ops.skip(1);
        let pending = fabric.inboxes[wiring.inbox as int].pending;
        match ops[0] {
            LateOp::Emit(item) => {
                assert(next.1 == Some(wiring.rx));
                assert(next.0.inboxes[wiring.inbox as int].pending =~= Seq::<usize>::empty());
            },
            LateOp::Connect => {
                if fabric.inboxes[wiring.inbox as int].live {
                    assert(next.0.inboxes[wiring.inbox as int].pending == pending.push(wiring.rx));
                }
            },
            LateOp::Receive => {},
        }
        lemma_bound_sender_delivers(next.0, next.1, wiring, rest);
        let there = next.0.channels[wiring.rx as int];
        let tail = seen(next.0, next.1, wiring, rest) + late_run(
            next.0,
            next.1,
            wiring,
            rest,
        ).0.channels[wiring.rx as int].items;
        assert(there.items + emitted(rest) == tail);
        match ops[0] {
            LateOp::Emit(item) => {
                assert(there.items == here.items.push(item));
                assert(here.items + (seq![item] + emitted(rest)) =~= here.items.push(item)
                    + emitted(rest));
            },
            LateOp::Connect => {
                assert(there == here);
            },
            LateOp::Receive => {
                if !here.closed && here.items.len() > 0 {
                    assert(there.items == here.items.skip(1));
                    assert(here.items =~= seq![here.items[0]] + here.items.skip(1));
                    assert((seq![here.items[0]] + seen(next.0, next.1, wiring, rest)) + late_run(
                        next.0,
                        next.1,
                        wiring,
                        rest,
                    ).0.channels[wiring.rx as int].items =~= seq![here.items[0]] + tail);
                    assert(here.items + emitted(rest) =~= seq![here.items[0]] + (there.items
                        + emitted(rest)));
                } else {
                    assert(there.items == here.items);
                }
            },
        }
    }
}

/// Late connect keeps the tail: a sender that starts without a target and
/// is connected to a receiver while it emits delivers the messages that
/// it emits after the connect, all of them and in order, and none of
/// those before. What the channel held followed by that tail is what the
/// consumer was handed followed by what the channel still holds; so a
/// consumer that drains a channel that was empty sees exactly the end of
/// the emission.
pub proof fn lemma_late_connect_keeps_the_tail(
    fabric: FabricState,
    wiring: LateWiring,
    ops: Seq<LateOp>,
)
    requires
        fabric.has_inbox(wiring.inbox),
        fabric.has_channel(wiring.rx),
        fabric.inboxes[wiring.inbox as int].live,
        fabric.inboxes[wiring.inbox as int].pending.len() == 0,
        unhindered(fabric, None, wiring, ops),
    ensures
        lost(ops) <= emitted(ops).len(),
        heard(ops) == emitted(ops).skip(lost(ops) as int),
        fabric.channels[wiring.rx as int].items + heard(ops) == seen(fabric, None, wiring, ops)
            + late_run(fabric, None, wiring, ops).0.channels[wiring.rx as int].items,
    decreases ops.len(),
{
    lemma_heard_is_the_tail(ops);
    let here = fabric.channels[wiring.rx as int];
    if ops.len() == 0 {
        assert(here.items + heard(ops) =~= seen(fabric, None, wiring, ops) + here.items);
    } else {
        let next = late_step(fabric, None, wiring, ops[0]);
        let rest = ops.skip(1);
        let there = next.0.channels[wiring.rx as int];
        match ops[0] {
            LateOp::Emit(item) => {
                assert(next.1 == None::<usize>);
                assert(next.0.inboxes[wiring.inbox as int].pending =~= Seq::<usize>::empty());
                lemma_late_connect_keeps_the_tail(next.0, wiring, rest);
                assert(there == here);
            },
            LateOp::Connect => {
                assert(next.0.inboxes[wiring.inbox as int].pending =~= seq![wiring.rx]);
                lemma_bound_sender_delivers(next.0, None, wiring, rest);
                assert(there == here);
            },
            LateOp::Receive => {
                lemma_late_connect_keeps_the_tail(next.0, wiring, rest);
                let tail = seen(next.0, None, wiring, rest) + late_run(
                    next.0,
                    None,
                    wiring,
                    rest,
                ).0.channels[wiring.rx as int].items;
                if !here.closed && here.items.len() > 0 {
                    assert(there.items == here.items.skip(1));
                    assert(here.items =~= seq![here.items[0]] + here.items.skip(1));
                    assert((seq![here.items[0]] + seen(next.0, None, wiring, rest)) + late_run(
                        next.0,
                        None,
                        wiring,
                        rest,
                    ).0.channels[wiring.rx as int].items =~= seq![here.items[0]] + tail);
                    assert(here.items + heard(rest) =~= seq![here.items[0]] + (there.items
                        + heard(rest)));
                } else {
                    assert(there.items == here.items);
                }
            },
        }
    }
}

} // verus!
